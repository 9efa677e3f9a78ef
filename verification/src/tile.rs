//! Tilesets, animation frames and the packed four-corner terrain words of tiles.
use vstd::prelude::*;
use std::ops::Range;
use std::rc::Rc;

verus! {

/// The 8-bit terrain id stored for corner `corner` (0 top-left, 1 top-right,
/// 2 bottom-left, 3 bottom-right) of the packed terrain word `terrain`.
pub open spec fn terrain_corner(terrain: u32, corner: int) -> int {
    (terrain as int / pow256(3 - corner)) % 256
}

pub open spec fn pow256(e: int) -> int
    decreases e,
{
    if e <= 0 { 1 } else { 256 * pow256(e - 1) }
}

/// Packs four corner terrain ids into one word; only the low 8 bits of each id are kept.
#[inline(always)]
pub fn make_terrain(top_left: u32, top_right: u32, bottom_left: u32, bottom_right: u32) -> (t: u32)
    ensures
        t == (top_left % 256) * 0x100_0000 + (top_right % 256) * 0x1_0000 + (bottom_left % 256) * 0x100
            + bottom_right % 256,
{
    let t = (top_left & 0xFF) << 24 | (top_right & 0xFF) << 16 | (bottom_left & 0xFF) << 8 | (
    bottom_right & 0xFF);
    assert(t == (top_left % 256) * 0x100_0000 + (top_right % 256) * 0x1_0000 + (bottom_left % 256) * 0x100
        + bottom_right % 256) by (bit_vector)
        requires
            t == (top_left & 0xFF) << 24 | (top_right & 0xFF) << 16 | (bottom_left & 0xFF) << 8 | (
            bottom_right & 0xFF),
    ;
    t
}

/// The terrain word `terrain` with corner `corner` replaced by the low 8 bits of `terrain_id`.
#[inline(always)]
pub fn set_terrain_corner(terrain: u32, corner: u32, terrain_id: u32) -> (t: u32)
    requires
        corner <= 3,
    ensures
        forall|c: int|
            0 <= c <= 3 ==> #[trigger] terrain_corner(t, c) == if c == corner {
                (terrain_id % 256) as int
            } else {
                terrain_corner(terrain, c)
            },
{
    let shift: u32 = (3 - corner) * 8;
    let mask: u32 = 0xFF << shift;
    let insert: u32 = terrain_id << shift;
    let t = (terrain & !mask) | (insert & mask);
    proof {
        lemma_corners(t);
        lemma_corners(terrain);
        if corner == 0 {
            assert(t / 0x100_0000 == terrain_id % 256 && (t / 0x1_0000) % 256 == (terrain / 0x1_0000) % 256
                && (t / 0x100) % 256 == (terrain / 0x100) % 256 && t % 256 == terrain % 256) by (bit_vector)
                requires
                    t == (terrain & !(0xFFu32 << 24u32)) | ((terrain_id << 24u32) & (0xFFu32 << 24u32)),
            ;
        } else if corner == 1 {
            assert(t / 0x100_0000 == terrain / 0x100_0000 && (t / 0x1_0000) % 256 == terrain_id % 256
                && (t / 0x100) % 256 == (terrain / 0x100) % 256 && t % 256 == terrain % 256) by (bit_vector)
                requires
                    t == (terrain & !(0xFFu32 << 16u32)) | ((terrain_id << 16u32) & (0xFFu32 << 16u32)),
            ;
        } else if corner == 2 {
            assert(t / 0x100_0000 == terrain / 0x100_0000 && (t / 0x1_0000) % 256 == (terrain / 0x1_0000) % 256
                && (t / 0x100) % 256 == terrain_id % 256 && t % 256 == terrain % 256) by (bit_vector)
                requires
                    t == (terrain & !(0xFFu32 << 8u32)) | ((terrain_id << 8u32) & (0xFFu32 << 8u32)),
            ;
        } else {
            assert(t / 0x100_0000 == terrain / 0x100_0000 && (t / 0x1_0000) % 256 == (terrain / 0x1_0000) % 256
                && (t / 0x100) % 256 == (terrain / 0x100) % 256 && t % 256 == terrain_id % 256) by (bit_vector)
                requires
                    t == (terrain & !(0xFFu32 << 0u32)) | ((terrain_id << 0u32) & (0xFFu32 << 0u32)),
            ;
        }
    }
    t
}

proof fn lemma_corners(t: u32)
    ensures
        terrain_corner(t, 0) == t / 0x100_0000,
        terrain_corner(t, 1) == (t / 0x1_0000) % 256,
        terrain_corner(t, 2) == (t / 0x100) % 256,
        terrain_corner(t, 3) == t % 256,
{
    reveal_with_fuel(pow256, 4);
    assert(t / 0x100_0000 < 256) by (bit_vector);
    assert(pow256(0) == 1);
    assert(t as int / 1 == t as int);
}

/// Reading each corner of a packed terrain word gives back the low 8 bits of
/// the id it was packed from.
pub proof fn lemma_make_terrain_corners(tl: u32, tr: u32, bl: u32, br: u32, t: u32)
    requires
        t == (tl % 256) * 0x100_0000 + (tr % 256) * 0x1_0000 + (bl % 256) * 0x100 + br % 256,
    ensures
        terrain_corner(t, 0) == tl % 256,
        terrain_corner(t, 1) == tr % 256,
        terrain_corner(t, 2) == bl % 256,
        terrain_corner(t, 3) == br % 256,
{
    lemma_corners(t);
    assert(t / 0x100_0000 == tl % 256 && (t / 0x1_0000) % 256 == tr % 256 && (t / 0x100) % 256 == bl % 256
        && t % 256 == br % 256) by (bit_vector)
        requires
            t == (tl % 256) * 0x100_0000 + (tr % 256) * 0x1_0000 + (bl % 256) * 0x100 + br % 256,
    ;
}

/// A single frame of an animated tile.
#[derive(PartialEq, Eq, Structural, Clone, Copy, Debug)]
pub struct Frame {
    pub tile_id: isize,
    pub duration: isize,
}

/// Global tile ids.
pub type TileId = isize;

/// A collection of tilesets, each owning a range of global tile ids.
pub struct Tilesets {
    pub tilesets: Vec<Tileset>,
}

/// A tileset and the range of global tile ids it owns.
pub struct Tileset {
    pub range: Range<isize>,
    pub name: String,
    pub tile_width: usize,
    pub tile_height: usize,
}

pub open spec fn owns(ts: Tileset, id: TileId) -> bool {
    ts.range.start <= id && id < ts.range.end
}

impl Tilesets {
    /// Whether some tileset owns `id`.
    pub fn contains_id(&self, id: TileId) -> (b: bool)
        ensures
            b == exists|i: int| 0 <= i < self.tilesets@.len() && owns(#[trigger] self.tilesets@[i], id),
    {
        let mut i: usize = 0;
        while i < self.tilesets.len()
            invariant
                i <= self.tilesets@.len(),
                forall|j: int| 0 <= j < i ==> !owns(#[trigger] self.tilesets@[j], id),
            decreases self.tilesets@.len() - i,
        {
            if self.tilesets[i].contains_id(id) {
                return true;
            }
            i += 1;
        }
        false
    }

    /// The first tileset that owns `id`.
    pub fn find_tileset(&self, id: TileId) -> (r: Option<&Tileset>)
        ensures
            match r {
                Some(ts) => exists|i: int|
                    0 <= i < self.tilesets@.len() && #[trigger] self.tilesets@[i] == *ts && owns(*ts, id)
                        && forall|j: int| 0 <= j < i ==> !owns(#[trigger] self.tilesets@[j], id),
                None => forall|i: int| 0 <= i < self.tilesets@.len() ==> !owns(#[trigger] self.tilesets@[i], id),
            },
    {
        let mut i: usize = 0;
        while i < self.tilesets.len()
            invariant
                i <= self.tilesets@.len(),
                forall|j: int| 0 <= j < i ==> !owns(#[trigger] self.tilesets@[j], id),
            decreases self.tilesets@.len() - i,
        {
            if self.tilesets[i].contains_id(id) {
                return Some(&self.tilesets[i]);
            }
            i += 1;
        }
        None
    }
}

impl Tileset {
    /// A tileset named `name` owning the `count` ids that start at `start_id`.
    pub fn new(name: &str, start_id: TileId, count: TileId) -> (ts: Self)
        requires
            isize::MIN <= start_id + count <= isize::MAX,
        ensures
            ts.name@ == name@,
            ts.range.start == start_id,
            ts.range.end == start_id + count,
            ts.tile_width == 0,
            ts.tile_height == 0,
    {
        Self {
            name: name.to_owned(),
            range: Range { start: start_id, end: start_id + count },
            tile_width: 0,
            tile_height: 0,
        }
    }

    /// Whether this tileset owns `id`.
    pub fn contains_id(&self, id: TileId) -> (b: bool)
        ensures
            b == owns(*self, id),
    {
        self.range.contains(&id)
    }
}

/// A tileset made by `new` owns exactly the `count` ids that start at its first id.
pub proof fn lemma_new_tileset_owns(ts: Tileset, start_id: TileId, count: TileId, id: TileId)
    requires
        ts.range.start == start_id,
        ts.range.end == start_id + count,
    ensures
        owns(ts, id) <==> start_id <= id < start_id + count,
{
}

/// A terrain type of a tileset.
pub struct Terrain {
    pub id: isize,
    pub tileset: Rc<Tileset>,
    pub name: String,
    pub image_tile_id: isize,
    pub transition: Vec<isize>,
}

} // verus!
