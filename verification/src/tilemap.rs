//! The editable tile map: a grid of cells, each holding a stack of tile ids
//! (one per layer), an optional link to another cell, and the tile palette.
use vstd::prelude::*;

use crate::font::{has_width, spec_text_width, text_width};

verus! {

pub const MAX_TILEMAP_X: usize = 200;

pub const MAX_TILEMAP_Y: usize = 200;

pub const MAX_LAYERS: usize = 8;

pub const MAX_CATEGORIES: usize = 100;

pub const UNDO_BUFFER_BYTES: usize = 16777216;

pub const MAX_PROPERTIES: usize = 10;

/// Number of cells of the map storage.
pub const CELLS: usize = 40000;

/// Number of tile ids a map can define.
pub const MAX_TILE_IDS: u16 = 32768;

/// The id of an empty layer of a cell.
pub const NO_TILE: i16 = -1;

/// The category of tiles defined without one.
pub const DEFAULT_CATEGORY: &'static str = "[unassigned]";

/// The category number that selects every category.
pub const ALL_CATEGORIES: u16 = 0xFFFF;

pub type TileData = i16;

/// A link from a cell to the cell `(x, y)`; a negative `x` means no link.
#[derive(Clone, Copy, PartialEq, Eq, Structural, Debug)]
pub struct Link {
    pub x: i16,
    pub y: i16,
}

/// A tile definition of the palette.
pub struct TileInfo {
    pub id: i16,
    pub category_id: u16,
    pub category: String,
    pub layermask: u32,
}

/// How far a layer is protected against editing.
#[derive(Clone, Copy, PartialEq, Eq, Structural, Debug)]
pub enum Lock {
    Unlocked,
    Protected,
    Locked,
}

/// A layer of the map.
pub struct Layer {
    pub name: String,
    pub locked: Lock,
    pub hidden: bool,
}

/// How a link change is recorded for undo.
#[derive(Clone, Copy, PartialEq, Eq, Structural, Debug)]
pub enum UndoMode {
    Off,
    Record,
    Block,
}

/// What an erase may remove: only the selected brush tile, any single tile,
/// or every erasable tile of the cell.
#[derive(Clone, Copy, PartialEq, Eq, Structural, Debug)]
pub enum Erase {
    Brushonly,
    Any,
    All,
}

/// The state of a layer as the editing rules see it.
pub struct LayerView {
    pub name: Seq<char>,
    pub locked: Lock,
    pub hidden: bool,
}

/// A tile definition as the editing rules see it.
pub struct TileView {
    pub id: i16,
    pub category_id: u16,
    pub category: Seq<char>,
    pub layermask: u32,
}

/// The abstract state of a tile map.
pub struct TilemapView {
    /// Tile ids: the id on layer `l` of cell `(x, y)` is at `slot(x, y, l)`.
    pub data: Seq<i16>,
    /// The link of each cell, at `cell(x, y)`.
    pub links: Seq<Link>,
    /// For each cell, how many links point to it.
    pub linkcount: Seq<usize>,
    pub max_x: usize,
    pub max_y: usize,
    pub num_layers: isize,
    pub spacing_x: usize,
    pub spacing_y: usize,
    pub palette_spacing_x: usize,
    pub palette_spacing_y: usize,
    pub scroll_x: usize,
    pub scroll_y: usize,
    pub cur_category: u16,
    pub cur_tile: isize,
    pub cur_layer: isize,
    pub num_categories: u16,
    pub category_scroll: usize,
    pub tiles: Seq<TileView>,
    pub num_tiles: usize,
    pub max_tiles: usize,
    pub digits: isize,
    pub cur_palette_count: usize,
    pub palette_scroll: usize,
    pub tileinfo_dirty: bool,
    pub layers: Seq<LayerView>,
    pub has_layer_names: bool,
    pub layername_width: usize,
    pub solo_layer: isize,
    pub background_tile: i16,
    /// One bit per tile id: whether the id has been defined.
    pub id_in_use: Seq<u8>,
}

/// Index of cell `(x, y)` in the cell storage.
pub open spec fn cell(x: int, y: int) -> int {
    y * MAX_TILEMAP_X + x
}

/// Index of layer `l` of cell `(x, y)` in the tile storage.
pub open spec fn slot(x: int, y: int, l: int) -> int {
    cell(x, y) * MAX_LAYERS + l
}

/// The cell a link points to, or -1 for no link.
pub open spec fn target(l: Link) -> int {
    if l.x >= 0 {
        cell(l.x as int, l.y as int)
    } else {
        -1
    }
}

/// The link of a cell that links nowhere.
pub open spec fn no_link() -> Link {
    Link { x: -1i16, y: -1i16 }
}

/// A link that either points nowhere or to a cell of the storage.
pub open spec fn link_ok(l: Link) -> bool {
    l.x >= 0 ==> (l.x < MAX_TILEMAP_X && 0 <= l.y < MAX_TILEMAP_Y)
}

/// How many of `links` point to cell `d`.
pub open spec fn refs(links: Seq<Link>, d: int) -> nat
    decreases links.len(),
{
    if links.len() == 0 {
        0
    } else {
        refs(links.drop_last(), d) + (if target(links.last()) == d {
            1nat
        } else {
            0nat
        })
    }
}

/// The tile every cell's bottom layer is cleared to: the background tile on
/// layer 0, empty elsewhere.
pub open spec fn bg(v: TilemapView, layer: int) -> i16 {
    if layer == 0 {
        v.background_tile
    } else {
        NO_TILE
    }
}

/// The bit of tile id `id` in the in-use bitset is set.
pub open spec fn id_used(ids: Seq<u8>, id: int) -> bool {
    (ids[id / 8] >> ((id % 8) as u8)) & 1 == 1
}

impl TilemapView {
    /// Sizes of the storage and ranges of the counters.
    pub open spec fn shape_ok(self) -> bool {
        &&& self.data.len() == CELLS * MAX_LAYERS
        &&& self.links.len() == CELLS
        &&& self.linkcount.len() == CELLS
        &&& self.layers.len() == MAX_LAYERS
        &&& self.id_in_use.len() == MAX_TILE_IDS / 8
        &&& 0 <= self.num_layers <= MAX_LAYERS
        &&& self.max_x <= MAX_TILEMAP_X
        &&& self.max_y <= MAX_TILEMAP_Y
        &&& -1 <= self.cur_layer < self.num_layers
        &&& -1 <= self.solo_layer < self.num_layers
        &&& self.tiles.len() <= self.max_tiles
        &&& self.num_tiles == self.tiles.len()
    }

    /// Every link points nowhere or into the map storage.
    pub open spec fn links_ok(self) -> bool {
        forall|c: int| 0 <= c < CELLS ==> link_ok(#[trigger] self.links[c])
    }

    /// Each cell's link count is the number of links that point to it.
    pub open spec fn counts_ok(self) -> bool {
        forall|d: int| 0 <= d < CELLS ==> #[trigger] self.linkcount[d] == refs(self.links, d)
    }

    /// The invariant every tile map keeps.
    pub open spec fn wf(self) -> bool {
        &&& self.shape_ok()
        &&& self.links_ok()
        &&& self.counts_ok()
    }

    /// The stack of ids of cell `(x, y)`, one per layer.
    pub open spec fn stack(self, x: int, y: int) -> Seq<i16> {
        self.data.subrange(slot(x, y, 0), slot(x, y, 0) + MAX_LAYERS)
    }
}

/// How many of the first `n` tile definitions belong to the category `category`,
/// every definition counting for `ALL_CATEGORIES`.
pub open spec fn palette_count(tiles: Seq<TileView>, n: int, category: u16) -> nat
    decreases n,
{
    if n <= 0 {
        0
    } else {
        palette_count(tiles, n - 1, category) + (if tiles[n - 1].category_id == category || category
            == ALL_CATEGORIES {
            1nat
        } else {
            0nat
        })
    }
}

/// Updating one link moves one reference from its old target to its new one.
pub proof fn lemma_refs_update(s: Seq<Link>, i: int, v: Link, d: int)
    requires
        0 <= i < s.len(),
    ensures
        refs(s.update(i, v), d) + (if target(s[i]) == d {
            1int
        } else {
            0int
        }) == refs(s, d) + (if target(v) == d {
            1int
        } else {
            0int
        }),
    decreases s.len(),
{
    let u = s.update(i, v);
    if i == s.len() - 1 {
        assert(u.drop_last() =~= s.drop_last());
    } else {
        lemma_refs_update(s.drop_last(), i, v, d);
        assert(u.drop_last() =~= s.drop_last().update(i, v));
    }
}

/// Links that all point nowhere hold no references.
pub proof fn lemma_refs_none(s: Seq<Link>, d: int)
    requires
        forall|c: int| 0 <= c < s.len() ==> #[trigger] s[c].x < 0,
        d >= 0,
    ensures
        refs(s, d) == 0,
    decreases s.len(),
{
    if s.len() > 0 {
        lemma_refs_none(s.drop_last(), d);
    }
}

/// References into a cell never exceed the number of links.
pub proof fn lemma_refs_bounded(s: Seq<Link>, d: int)
    ensures
        refs(s, d) <= s.len(),
    decreases s.len(),
{
    if s.len() > 0 {
        lemma_refs_bounded(s.drop_last(), d);
    }
}

/// A cell a link points to has at least one reference.
pub proof fn lemma_refs_positive(s: Seq<Link>, i: int)
    requires
        0 <= i < s.len(),
        target(s[i]) >= 0,
    ensures
        refs(s, target(s[i])) >= 1,
    decreases s.len(),
{
    if i < s.len() - 1 {
        lemma_refs_positive(s.drop_last(), i);
    }
}

/// The tile map being edited.
pub struct Tilemap {
    data: Vec<TileData>,
    link: Vec<Link>,
    linkcount: Vec<usize>,
    max_x: usize,
    max_y: usize,
    num_layers: isize,
    spacing_x: usize,
    spacing_y: usize,
    palette_spacing_x: usize,
    palette_spacing_y: usize,
    scroll_x: usize,
    scroll_y: usize,
    cur_category: u16,
    cur_tile: isize,
    cur_layer: isize,
    categories: Vec<String>,
    num_categories: u16,
    category_scroll: usize,
    tiles: Vec<TileInfo>,
    num_tiles: usize,
    max_tiles: usize,
    digits: isize,
    cur_palette_count: usize,
    palette_scroll: usize,
    tileinfo_dirty: bool,
    layerinfo: Vec<Layer>,
    has_layer_names: bool,
    layername_width: usize,
    solo_layer: isize,
    background_tile: i16,
    id_in_use: Vec<u8>,
    undo_buffer: Vec<i16>,
}

impl View for Tilemap {
    type V = TilemapView;

    closed spec fn view(&self) -> TilemapView {
        TilemapView {
            data: self.data@,
            links: self.link@,
            linkcount: self.linkcount@,
            max_x: self.max_x,
            max_y: self.max_y,
            num_layers: self.num_layers,
            spacing_x: self.spacing_x,
            spacing_y: self.spacing_y,
            palette_spacing_x: self.palette_spacing_x,
            palette_spacing_y: self.palette_spacing_y,
            scroll_x: self.scroll_x,
            scroll_y: self.scroll_y,
            cur_category: self.cur_category,
            cur_tile: self.cur_tile,
            cur_layer: self.cur_layer,
            num_categories: self.num_categories,
            category_scroll: self.category_scroll,
            tiles: self.tiles@.map_values(|t: TileInfo| TileView {
                id: t.id,
                category_id: t.category_id,
                category: t.category@,
                layermask: t.layermask,
            }),
            num_tiles: self.num_tiles,
            max_tiles: self.max_tiles,
            digits: self.digits,
            cur_palette_count: self.cur_palette_count,
            palette_scroll: self.palette_scroll,
            tileinfo_dirty: self.tileinfo_dirty,
            layers: self.layerinfo@.map_values(|l: Layer| LayerView {
                name: l.name@,
                locked: l.locked,
                hidden: l.hidden,
            }),
            has_layer_names: self.has_layer_names,
            layername_width: self.layername_width,
            solo_layer: self.solo_layer,
            background_tile: self.background_tile,
            id_in_use: self.id_in_use@,
        }
    }
}


/// Links are always allowed; a map that restricts them would decide here from
/// the two cells' tile stacks.
pub fn allow_link(_tile_layers: &Vec<TileData>, _link_layers: &Vec<TileData>) -> (b: bool)
    ensures
        b,
{
    true
}

impl Tilemap {
    /// An empty map of `map_x` by `map_y` cells with `map_layers` layers, room for
    /// `max_tiles` tile definitions, and map tiles `spacing_x` by `spacing_y` pixels apart.
    pub fn new(
        map_x: usize,
        map_y: usize,
        map_layers: usize,
        spacing_x: usize,
        spacing_y: usize,
        max_tiles: usize,
    ) -> (tm: Tilemap)
        requires
            map_layers <= MAX_LAYERS,
            map_x <= MAX_TILEMAP_X,
            map_y <= MAX_TILEMAP_Y,
            spacing_x < usize::MAX,
            spacing_y < usize::MAX,
        ensures
            tm@.wf(),
            tm@.max_x == map_x,
            tm@.max_y == map_y,
            tm@.num_layers == map_layers,
            tm@.spacing_x == spacing_x,
            tm@.spacing_y == spacing_y,
            tm@.palette_spacing_x == spacing_x + 1,
            tm@.palette_spacing_y == spacing_y + 1,
            tm@.scroll_x == 0 && tm@.scroll_y == 0,
            tm@.palette_scroll == 0,
            tm@.category_scroll == 0,
            tm@.cur_category == ALL_CATEGORIES,
            tm@.cur_tile == 0,
            tm@.cur_layer == -1,
            tm@.solo_layer == -1,
            tm@.tiles.len() == 0,
            tm@.max_tiles == max_tiles,
            tm@.tileinfo_dirty,
            !tm@.has_layer_names,
            tm@.layername_width == 0,
            tm@.background_tile == NO_TILE,
            forall|l: int| 0 <= l < MAX_LAYERS ==> (#[trigger] tm@.layers[l]).locked == Lock::Unlocked
                && !tm@.layers[l].hidden && tm@.layers[l].name.len() == 0,
            forall|i: int| 0 <= i < CELLS * MAX_LAYERS ==> #[trigger] tm@.data[i] == NO_TILE,
            forall|c: int| 0 <= c < CELLS ==> #[trigger] tm@.links[c] == no_link(),
            forall|i: int| 0 <= i < MAX_TILE_IDS / 8 ==> #[trigger] tm@.id_in_use[i] == 0,
    {
        let mut data: Vec<TileData> = Vec::new();
        let mut k: usize = 0;
        while k < CELLS * MAX_LAYERS
            invariant
                k <= CELLS * MAX_LAYERS,
                data@.len() == k,
                forall|i: int| 0 <= i < k ==> #[trigger] data@[i] == NO_TILE,
            decreases CELLS * MAX_LAYERS - k,
        {
            data.push(NO_TILE);
            k += 1;
        }
        let mut link: Vec<Link> = Vec::new();
        let mut linkcount: Vec<usize> = Vec::new();
        let mut k: usize = 0;
        while k < CELLS
            invariant
                k <= CELLS,
                link@.len() == k,
                linkcount@.len() == k,
                forall|c: int| 0 <= c < k ==> #[trigger] link@[c] == no_link(),
            decreases CELLS - k,
        {
            link.push(Link { x: -1, y: -1 });
            linkcount.push(0);
            k += 1;
        }
        let mut id_in_use: Vec<u8> = Vec::new();
        let mut k: usize = 0;
        while k < (MAX_TILE_IDS / 8) as usize
            invariant
                k <= MAX_TILE_IDS / 8,
                id_in_use@.len() == k,
                forall|i: int| 0 <= i < k ==> #[trigger] id_in_use@[i] == 0,
            decreases MAX_TILE_IDS / 8 - k,
        {
            id_in_use.push(0);
            k += 1;
        }
        let mut layerinfo: Vec<Layer> = Vec::new();
        let mut k: usize = 0;
        while k < MAX_LAYERS
            invariant
                k <= MAX_LAYERS,
                layerinfo@.len() == k,
                forall|l: int| 0 <= l < k ==> (#[trigger] layerinfo@[l]).locked == Lock::Unlocked
                    && !layerinfo@[l].hidden && layerinfo@[l].name@.len() == 0,
            decreases MAX_LAYERS - k,
        {
            layerinfo.push(Layer { name: String::new(), locked: Lock::Unlocked, hidden: false });
            k += 1;
        }
        let mut tm = Tilemap {
            data,
            link,
            linkcount,
            max_x: map_x,
            max_y: map_y,
            num_layers: map_layers as isize,
            spacing_x,
            spacing_y,
            palette_spacing_x: spacing_x + 1,
            palette_spacing_y: spacing_y + 1,
            scroll_x: 0,
            scroll_y: 0,
            cur_category: ALL_CATEGORIES,
            cur_tile: 0,
            cur_layer: -1,
            categories: Vec::new(),
            num_categories: 0,
            category_scroll: 0,
            tiles: Vec::with_capacity(max_tiles),
            num_tiles: 0,
            max_tiles,
            digits: 0,
            cur_palette_count: 0,
            palette_scroll: 0,
            tileinfo_dirty: true,
            layerinfo,
            has_layer_names: false,
            layername_width: 0,
            solo_layer: -1,
            background_tile: NO_TILE,
            id_in_use,
            undo_buffer: Vec::with_capacity(UNDO_BUFFER_BYTES / 2),
        };
        tm.clear_map();
        proof {
            assert forall|i: int| 0 <= i < CELLS * MAX_LAYERS implies #[trigger] tm@.data[i] == NO_TILE by {
                let c = i / 8;
                let l = i % 8;
                assert(i == c * 8 + l);
                if l == 0 {
                    assert(tm@.data[c * 8] == NO_TILE);
                } else if l < map_layers {
                    assert(tm@.data[c * 8 + l] == NO_TILE);
                } else {
                    assert(tm@.data[c * 8 + l] == NO_TILE);
                }
            }
        }
        tm
    }

    /// Clears every cell of the storage, also outside the current map size: the
    /// bottom layer to the background tile, the other layers of the map to empty,
    /// and all links away. Layers beyond the map's layer count keep their ids.
    pub fn clear_map(&mut self)
        requires
            old(self)@.shape_ok(),
        ensures
            final(self)@.wf(),
            final(self)@ == (TilemapView {
                data: final(self)@.data,
                links: final(self)@.links,
                linkcount: final(self)@.linkcount,
                ..old(self)@
            }),
            forall|c: int| 0 <= c < CELLS ==> #[trigger] final(self)@.data[c * 8] == old(self)@.background_tile,
            forall|c: int, l: int|
                0 <= c < CELLS && 1 <= l < old(self)@.num_layers ==> #[trigger] final(self)@.data[c * 8 + l]
                    == NO_TILE,
            forall|c: int, l: int|
                0 <= c < CELLS && old(self)@.num_layers <= l < MAX_LAYERS && l > 0
                    ==> #[trigger] final(self)@.data[c * 8 + l] == old(self)@.data[c * 8 + l],
            forall|c: int| 0 <= c < CELLS ==> #[trigger] final(self)@.links[c] == no_link(),
            forall|c: int| 0 <= c < CELLS ==> #[trigger] final(self)@.linkcount[c] == 0,
    {
        let n: usize = self.num_layers as usize;
        let bgt = self.background_tile;
        let ghost old_data = self.data@;
        let mut i: usize = 0;
        while i < CELLS
            invariant
                0 <= n <= MAX_LAYERS,
                n == old(self)@.num_layers,
                bgt == old(self)@.background_tile,
                self@ == (TilemapView {
                    data: self@.data,
                    links: self@.links,
                    linkcount: self@.linkcount,
                    ..old(self)@
                }),
                i <= CELLS,
                self.data@.len() == CELLS * MAX_LAYERS,
                self.link@.len() == CELLS,
                self.linkcount@.len() == CELLS,
                old_data == old(self)@.data,
                old_data.len() == CELLS * MAX_LAYERS,
                forall|c: int| 0 <= c < i ==> #[trigger] self.data@[c * 8] == bgt,
                forall|c: int, l: int| 0 <= c < i && 1 <= l < n ==> #[trigger] self.data@[c * 8 + l] == NO_TILE,
                forall|k: int|
                    (i * 8 <= k < CELLS * MAX_LAYERS || (0 <= k < i * 8 && k % 8 >= n && k % 8 > 0))
                        ==> #[trigger] self.data@[k] == old_data[k],
                forall|c: int| 0 <= c < i ==> #[trigger] self.link@[c] == no_link(),
                forall|c: int| 0 <= c < i ==> #[trigger] self.linkcount@[c] == 0,
            decreases CELLS - i,
        {
            self.data.set(i * 8, bgt);
            let mut j: usize = 1;
            while j < n
                invariant
                    0 <= n <= MAX_LAYERS,
                    i < CELLS,
                    1 <= j,
                    j <= n || j == 1,
                    self.data@.len() == CELLS * MAX_LAYERS,
                    self.link@.len() == CELLS,
                    self.linkcount@.len() == CELLS,
                    old_data.len() == CELLS * MAX_LAYERS,
                    self@ == (TilemapView {
                        data: self@.data,
                        links: self@.links,
                        linkcount: self@.linkcount,
                        ..old(self)@
                    }),
                    forall|c: int| 0 <= c < i ==> #[trigger] self.link@[c] == no_link(),
                    forall|c: int| 0 <= c < i ==> #[trigger] self.linkcount@[c] == 0,
                    self.data@[i * 8] == bgt,
                    forall|c: int| 0 <= c < i ==> #[trigger] self.data@[c * 8] == bgt,
                    forall|c: int, l: int| 0 <= c < i && 1 <= l < n ==> #[trigger] self.data@[c * 8 + l] == NO_TILE,
                    forall|l: int| 1 <= l < j ==> #[trigger] self.data@[i * 8 + l] == NO_TILE,
                    forall|k: int|
                        ((i * 8 + j <= k < CELLS * MAX_LAYERS && k != i * 8) || (0 <= k < i * 8 && k % 8 >= n && k
                            % 8 > 0)) ==> #[trigger] self.data@[k] == old_data[k],
                decreases n - j,
            {
                self.data.set(i * 8 + j, NO_TILE);
                j += 1;
            }
            self.link.set(i, Link { x: -1, y: -1 });
            self.linkcount.set(i, 0);
            proof {
                assert forall|c: int, l: int| 0 <= c < i + 1 && 1 <= l < n implies #[trigger] self.data@[c * 8
                    + l] == NO_TILE by {
                    if c == i {
                        assert(self.data@[i * 8 + l] == NO_TILE);
                    }
                }
                assert forall|k: int|
                    ((i + 1) * 8 <= k < CELLS * MAX_LAYERS || (0 <= k < (i + 1) * 8 && k % 8 >= n && k % 8 > 0))
                        implies #[trigger] self.data@[k] == old_data[k] by {
                    if i * 8 <= k < (i + 1) * 8 {
                        assert(k - i * 8 == k % 8);
                    }
                }
            }
            i += 1;
        }
        proof {
            assert forall|d: int| 0 <= d < CELLS implies #[trigger] self@.linkcount[d] == refs(self@.links, d) by {
                lemma_refs_none(self@.links, d);
            }
            assert forall|c: int, l: int|
                0 <= c < CELLS && old(self)@.num_layers <= l < MAX_LAYERS && l > 0 implies #[trigger] self@.data[c
                * 8 + l] == old(self)@.data[c * 8 + l] by {
                assert((c * 8 + l) % 8 == l);
            }
        }
    }
}


impl Tilemap {
    /// Sets the background tile, and puts it on every empty bottom-layer cell.
    pub fn set_background_tile(&mut self, id: i16)
        requires
            old(self)@.wf(),
            id >= -1,
        ensures
            final(self)@.wf(),
            final(self)@ == (TilemapView { data: final(self)@.data, background_tile: id, ..old(self)@ }),
            final(self)@.data.len() == old(self)@.data.len(),
            forall|c: int|
                0 <= c < CELLS ==> #[trigger] final(self)@.data[c * 8] == if old(self)@.data[c * 8] == NO_TILE {
                    id
                } else {
                    old(self)@.data[c * 8]
                },
            forall|k: int| 0 <= k < CELLS * MAX_LAYERS && k % 8 != 0 ==> #[trigger] final(self)@.data[k] == old(
                self,
            )@.data[k],
    {
        let mut i: usize = 0;
        while i < CELLS
            invariant
                i <= CELLS,
                self@ == (TilemapView { data: self@.data, ..old(self)@ }),
                self.data@.len() == CELLS * MAX_LAYERS,
                forall|c: int|
                    0 <= c < i ==> #[trigger] self.data@[c * 8] == if old(self)@.data[c * 8] == NO_TILE {
                        id
                    } else {
                        old(self)@.data[c * 8]
                    },
                forall|k: int|
                    0 <= k < CELLS * MAX_LAYERS && (k % 8 != 0 || k >= i * 8) ==> #[trigger] self.data@[k] == old(
                        self,
                    )@.data[k],
            decreases CELLS - i,
        {
            if self.data[i * 8] == -1 {
                self.data.set(i * 8, id);
            }
            proof {
                assert forall|k: int|
                    0 <= k < CELLS * MAX_LAYERS && (k % 8 != 0 || k >= (i + 1) * 8) implies #[trigger] self.data@[k]
                    == old(self)@.data[k] by {
                    if k == i * 8 {
                        assert(k % 8 == 0);
                    }
                }
            }
            i += 1;
        }
        self.background_tile = id;
    }

    /// Sets the distances between map tiles and between palette tiles.
    pub fn set_spacing(&mut self, spacing_x: usize, spacing_y: usize, palette_spacing_x: usize, palette_spacing_y: usize)
        ensures
            final(self)@ == (TilemapView {
                spacing_x,
                spacing_y,
                palette_spacing_x,
                palette_spacing_y,
                ..old(self)@
            }),
    {
        self.spacing_x = spacing_x;
        self.spacing_y = spacing_y;
        self.palette_spacing_x = palette_spacing_x;
        self.palette_spacing_y = palette_spacing_y;
    }

    /// The size of the map in cells.
    pub fn dimensions(&self) -> (d: (usize, usize))
        ensures
            d == (self@.max_x, self@.max_y),
    {
        (self.max_x, self.max_y)
    }

    /// Sets the size of the map in cells.
    pub fn set_dimensions(&mut self, map_x: usize, map_y: usize)
        requires
            map_x <= MAX_TILEMAP_X,
            map_y <= MAX_TILEMAP_Y,
        ensures
            final(self)@ == (TilemapView { max_x: map_x, max_y: map_y, ..old(self)@ }),
    {
        self.max_x = map_x;
        self.max_y = map_y;
    }

    /// The tile ids of cell `(x, y)`, one per layer.
    pub fn tile(&self, x: usize, y: usize) -> (stack: Vec<TileData>)
        requires
            self@.wf(),
            x < MAX_TILEMAP_X,
            y < MAX_TILEMAP_Y,
        ensures
            stack@ == self@.stack(x as int, y as int),
    {
        proof {
            lemma_slot_bounds(x as int, y as int);
        }
        let base: usize = (y * MAX_TILEMAP_X + x) * MAX_LAYERS;
        let mut stack: Vec<TileData> = Vec::new();
        let mut l: usize = 0;
        while l < MAX_LAYERS
            invariant
                self@.wf(),
                base == slot(x as int, y as int, 0),
                base + MAX_LAYERS <= self@.data.len(),
                l <= MAX_LAYERS,
                stack@ =~= self@.data.subrange(base as int, base + l),
            decreases MAX_LAYERS - l,
        {
            stack.push(self.data[base + l]);
            l += 1;
        }
        stack
    }

    /// Puts `tile` on layer `layer` of cell `(x, y)`.
    pub fn set_tile(&mut self, x: usize, y: usize, layer: usize, tile: i16)
        requires
            old(self)@.wf(),
            x < MAX_TILEMAP_X,
            y < MAX_TILEMAP_Y,
            layer < MAX_LAYERS,
        ensures
            final(self)@.wf(),
            final(self)@ == (TilemapView {
                data: old(self)@.data.update(slot(x as int, y as int, layer as int), tile),
                ..old(self)@
            }),
    {
        let k: usize = (y * MAX_TILEMAP_X + x) * MAX_LAYERS + layer;
        self.data.set(k, tile);
    }

    /// The link of cell `(x, y)`, if it has one.
    pub fn link(&self, x: usize, y: usize) -> (l: Option<Link>)
        requires
            self@.wf(),
            x < self@.max_x,
            y < self@.max_y,
        ensures
            l == if self@.links[cell(x as int, y as int)].x >= 0 {
                Some(self@.links[cell(x as int, y as int)])
            } else {
                None
            },
    {
        let link = self.link[y * MAX_TILEMAP_X + x];
        if link.x >= 0 {
            proof {
                assert(link_ok(self@.links[cell(x as int, y as int)]));
            }
            let here = self.tile(x, y);
            let there = self.tile(link.x as usize, link.y as usize);
            if !allow_link(&here, &there) {
                None
            } else {
                Some(link)
            }
        } else {
            None
        }
    }

    /// Links cell `(src_x, src_y)` to cell `(dest_x, dest_y)`; a negative
    /// `dest_x` removes the link.
    pub fn set_link(&mut self, src_x: usize, src_y: usize, dest_x: i16, dest_y: i16)
        requires
            old(self)@.wf(),
            src_x < MAX_TILEMAP_X,
            src_y < MAX_TILEMAP_Y,
            link_ok(Link { x: dest_x, y: dest_y }),
        ensures
            final(self)@.wf(),
            final(self)@ == (TilemapView {
                links: old(self)@.links.update(cell(src_x as int, src_y as int), Link { x: dest_x, y: dest_y }),
                linkcount: final(self)@.linkcount,
                ..old(self)@
            }),
    {
        self._set_link(src_x, src_y, dest_x, dest_y, UndoMode::Off)
    }

    /// Links cell `(src_x, src_y)` to cell `(dest_x, dest_y)` and keeps the link
    /// counts of the old and the new target up to date.
    pub fn _set_link(&mut self, src_x: usize, src_y: usize, dest_x: i16, dest_y: i16, undo: UndoMode)
        requires
            old(self)@.wf(),
            src_x < MAX_TILEMAP_X,
            src_y < MAX_TILEMAP_Y,
            link_ok(Link { x: dest_x, y: dest_y }),
        ensures
            final(self)@.wf(),
            final(self)@ == (TilemapView {
                links: old(self)@.links.update(cell(src_x as int, src_y as int), Link { x: dest_x, y: dest_y }),
                linkcount: final(self)@.linkcount,
                ..old(self)@
            }),
    {
        let src: usize = src_y * MAX_TILEMAP_X + src_x;
        let a = self.link[src];
        if a.x == dest_x && a.y == dest_y {
            proof {
                assert(self@.links.update(src as int, Link { x: dest_x, y: dest_y }) =~= self@.links);
            }
            return;
        }
        if undo != UndoMode::Off {
            // Undo recording of link changes is not kept by this editor.
        }
        let ghost links0 = self@.links;
        let new_link = Link { x: dest_x, y: dest_y };
        proof {
            assert(link_ok(links0[src as int]));
            lemma_refs_bounded(links0, target(new_link));
            lemma_refs_update(links0, src as int, new_link, target(a));
            lemma_refs_update(links0, src as int, new_link, target(new_link));
        }
        if a.x >= 0 {
            let t: usize = (a.y as usize) * MAX_TILEMAP_X + a.x as usize;
            proof {
                lemma_refs_positive(links0, src as int);
            }
            self.linkcount.set(t, self.linkcount[t] - 1);
        }
        if dest_x >= 0 {
            let t: usize = (dest_y as usize) * MAX_TILEMAP_X + dest_x as usize;
            self.linkcount.set(t, self.linkcount[t] + 1);
        }
        self.link.set(src, new_link);
        proof {
            assert forall|d: int| 0 <= d < CELLS implies #[trigger] self@.linkcount[d] == refs(self@.links, d) by {
                lemma_refs_update(links0, src as int, new_link, d);
            }
            assert forall|c: int| 0 <= c < CELLS implies link_ok(#[trigger] self@.links[c]) by {
                if c != src {
                    assert(self@.links[c] == links0[c]);
                }
            }
        }
    }

    /// Chooses how many digits the info panel shows for cell coordinates.
    pub fn compute_digits(&mut self)
        ensures
            final(self)@ == (TilemapView {
                digits: if old(self)@.max_x >= 1000 || old(self)@.max_y >= 1000 {
                    4
                } else if old(self)@.max_x >= 100 || old(self)@.max_y >= 100 {
                    3
                } else {
                    2
                },
                ..old(self)@
            }),
    {
        self.digits = if self.max_x >= 1000 || self.max_y >= 1000 {
            4
        } else if self.max_x >= 100 || self.max_y >= 100 {
            3
        } else {
            2
        };
    }
}


/// The bit of `id` set in its byte of the in-use bitset, other bits kept.
pub open spec fn mark_used(ids: Seq<u8>, id: int) -> Seq<u8> {
    ids.update(id / 8, ids[id / 8] | (1u8 << ((id % 8) as u8)))
}

/// Marking an id as used marks it and leaves every other id as it was.
pub proof fn lemma_mark_used(ids: Seq<u8>, id: int, other: int)
    requires
        ids.len() == MAX_TILE_IDS / 8,
        0 <= id < MAX_TILE_IDS,
        0 <= other < MAX_TILE_IDS,
    ensures
        id_used(mark_used(ids, id), id),
        other != id ==> (id_used(mark_used(ids, id), other) == id_used(ids, other)),
{
    let b = ids[id / 8];
    let s = (id % 8) as u8;
    assert(((b | (1u8 << s)) >> s) & 1 == 1) by (bit_vector)
        requires
            s < 8,
    ;
    if other != id && other / 8 == id / 8 {
        let t = (other % 8) as u8;
        assert(t != s);
        assert(((b | (1u8 << s)) >> t) & 1 == (b >> t) & 1) by (bit_vector)
            requires
                s < 8,
                t < 8,
                s != t,
        ;
    }
}

impl Tilemap {
    /// Adds the tile `id` to the palette: allowed on the layers whose bits are set
    /// in `layermask`, grouped under `category` (or the default category).
    pub fn define_tile(&mut self, id: u16, layermask: u32, category: Option<String>)
        requires
            old(self)@.wf(),
            id < MAX_TILE_IDS,
            old(self)@.tiles.len() < old(self)@.max_tiles,
            !id_used(old(self)@.id_in_use, id as int),
        ensures
            final(self)@.wf(),
            final(self)@ == (TilemapView {
                id_in_use: mark_used(old(self)@.id_in_use, id as int),
                tiles: old(self)@.tiles.push(
                    TileView {
                        id: id as i16,
                        category_id: 0,
                        category: match category {
                            Some(c) => c@,
                            None => DEFAULT_CATEGORY@,
                        },
                        layermask,
                    },
                ),
                num_tiles: (old(self)@.num_tiles + 1) as usize,
                tileinfo_dirty: true,
                ..old(self)@
            }),
    {
        let ghost cat_view = match category {
            Some(ref c) => c@,
            None => DEFAULT_CATEGORY@,
        };
        let category = match category {
            Some(c) => c,
            None => DEFAULT_CATEGORY.to_owned(),
        };
        let byte: usize = (id >> 3) as usize;
        let bit: u16 = id & 7;
        proof {
            assert(id >> 3 == id / 8) by (bit_vector);
            assert(id & 7 == id % 8) by (bit_vector);
        }
        let old_byte: u8 = self.id_in_use[byte];
        self.id_in_use.set(byte, old_byte | (1u8 << bit));
        let ghost old_tiles = self.tiles@;
        self.tiles.push(TileInfo { category, layermask, id: id as i16, category_id: 0 });
        self.num_tiles = self.num_tiles + 1;
        self.tileinfo_dirty = true;
        proof {
            assert(self@.tiles =~= old(self)@.tiles.push(
                TileView { id: id as i16, category_id: 0, category: cat_view, layermask },
            ));
        }
    }

    /// Names layer `layer`; the layer list becomes wide enough to show the name.
    pub fn set_layername(&mut self, layer: usize, layername: String)
        requires
            old(self)@.wf(),
            layer < MAX_LAYERS,
            forall|i: int| 0 <= i < layername@.len() ==> has_width(#[trigger] layername@[i]),
            spec_text_width(layername@) <= usize::MAX,
        ensures
            final(self)@.wf(),
            final(self)@ == (TilemapView {
                layers: old(self)@.layers.update(
                    layer as int,
                    LayerView {
                        name: layername@,
                        locked: old(self)@.layers[layer as int].locked,
                        hidden: old(self)@.layers[layer as int].hidden,
                    },
                ),
                has_layer_names: true,
                layername_width: if spec_text_width(layername@) > old(self)@.layername_width {
                    spec_text_width(layername@) as usize
                } else {
                    old(self)@.layername_width
                },
                ..old(self)@
            }),
    {
        let width = text_width(layername.as_str());
        let locked = self.layerinfo[layer].locked;
        let hidden = self.layerinfo[layer].hidden;
        let ghost name_view = layername@;
        self.layerinfo.set(layer, Layer { name: layername, locked, hidden });
        self.has_layer_names = true;
        self.layername_width = if width > self.layername_width {
            width
        } else {
            self.layername_width
        };
        proof {
            assert(self@.layers =~= old(self)@.layers.update(
                layer as int,
                LayerView { name: name_view, locked, hidden },
            ));
        }
    }

    /// Shows the palette of category `category` (every tile for `ALL_CATEGORIES`)
    /// from its start.
    pub fn choose_category(&mut self, category: u16)
        requires
            old(self)@.wf(),
        ensures
            final(self)@ == (TilemapView {
                cur_category: category,
                cur_palette_count: palette_count(old(self)@.tiles, old(self)@.num_tiles as int, category) as usize,
                palette_scroll: 0,
                ..old(self)@
            }),
    {
        let mut n: usize = 0;
        self.cur_category = category;
        let mut i: usize = 0;
        while i < self.num_tiles
            invariant
                self@ == (TilemapView { cur_category: category, ..old(self)@ }),
                self@.wf(),
                i <= self.num_tiles,
                n == palette_count(self@.tiles, i as int, category),
                n <= i,
            decreases self.num_tiles - i,
        {
            if self.tiles[i].category_id == category || category == ALL_CATEGORIES {
                n += 1;
            }
            i += 1;
        }
        self.cur_palette_count = n;
        self.palette_scroll = 0;
    }

    /// Brings the palette up to date if tiles were defined since it was last computed.
    pub fn prepare_tileinfo(&mut self)
        requires
            old(self)@.wf(),
        ensures
            final(self)@.wf(),
            !final(self)@.tileinfo_dirty,
            !old(self)@.tileinfo_dirty ==> final(self)@ == old(self)@,
            old(self)@.tileinfo_dirty ==> final(self)@ == tileinfo_computed(old(self)@),
    {
        if self.tileinfo_dirty {
            self.compute_tileinfo();
        }
    }

    /// Recomputes the palette: the category list is emptied, a selected category
    /// that no longer exists falls back to every category, and the palette of the
    /// selected category is shown from its start.
    pub fn compute_tileinfo(&mut self)
        requires
            old(self)@.wf(),
        ensures
            final(self)@.wf(),
            final(self)@ == tileinfo_computed(old(self)@),
    {
        self.num_categories = 0;
        if self.cur_category > self.num_categories {
            self.cur_category = ALL_CATEGORIES;
        }
        let cur = self.cur_category;
        self.choose_category(cur);
        self.tileinfo_dirty = false;
    }
}

/// The map state after its palette was recomputed.
pub open spec fn tileinfo_computed(v: TilemapView) -> TilemapView {
    let cat: u16 = if v.cur_category > 0 {
        ALL_CATEGORIES
    } else {
        v.cur_category
    };
    TilemapView {
        num_categories: 0,
        cur_category: cat,
        cur_palette_count: palette_count(v.tiles, v.num_tiles as int, cat) as usize,
        palette_scroll: 0,
        tileinfo_dirty: false,
        ..v
    }
}


/// The selected palette tile.
pub open spec fn cur_tile_info(v: TilemapView) -> TileView {
    v.tiles[v.cur_tile as int]
}

/// The selected tile may be used on layer `i`.
pub open spec fn layer_allowed(layermask: u32, i: int) -> bool {
    layermask & (1u32 << (i as u32)) != 0
}

/// The brush may put the selected tile on layer `i` of the cell stack `stack`:
/// the tile is allowed there, and either the layer is soloed, or it is the
/// selected layer (or no layer is selected) and it is visible, not locked, and
/// not a protected layer that already holds a tile.
pub open spec fn brush_allowed(v: TilemapView, stack: Seq<i16>, i: int) -> bool {
    &&& layer_allowed(cur_tile_info(v).layermask, i)
    &&& (i == v.solo_layer || (!(v.cur_layer >= 0 && i != v.cur_layer) && !v.layers[i].hidden
        && v.layers[i].locked != Lock::Locked && !(v.layers[i].locked == Lock::Protected && stack[i] != bg(
        v,
        i,
    ))))
}

/// The lowest layer from `i` up that the brush may paint, or -1.
pub open spec fn brush_layer(v: TilemapView, stack: Seq<i16>, i: int) -> int
    decreases v.num_layers - i,
{
    if i >= v.num_layers {
        -1
    } else if brush_allowed(v, stack, i) {
        i
    } else {
        brush_layer(v, stack, i + 1)
    }
}

/// The cell stack after brushing: with a palette tile selected, it goes on
/// the lowest layer that may take it (only the selected layer, when one is
/// selected); with none selected, or no layer that may take it, nothing
/// changes.
pub open spec fn spec_brush(v: TilemapView, stack: Seq<i16>) -> Seq<i16> {
    if v.cur_tile < 0 {
        stack
    } else {
        let i = brush_layer(v, stack, 0);
        if i < 0 {
            stack
        } else {
            stack.update(i, cur_tile_info(v).id)
        }
    }
}

/// The selected palette tile, if one is selected.
pub open spec fn erase_tile(v: TilemapView) -> Option<TileView> {
    if v.cur_tile >= 0 {
        Some(v.tiles[v.cur_tile as int])
    } else {
        None
    }
}

/// Layer `i` is visible and unlocked.
pub open spec fn layer_editable(v: TilemapView, i: int) -> bool {
    v.layers[i].locked == Lock::Unlocked && !v.layers[i].hidden
}

/// The highest layer from `i` down that holds `id` and may be edited, or -1.
pub open spec fn top_brush_layer(v: TilemapView, stack: Seq<i16>, id: i16, i: int) -> int
    decreases i + 1,
{
    if i < 0 {
        -1
    } else if stack[i] == id && layer_editable(v, i) {
        i
    } else {
        top_brush_layer(v, stack, id, i - 1)
    }
}

/// Erasing from layer `i` down: each editable layer holding a tile is cleared,
/// the first one only unless `all`; erasing stops at a bottom layer that holds
/// the background tile.
pub open spec fn erase_from_top(v: TilemapView, stack: Seq<i16>, all: bool, i: int) -> (Seq<i16>, Option<Erase>)
    decreases i + 1,
{
    if i < 0 {
        (stack, if all { Some(Erase::All) } else { None })
    } else if stack[i] < 0 || !layer_editable(v, i) {
        erase_from_top(v, stack, all, i - 1)
    } else if i == 0 && stack[0] == v.background_tile {
        (stack, None)
    } else if !all {
        (stack.update(i, bg(v, i)), Some(Erase::Any))
    } else {
        erase_from_top(v, stack.update(i, bg(v, i)), all, i - 1)
    }
}

/// The layer an erase works on alone: the soloed layer, else the selected one;
/// negative when all layers are in play.
pub open spec fn erase_layer(v: TilemapView) -> int {
    if v.solo_layer >= 0 {
        v.solo_layer as int
    } else {
        v.cur_layer as int
    }
}

/// The cell stack after an erase and what kind of erase happened (`None` when
/// nothing was erased, or when `allow` is `None`).
pub open spec fn spec_erase(v: TilemapView, stack: Seq<i16>, allow: Option<Erase>) -> (Seq<i16>, Option<Erase>) {
    let ti = erase_tile(v);
    let li = erase_layer(v);
    if allow is None {
        (stack, None)
    } else if li >= 0 {
        let b = bg(v, li);
        if v.solo_layer < 0 && (v.layers[li].hidden || v.layers[li].locked != Lock::Unlocked) {
            (stack, None)
        } else if stack[li] == b {
            (stack, None)
        } else if ti is Some && stack[li] == ti->0.id && (li != 0 || ti->0.id != v.background_tile) {
            (stack.update(li, b), Some(Erase::Brushonly))
        } else if allow == Some(Erase::Any) {
            (stack.update(li, b), Some(Erase::Any))
        } else {
            (stack, None)
        }
    } else {
        let top = if ti is Some && allow != Some(Erase::All) {
            top_brush_layer(v, stack, ti->0.id, v.num_layers - 1)
        } else {
            -1
        };
        if top >= 0 {
            if top == 0 && stack[0] == v.background_tile {
                (stack, None)
            } else {
                (stack.update(top, bg(v, top)), Some(Erase::Brushonly))
            }
        } else if allow != Some(Erase::Any) && allow != Some(Erase::All) {
            (stack, None)
        } else {
            erase_from_top(v, stack, allow == Some(Erase::All), v.num_layers - 1)
        }
    }
}

/// Cell stacks of map cells lie inside the tile storage.
pub proof fn lemma_slot_bounds(x: int, y: int)
    requires
        0 <= x < MAX_TILEMAP_X,
        0 <= y < MAX_TILEMAP_Y,
    ensures
        0 <= slot(x, y, 0),
        slot(x, y, 0) + MAX_LAYERS <= CELLS * MAX_LAYERS,
        0 <= cell(x, y) < CELLS,
{
    assert(0 <= y * 200 + x <= 39999) by (nonlinear_arith)
        requires
            0 <= x < 200,
            0 <= y < 200,
    ;
}

proof fn lemma_brush_layer_range(v: TilemapView, stack: Seq<i16>, i: int)
    requires
        0 <= i,
    ensures
        brush_layer(v, stack, i) == -1 || (i <= brush_layer(v, stack, i) < v.num_layers),
    decreases v.num_layers - i,
{
    if i < v.num_layers && !brush_allowed(v, stack, i) {
        lemma_brush_layer_range(v, stack, i + 1);
    }
}

proof fn lemma_top_brush_layer_range(v: TilemapView, stack: Seq<i16>, id: i16, i: int)
    ensures
        -1 <= top_brush_layer(v, stack, id, i) <= i || (i < -1 && top_brush_layer(v, stack, id, i) == -1),
    decreases i + 1,
{
    if i >= 0 && !(stack[i] == id && layer_editable(v, i)) {
        lemma_top_brush_layer_range(v, stack, id, i - 1);
    }
}

proof fn lemma_top_brush_layer_found(v: TilemapView, stack: Seq<i16>, id: i16, i: int)
    ensures
        top_brush_layer(v, stack, id, i) >= 0 ==> stack[top_brush_layer(v, stack, id, i)] == id,
    decreases i + 1,
{
    if i >= 0 && !(stack[i] == id && layer_editable(v, i)) {
        lemma_top_brush_layer_found(v, stack, id, i - 1);
    }
}

proof fn lemma_erase_from_top_len(v: TilemapView, stack: Seq<i16>, all: bool, i: int)
    requires
        i < stack.len(),
    ensures
        erase_from_top(v, stack, all, i).0.len() == stack.len(),
    decreases i + 1,
{
    if i >= 0 {
        lemma_erase_from_top_len(v, stack, all, i - 1);
        lemma_erase_from_top_len(v, stack.update(i, bg(v, i)), all, i - 1);
    }
}

/// Brushing and erasing keep a cell stack's length.
pub proof fn lemma_predictions_keep_length(v: TilemapView, stack: Seq<i16>, allow: Option<Erase>)
    requires
        v.wf(),
        stack.len() == MAX_LAYERS,
    ensures
        spec_brush(v, stack).len() == MAX_LAYERS,
        spec_erase(v, stack, allow).0.len() == MAX_LAYERS,
{
    lemma_brush_layer_range(v, stack, 0);
    if erase_tile(v) is Some {
        lemma_top_brush_layer_range(v, stack, erase_tile(v)->0.id, v.num_layers - 1);
    }
    lemma_erase_from_top_len(v, stack, allow == Some(Erase::All), v.num_layers - 1);
}

proof fn lemma_brush_layer_skip(v: TilemapView, stack: Seq<i16>, k: int, i: int)
    requires
        0 <= k <= i,
        forall|j: int| k <= j < i ==> !brush_allowed(v, stack, j),
    ensures
        brush_layer(v, stack, k) == brush_layer(v, stack, i) || (i > v.num_layers && brush_layer(v, stack, k) == -1),
    decreases i - k,
{
    if k < i {
        lemma_brush_layer_skip(v, stack, k + 1, i);
    }
}

proof fn lemma_top_brush_layer_skip(v: TilemapView, stack: Seq<i16>, id: i16, k: int, i: int)
    requires
        -1 <= i <= k,
        forall|j: int| i < j <= k ==> !(stack[j] == id && layer_editable(v, j)),
    ensures
        top_brush_layer(v, stack, id, k) == top_brush_layer(v, stack, id, i),
    decreases k - i,
{
    if i < k {
        lemma_top_brush_layer_skip(v, stack, id, k - 1, i);
    }
}

impl Tilemap {
    /// Puts the selected tile on the cell stack `result` (a stack of
    /// `MAX_LAYERS` ids) as `brush` would.
    pub fn brush_predict(&self, result: &mut Vec<TileData>)
        requires
            self@.wf(),
            old(result)@.len() == MAX_LAYERS,
            self@.cur_tile >= 0 ==> self@.cur_tile < self@.tiles.len(),
        ensures
            final(result)@ == spec_brush(self@, old(result)@),
    {
        if self.cur_tile < 0 {
            return;
        }
        let ti = &self.tiles[self.cur_tile as usize];
        let ghost stack = result@;
        let mut i: isize = 0;
        while i < self.num_layers
            invariant
                self@.wf(),
                0 <= self@.cur_tile < self@.tiles.len(),
                ti.id == cur_tile_info(self@).id,
                ti.layermask == cur_tile_info(self@).layermask,
                result@ == stack,
                stack == old(result)@,
                stack.len() == MAX_LAYERS,
                0 <= i <= self@.num_layers,
                forall|j: int| 0 <= j < i ==> !brush_allowed(self@, stack, j),
            decreases self@.num_layers - i,
        {
            let iu: usize = i as usize;
            proof {
                lemma_brush_layer_skip(self@, stack, 0, i as int);
            }
            if ti.layermask & (1u32 << (i as u32)) == 0 {
                i += 1;
                continue;
            }
            if i != self.solo_layer {
                if self.cur_layer >= 0 && i != self.cur_layer {
                    i += 1;
                    continue;
                }
                if self.layerinfo[iu].hidden {
                    i += 1;
                    continue;
                }
                if self.layerinfo[iu].locked == Lock::Locked {
                    i += 1;
                    continue;
                }
                let b: i16 = if iu == 0 { self.background_tile } else { NO_TILE };
                if self.layerinfo[iu].locked == Lock::Protected && result[iu] != b {
                    i += 1;
                    continue;
                }
            }
            proof {
                assert(brush_allowed(self@, stack, i as int));
                assert(brush_layer(self@, stack, i as int) == i);
                assert(brush_layer(self@, stack, 0) == i);
            }
            result.set(iu, ti.id);
            assert(result@ == stack.update(i as int, cur_tile_info(self@).id));
            assert(result@ == spec_brush(self@, stack));
            return;
        }
        proof {
            lemma_brush_layer_skip(self@, stack, 0, i as int);
        }
    }

    /// Brushes the selected tile onto cell `(x, y)`.
    pub fn brush(&mut self, x: usize, y: usize)
        requires
            old(self)@.wf(),
            x < MAX_TILEMAP_X,
            y < MAX_TILEMAP_Y,
            old(self)@.cur_tile >= 0 ==> old(self)@.cur_tile < old(self)@.tiles.len(),
        ensures
            final(self)@.wf(),
            final(self)@ == (TilemapView { data: final(self)@.data, ..old(self)@ }),
            final(self)@.data.len() == old(self)@.data.len(),
            final(self)@.stack(x as int, y as int) == spec_brush(old(self)@, old(self)@.stack(x as int, y as int)),
            forall|k: int|
                0 <= k < old(self)@.data.len() && !(slot(x as int, y as int, 0) <= k < slot(x as int, y as int, 0)
                    + MAX_LAYERS) ==> #[trigger] final(self)@.data[k] == old(self)@.data[k],
    {
        proof {
            lemma_slot_bounds(x as int, y as int);
        }
        let mut stack = self.tile(x, y);
        proof {
            lemma_predictions_keep_length(self@, stack@, None);
        }
        self.brush_predict(&mut stack);
        self.store_stack(x, y, &stack);
    }

    /// Writes the cell stack `stack` into cell `(x, y)`.
    fn store_stack(&mut self, x: usize, y: usize, stack: &Vec<TileData>)
        requires
            old(self)@.wf(),
            x < MAX_TILEMAP_X,
            y < MAX_TILEMAP_Y,
            stack@.len() == MAX_LAYERS,
        ensures
            final(self)@.wf(),
            final(self)@ == (TilemapView { data: final(self)@.data, ..old(self)@ }),
            final(self)@.data.len() == old(self)@.data.len(),
            final(self)@.stack(x as int, y as int) == stack@,
            forall|k: int|
                0 <= k < old(self)@.data.len() && !(slot(x as int, y as int, 0) <= k < slot(x as int, y as int, 0)
                    + MAX_LAYERS) ==> #[trigger] final(self)@.data[k] == old(self)@.data[k],
    {
        proof {
            lemma_slot_bounds(x as int, y as int);
        }
        let base: usize = (y * MAX_TILEMAP_X + x) * MAX_LAYERS;
        let mut l: usize = 0;
        while l < MAX_LAYERS
            invariant
                self@.wf(),
                base + MAX_LAYERS <= self@.data.len(),
                old(self)@.wf(),
                self@ == (TilemapView { data: self@.data, ..old(self)@ }),
                self@.data.len() == old(self)@.data.len(),
                base == slot(x as int, y as int, 0),
                stack@.len() == MAX_LAYERS,
                l <= MAX_LAYERS,
                forall|j: int| 0 <= j < l ==> #[trigger] self@.data[base + j] == stack@[j],
                forall|k: int|
                    0 <= k < old(self)@.data.len() && !(base <= k < base + l) ==> #[trigger] self@.data[k] == old(
                        self,
                    )@.data[k],
            decreases MAX_LAYERS - l,
        {
            self.data.set(base + l, stack[l]);
            l += 1;
        }
        assert forall|j: int| 0 <= j < MAX_LAYERS implies #[trigger] self@.stack(x as int, y as int)[j] == stack@[j] by {
            assert(self@.data[base + j] == stack@[j]);
        }
        assert(self@.stack(x as int, y as int) =~= stack@);
    }

    /// Erases from the cell stack `result` (a stack of `MAX_LAYERS` ids) as
    /// `erase` would, and tells what kind of erase happened.
    pub fn erase_predict(&self, result: &mut Vec<TileData>, allow_any: Option<Erase>) -> (e: Option<Erase>)
        requires
            self@.wf(),
            old(result)@.len() == MAX_LAYERS,
            self@.cur_tile < self@.tiles.len(),
        ensures
            (final(result)@, e) == spec_erase(self@, old(result)@, allow_any),
    {
        let ghost stack = result@;
        let ti: Option<&TileInfo> = if self.cur_tile >= 0 {
            Some(&self.tiles[self.cur_tile as usize])
        } else {
            None
        };
        if allow_any.is_none() {
            return None;
        }
        let mut li = self.cur_layer;
        if self.solo_layer >= 0 {
            li = self.solo_layer;
        }
        if li >= 0 {
            let i: usize = li as usize;
            let b: i16 = if i == 0 { self.background_tile } else { -1 };
            if self.solo_layer < 0 {
                if self.layerinfo[i].hidden {
                    return None;
                }
                if self.layerinfo[i].locked != Lock::Unlocked {
                    return None;
                }
            }
            if result[i] == b {
                return None;
            }
            if let Some(ti) = ti {
                if result[i] == ti.id && (i != 0 || ti.id != self.background_tile) {
                    result.set(i, b);
                    return Some(Erase::Brushonly);
                }
            }
            if allow_any == Some(Erase::Any) {
                result.set(i, b);
                return allow_any;
            }
            return None;
        }
        if let Some(ti) = ti {
            if allow_any != Some(Erase::All) {
                let mut i: isize = self.num_layers - 1;
                while i >= 0
                    invariant
                        self@.wf(),
                        result@ == stack,
                        stack == old(result)@,
                        stack.len() == MAX_LAYERS,
                        -1 <= i < self@.num_layers,
                        0 <= self@.cur_tile < self@.tiles.len(),
                        ti.id == self@.tiles[self@.cur_tile as int].id,
                        allow_any is Some,
                        allow_any != Some(Erase::All),
                        erase_layer(self@) < 0,
                        top_brush_layer(self@, stack, ti.id, self@.num_layers - 1) == top_brush_layer(
                            self@,
                            stack,
                            ti.id,
                            i as int,
                        ),
                    decreases i + 1,
                {
                    let iu: usize = i as usize;
                    if result[iu] != ti.id {
                        i -= 1;
                        continue;
                    }
                    if self.layerinfo[iu].locked != Lock::Unlocked || self.layerinfo[iu].hidden {
                        i -= 1;
                        continue;
                    }
                    assert(top_brush_layer(self@, stack, ti.id, i as int) == i);
                    if iu == 0 && result[iu] == self.background_tile {
                        return None;
                    }
                    let b: i16 = if iu == 0 { self.background_tile } else { NO_TILE };
                    result.set(iu, b);
                    return Some(Erase::Brushonly);
                }
                assert(top_brush_layer(self@, stack, ti.id, self@.num_layers - 1) == -1);
            }
        }
        if allow_any != Some(Erase::Any) && allow_any != Some(Erase::All) {
            return None;
        }
        let all = allow_any == Some(Erase::All);
        assert(spec_erase(self@, stack, allow_any) == erase_from_top(self@, stack, all, self@.num_layers - 1));
        let mut i: isize = self.num_layers - 1;
        while i >= 0
            invariant
                self@.wf(),
                result@.len() == MAX_LAYERS,
                stack == old(result)@,
                -1 <= i < self@.num_layers,
                all == (allow_any == Some(Erase::All)),
                allow_any == Some(Erase::Any) || allow_any == Some(Erase::All),
                spec_erase(self@, stack, allow_any) == erase_from_top(self@, stack, all, self@.num_layers - 1),
                erase_from_top(self@, stack, all, self@.num_layers - 1) == erase_from_top(
                    self@,
                    result@,
                    all,
                    i as int,
                ),
            decreases i + 1,
        {
            let iu: usize = i as usize;
            if result[iu] < 0 {
                i -= 1;
                continue;
            }
            if self.layerinfo[iu].locked != Lock::Unlocked || self.layerinfo[iu].hidden {
                i -= 1;
                continue;
            }
            if iu == 0 && result[iu] == self.background_tile {
                return None;
            }
            let b: i16 = if iu == 0 { self.background_tile } else { NO_TILE };
            result.set(iu, b);
            if !all {
                return Some(Erase::Any);
            }
            i -= 1;
        }
        if all {
            allow_any
        } else {
            None
        }
    }

    /// Erases from cell `(x, y)` as allowed by `allow_any`, and tells what kind
    /// of erase happened.
    pub fn erase(&mut self, x: usize, y: usize, allow_any: Option<Erase>) -> (e: Option<Erase>)
        requires
            old(self)@.wf(),
            x < MAX_TILEMAP_X,
            y < MAX_TILEMAP_Y,
            old(self)@.cur_tile < old(self)@.tiles.len(),
        ensures
            final(self)@.wf(),
            final(self)@ == (TilemapView { data: final(self)@.data, ..old(self)@ }),
            final(self)@.data.len() == old(self)@.data.len(),
            (final(self)@.stack(x as int, y as int), e) == spec_erase(
                old(self)@,
                old(self)@.stack(x as int, y as int),
                allow_any,
            ),
            forall|k: int|
                0 <= k < old(self)@.data.len() && !(slot(x as int, y as int, 0) <= k < slot(x as int, y as int, 0)
                    + MAX_LAYERS) ==> #[trigger] final(self)@.data[k] == old(self)@.data[k],
    {
        proof {
            lemma_slot_bounds(x as int, y as int);
        }
        let mut stack = self.tile(x, y);
        proof {
            lemma_predictions_keep_length(self@, stack@, allow_any);
        }
        let e = self.erase_predict(&mut stack, allow_any);
        self.store_stack(x, y, &stack);
        e
    }
}


proof fn lemma_brush_layer_first(v: TilemapView, stack: Seq<i16>, s: int, k: int)
    requires
        0 <= s <= k < v.num_layers,
        brush_allowed(v, stack, k),
    ensures
        s <= brush_layer(v, stack, s) <= k,
        brush_allowed(v, stack, brush_layer(v, stack, s)),
        forall|j: int| s <= j < brush_layer(v, stack, s) ==> !brush_allowed(v, stack, j),
    decreases k - s,
{
    if !brush_allowed(v, stack, s) {
        lemma_brush_layer_first(v, stack, s + 1, k);
    }
}

/// Brushing with a palette tile selected puts it on the lowest layer that
/// may take it, whether a layer is selected or not, and changes nothing else
/// in the cell. With no layer selected and none soloed, that is the lowest
/// visible layer, allowed for the tile, neither locked nor a protected layer
/// already holding a tile.
pub proof fn lemma_brush_paints_lowest_layer(v: TilemapView, stack: Seq<i16>, k: int)
    requires
        0 <= v.cur_tile < v.tiles.len(),
        0 <= k < v.num_layers,
        brush_allowed(v, stack, k),
    ensures
        ({
            let i = brush_layer(v, stack, 0);
            &&& 0 <= i <= k
            &&& brush_allowed(v, stack, i)
            &&& forall|j: int| 0 <= j < i ==> !brush_allowed(v, stack, j)
            &&& spec_brush(v, stack) == stack.update(i, cur_tile_info(v).id)
        }),
        v.cur_layer < 0 && v.solo_layer < 0 ==> forall|j: int|
            #![trigger brush_allowed(v, stack, j)]
            0 <= j < v.num_layers ==> (brush_allowed(v, stack, j) <==> (layer_allowed(
                cur_tile_info(v).layermask,
                j,
            ) && !v.layers[j].hidden && v.layers[j].locked != Lock::Locked && !(v.layers[j].locked
                == Lock::Protected && stack[j] != bg(v, j)))),
{
    lemma_brush_layer_first(v, stack, 0, k);
}

/// On a visible, unlocked, selected layer (no layer soloed) that holds its
/// background, brushing a tile allowed there and then erasing the brush tile
/// gives back the cell as it was.
pub proof fn lemma_brush_then_erase_restores(v: TilemapView, stack: Seq<i16>)
    requires
        v.wf(),
        stack.len() == MAX_LAYERS,
        v.cur_layer >= 0,
        v.solo_layer < 0,
        0 <= v.cur_tile < v.tiles.len(),
        layer_allowed(cur_tile_info(v).layermask, v.cur_layer as int),
        layer_editable(v, v.cur_layer as int),
        stack[v.cur_layer as int] == bg(v, v.cur_layer as int),
    ensures
        spec_erase(v, spec_brush(v, stack), Some(Erase::Brushonly)).0 == stack,
{
    let l = v.cur_layer as int;
    assert(brush_allowed(v, stack, l));
    lemma_brush_layer_skip(v, stack, 0, l);
    assert(brush_layer(v, stack, l) == l);
    let s2 = stack.update(l, cur_tile_info(v).id);
    assert(spec_brush(v, stack) == s2);
    if cur_tile_info(v).id == bg(v, l) {
        assert(s2 =~= stack);
    } else {
        assert(s2.update(l, bg(v, l)) =~= stack);
    }
}

proof fn lemma_erase_all_clears(v: TilemapView, stack: Seq<i16>, i: int)
    requires
        v.wf(),
        stack.len() == MAX_LAYERS,
        i < v.num_layers,
    ensures
        erase_from_top(v, stack, true, i).0.len() == MAX_LAYERS,
        forall|j: int|
            1 <= j <= i && layer_editable(v, j) ==> #[trigger] erase_from_top(v, stack, true, i).0[j] < 0,
        forall|j: int| i < j < MAX_LAYERS ==> #[trigger] erase_from_top(v, stack, true, i).0[j] == stack[j],
    decreases i + 1,
{
    lemma_erase_from_top_len(v, stack, true, i);
    if i >= 0 {
        lemma_erase_all_clears(v, stack, i - 1);
        lemma_erase_all_clears(v, stack.update(i, bg(v, i)), i - 1);
    }
}

/// Erasing everything from a cell while every layer is in play leaves no
/// tile on any visible, unlocked layer above the bottom one; layers beyond the
/// map's layers are not touched.
pub proof fn lemma_erase_all_empties_layers(v: TilemapView, stack: Seq<i16>)
    requires
        v.wf(),
        stack.len() == MAX_LAYERS,
        v.cur_layer < 0,
        v.solo_layer < 0,
    ensures
        forall|j: int|
            1 <= j < v.num_layers && layer_editable(v, j) ==> #[trigger] spec_erase(
                v,
                stack,
                Some(Erase::All),
            ).0[j] < 0,
        forall|j: int|
            v.num_layers <= j < MAX_LAYERS ==> #[trigger] spec_erase(v, stack, Some(Erase::All)).0[j] == stack[j],
{
    lemma_erase_all_clears(v, stack, v.num_layers - 1);
}

proof fn lemma_erase_first_only(v: TilemapView, stack: Seq<i16>, i: int)
    requires
        v.wf(),
        stack.len() == MAX_LAYERS,
        i < v.num_layers,
    ensures
        ({
            let (s2, e) = erase_from_top(v, stack, false, i);
            ||| (e is None && s2 == stack)
            ||| (e is Some && exists|k: int|
                0 <= k <= i && stack[k] != bg(v, k) && s2 == stack.update(k, bg(v, k)))
        }),
    decreases i + 1,
{
    if i >= 0 {
        if stack[i] < 0 || !layer_editable(v, i) {
            lemma_erase_first_only(v, stack, i - 1);
        } else if i == 0 && stack[0] == v.background_tile {
        } else {
            assert(stack[i] != bg(v, i));
        }
    }
}

/// An erase clears at most one layer of a cell, to that layer's background,
/// and says that it erased exactly when the cell changed. The one erase that
/// clears more is erasing everything while every layer is in play.
pub proof fn lemma_erase_clears_at_most_one_layer(v: TilemapView, stack: Seq<i16>, allow: Option<Erase>)
    requires
        v.wf(),
        stack.len() == MAX_LAYERS,
        !(erase_layer(v) < 0 && allow == Some(Erase::All)),
        erase_tile(v) is Some ==> erase_tile(v)->0.id != NO_TILE,
    ensures
        ({
            let (s2, e) = spec_erase(v, stack, allow);
            &&& (e is None <==> s2 == stack)
            &&& e is Some ==> exists|i: int|
                0 <= i < v.num_layers && stack[i] != bg(v, i) && s2 == stack.update(i, bg(v, i))
        }),
{
    let ti = erase_tile(v);
    let li = erase_layer(v);
    let (s2, e) = spec_erase(v, stack, allow);
    if allow is None {
    } else if li >= 0 {
        if e is Some {
            assert(stack[li] != bg(v, li));
            assert(s2 == stack.update(li, bg(v, li)));
            assert(s2[li] != stack[li]);
        }
    } else {
        let top = if ti is Some && allow != Some(Erase::All) {
            top_brush_layer(v, stack, ti->0.id, v.num_layers - 1)
        } else {
            -1
        };
        if ti is Some {
            lemma_top_brush_layer_range(v, stack, ti->0.id, v.num_layers - 1);
        }
        if top >= 0 {
            lemma_top_brush_layer_found(v, stack, ti->0.id, v.num_layers - 1);
            if !(top == 0 && stack[0] == v.background_tile) {
                assert(stack[top] != bg(v, top));
                assert(s2[top] != stack[top]);
            }
        } else if allow != Some(Erase::Any) && allow != Some(Erase::All) {
        } else {
            lemma_erase_first_only(v, stack, v.num_layers - 1);
            if e is Some {
                let k = choose|k: int|
                    0 <= k <= v.num_layers - 1 && stack[k] != bg(v, k) && s2 == stack.update(k, bg(v, k));
                assert(s2[k] != stack[k]);
            }
        }
    }
}

proof fn lemma_brush_layer_allowed(v: TilemapView, stack: Seq<i16>, i: int)
    requires
        0 <= i,
    ensures
        brush_layer(v, stack, i) >= 0 ==> brush_allowed(v, stack, brush_layer(v, stack, i)),
    decreases v.num_layers - i,
{
    if i < v.num_layers && !brush_allowed(v, stack, i) {
        lemma_brush_layer_allowed(v, stack, i + 1);
    }
}

/// Brushing changes at most one layer of a cell, and only to the selected
/// palette tile. The layer it changes is one the tile is allowed on, and
/// either the soloed layer, or the selected layer (any layer when none is
/// selected) that is visible, not locked, and not a protected layer already
/// holding a tile other than its background.
pub proof fn lemma_brush_changes_only_a_legit_layer(v: TilemapView, stack: Seq<i16>, i: int)
    requires
        v.wf(),
        stack.len() == MAX_LAYERS,
        v.cur_tile < v.tiles.len(),
        0 <= i < MAX_LAYERS,
        spec_brush(v, stack)[i] != stack[i],
    ensures
        0 <= v.cur_tile,
        i < v.num_layers,
        spec_brush(v, stack)[i] == v.tiles[v.cur_tile as int].id,
        v.tiles[v.cur_tile as int].layermask & (1u32 << (i as u32)) != 0,
        i == v.solo_layer || ((v.cur_layer < 0 || i == v.cur_layer) && !v.layers[i].hidden
            && v.layers[i].locked != Lock::Locked && !(v.layers[i].locked == Lock::Protected && stack[i] != (
        if i == 0 {
            v.background_tile
        } else {
            -1i16
        }))),
        forall|j: int| 0 <= j < MAX_LAYERS && j != i ==> #[trigger] spec_brush(v, stack)[j] == stack[j],
{
    lemma_brush_layer_range(v, stack, 0);
    lemma_brush_layer_allowed(v, stack, 0);
}

/// Brushing never changes a protected layer that holds a tile other than its
/// background, unless that layer is soloed, whether or not a layer is
/// selected.
pub proof fn lemma_brush_keeps_protected_tiles(v: TilemapView, stack: Seq<i16>, i: int)
    requires
        v.wf(),
        stack.len() == MAX_LAYERS,
        v.cur_tile < v.tiles.len(),
        0 <= i < MAX_LAYERS,
        v.layers[i].locked == Lock::Protected,
        stack[i] != (if i == 0 {
            v.background_tile
        } else {
            -1i16
        }),
        i != v.solo_layer,
    ensures
        spec_brush(v, stack)[i] == stack[i],
{
    if spec_brush(v, stack)[i] != stack[i] {
        lemma_brush_changes_only_a_legit_layer(v, stack, i);
    }
}

/// With a layer selected and none soloed, brushing a palette tile that is
/// allowed on the selected layer puts it there when that layer is visible,
/// not locked, and not a protected layer holding a tile other than its
/// background; nothing else in the cell changes.
pub proof fn lemma_brush_paints_selected_layer(v: TilemapView, stack: Seq<i16>)
    requires
        v.wf(),
        stack.len() == MAX_LAYERS,
        0 <= v.cur_tile < v.tiles.len(),
        v.cur_layer >= 0,
        v.solo_layer < 0,
        v.tiles[v.cur_tile as int].layermask & (1u32 << (v.cur_layer as u32)) != 0,
        !v.layers[v.cur_layer as int].hidden,
        v.layers[v.cur_layer as int].locked != Lock::Locked,
        !(v.layers[v.cur_layer as int].locked == Lock::Protected && stack[v.cur_layer as int] != (
        if v.cur_layer == 0 {
            v.background_tile
        } else {
            -1i16
        })),
    ensures
        spec_brush(v, stack) == stack.update(v.cur_layer as int, v.tiles[v.cur_tile as int].id),
{
    let l = v.cur_layer as int;
    assert(brush_allowed(v, stack, l));
    lemma_brush_layer_first(v, stack, 0, l);
}

/// What an erase does when one layer is in play (a layer soloed, or else one
/// selected). Nothing happens without leave to erase, on a selected layer
/// that is hidden or not unlocked (unless it is soloed), or when the layer
/// already holds its background. Otherwise the layer is set to its
/// background: as a brush-only erase when it holds the selected palette tile,
/// as an erase of any tile when it holds another tile and any tile may go;
/// with only the brush tile allowed to go, another tile stays.
pub proof fn lemma_erase_single_layer(v: TilemapView, stack: Seq<i16>, allow: Option<Erase>)
    requires
        v.wf(),
        stack.len() == MAX_LAYERS,
        v.cur_tile < v.tiles.len(),
        v.solo_layer >= 0 || v.cur_layer >= 0,
    ensures
        ({
            let l = if v.solo_layer >= 0 { v.solo_layer as int } else { v.cur_layer as int };
            let b = if l == 0 { v.background_tile } else { -1i16 };
            let in_play = v.solo_layer >= 0 || (v.layers[l].locked == Lock::Unlocked && !v.layers[l].hidden);
            let brush_tile = v.cur_tile >= 0 && stack[l] == v.tiles[v.cur_tile as int].id;
            let r = spec_erase(v, stack, allow);
            &&& allow is None ==> r == (stack, None::<Erase>)
            &&& !in_play ==> r == (stack, None::<Erase>)
            &&& stack[l] == b ==> r == (stack, None::<Erase>)
            &&& (allow is Some && in_play && stack[l] != b && brush_tile) ==> r == (stack.update(l, b), Some(
                Erase::Brushonly,
            ))
            &&& (allow == Some(Erase::Any) && in_play && stack[l] != b && !brush_tile) ==> r == (stack.update(
                l,
                b,
            ), Some(Erase::Any))
            &&& (allow == Some(Erase::Brushonly) && !brush_tile) ==> r == (stack, None::<Erase>)
        }),
{
}

proof fn lemma_top_brush_at(v: TilemapView, stack: Seq<i16>, id: i16, i: int, k: int)
    requires
        0 <= k <= i,
        stack[k] == id && layer_editable(v, k),
        forall|j: int| k < j <= i ==> !(stack[j] == id && #[trigger] layer_editable(v, j)),
    ensures
        top_brush_layer(v, stack, id, i) == k,
    decreases i,
{
    if i > k {
        lemma_top_brush_at(v, stack, id, i - 1, k);
    }
}

proof fn lemma_top_brush_none(v: TilemapView, stack: Seq<i16>, id: i16, i: int)
    requires
        forall|j: int| 0 <= j <= i ==> !(stack[j] == id && #[trigger] layer_editable(v, j)),
    ensures
        top_brush_layer(v, stack, id, i) == -1,
    decreases i + 1,
{
    if i >= 0 {
        lemma_top_brush_none(v, stack, id, i - 1);
    }
}

proof fn lemma_erase_first_at(v: TilemapView, stack: Seq<i16>, i: int, k: int)
    requires
        0 <= k <= i,
        stack[k] >= 0 && layer_editable(v, k),
        k > 0 || stack[0] != v.background_tile,
        forall|j: int| k < j <= i ==> stack[j] < 0 || !#[trigger] layer_editable(v, j),
    ensures
        erase_from_top(v, stack, false, i) == (stack.update(k, bg(v, k)), Some(Erase::Any)),
    decreases i,
{
    if i > k {
        lemma_erase_first_at(v, stack, i - 1, k);
    }
}

/// With every layer in play (none selected, none soloed), an erase first
/// looks for the brush tile: the highest visible, unlocked layer holding it is
/// set to its background as a brush-only erase (unless that is the bottom
/// layer holding the background tile). When no such layer holds it and any
/// tile may go, the highest visible, unlocked layer holding a tile is set to
/// its background instead (unless that is the bottom layer holding the
/// background tile).
pub proof fn lemma_erase_from_the_top(v: TilemapView, stack: Seq<i16>, allow: Option<Erase>, k: int)
    requires
        v.wf(),
        stack.len() == MAX_LAYERS,
        v.cur_tile < v.tiles.len(),
        v.cur_layer < 0,
        v.solo_layer < 0,
        allow == Some(Erase::Any) || allow == Some(Erase::Brushonly),
        0 <= k < v.num_layers,
        v.layers[k].locked == Lock::Unlocked && !v.layers[k].hidden,
    ensures
        ({
            let id = v.tiles[v.cur_tile as int].id;
            let b = if k == 0 { v.background_tile } else { -1i16 };
            let open = |j: int| v.layers[j].locked == Lock::Unlocked && !v.layers[j].hidden;
            &&& (v.cur_tile >= 0 && stack[k] == id && (k > 0 || id != v.background_tile) && (forall|j: int|
                k < j < v.num_layers ==> !(stack[j] == id && #[trigger] open(j)))) ==> spec_erase(v, stack, allow)
                == (stack.update(k, b), Some(Erase::Brushonly))
            &&& (allow == Some(Erase::Any) && (v.cur_tile < 0 || forall|j: int|
                0 <= j < v.num_layers ==> !(stack[j] == id && #[trigger] open(j))) && stack[k] >= 0 && (k > 0
                || stack[0] != v.background_tile) && (forall|j: int|
                k < j < v.num_layers ==> stack[j] < 0 || !#[trigger] open(j))) ==> spec_erase(v, stack, allow) == (
            stack.update(k, b), Some(Erase::Any))
        }),
{
    let id = v.tiles[v.cur_tile as int].id;
    let n = v.num_layers - 1;
    let open = |j: int| v.layers[j].locked == Lock::Unlocked && !v.layers[j].hidden;
    if v.cur_tile >= 0 && stack[k] == id && (k > 0 || id != v.background_tile) && (forall|j: int|
        k < j < v.num_layers ==> !(stack[j] == id && #[trigger] open(j))) {
        assert forall|j: int| k < j <= n implies !(stack[j] == id && #[trigger] layer_editable(v, j)) by {
            assert(!(stack[j] == id && open(j)));
        }
        lemma_top_brush_at(v, stack, id, n, k);
    }
    if allow == Some(Erase::Any) && (v.cur_tile < 0 || forall|j: int|
        0 <= j < v.num_layers ==> !(stack[j] == id && #[trigger] open(j))) && stack[k] >= 0 && (k > 0 || stack[0]
        != v.background_tile) && (forall|j: int| k < j < v.num_layers ==> stack[j] < 0 || !#[trigger] open(j)) {
        if v.cur_tile >= 0 {
            assert forall|j: int| 0 <= j <= n implies !(stack[j] == id && #[trigger] layer_editable(v, j)) by {
                assert(!(stack[j] == id && open(j)));
            }
            lemma_top_brush_none(v, stack, id, n);
        }
        assert forall|j: int| k < j <= n implies stack[j] < 0 || !#[trigger] layer_editable(v, j) by {
            assert(stack[j] < 0 || !open(j));
        }
        lemma_erase_first_at(v, stack, n, k);
    }
}

proof fn lemma_erase_all_from(v: TilemapView, stack: Seq<i16>, i: int)
    requires
        v.wf(),
        stack.len() == MAX_LAYERS,
        i < v.num_layers,
    ensures
        ({
            let r = erase_from_top(v, stack, true, i);
            &&& r.0.len() == MAX_LAYERS
            &&& forall|j: int| i < j < MAX_LAYERS ==> #[trigger] r.0[j] == stack[j]
            &&& forall|j: int|
                1 <= j <= i ==> #[trigger] r.0[j] == (if layer_editable(v, j) && stack[j] >= 0 {
                    -1i16
                } else {
                    stack[j]
                })
            &&& i >= 0 ==> r.0[0] == (if layer_editable(v, 0) && stack[0] >= 0 && stack[0] != v.background_tile {
                v.background_tile
            } else {
                stack[0]
            })
            &&& r.1 == (if i >= 0 && layer_editable(v, 0) && stack[0] >= 0 && stack[0] == v.background_tile {
                None
            } else {
                Some(Erase::All)
            })
        }),
    decreases i + 1,
{
    lemma_erase_from_top_len(v, stack, true, i);
    if i >= 0 {
        lemma_erase_all_from(v, stack, i - 1);
        lemma_erase_all_from(v, stack.update(i, bg(v, i)), i - 1);
    }
}

/// Erasing everything from a cell with every layer in play (none selected,
/// none soloed) sets each visible, unlocked layer holding a tile to its
/// background, from the top down, and leaves every other layer as it was;
/// when the bottom layer is visible, unlocked and holds the background tile,
/// the erase reports nothing, and otherwise it reports erasing everything.
pub proof fn lemma_erase_all_layers(v: TilemapView, stack: Seq<i16>)
    requires
        v.wf(),
        stack.len() == MAX_LAYERS,
        v.cur_tile < v.tiles.len(),
        v.cur_layer < 0,
        v.solo_layer < 0,
    ensures
        ({
            let r = spec_erase(v, stack, Some(Erase::All));
            let open = |j: int| v.layers[j].locked == Lock::Unlocked && !v.layers[j].hidden;
            &&& r.0.len() == MAX_LAYERS
            &&& forall|j: int| v.num_layers <= j < MAX_LAYERS ==> #[trigger] r.0[j] == stack[j]
            &&& forall|j: int|
                1 <= j < v.num_layers ==> #[trigger] r.0[j] == (if open(j) && stack[j] >= 0 {
                    -1i16
                } else {
                    stack[j]
                })
            &&& v.num_layers > 0 ==> r.0[0] == (if open(0) && stack[0] >= 0 && stack[0] != v.background_tile {
                v.background_tile
            } else {
                stack[0]
            })
            &&& r.1 == (if v.num_layers > 0 && open(0) && stack[0] >= 0 && stack[0] == v.background_tile {
                None
            } else {
                Some(Erase::All)
            })
        }),
{
    lemma_erase_all_from(v, stack, v.num_layers - 1);
}

/// Writing a tile id to a layer of a cell and reading the cell back gives that
/// id on that layer and every other layer as it was.
pub proof fn lemma_set_tile_then_tile(v: TilemapView, x: int, y: int, layer: int, t: i16)
    requires
        v.wf(),
        0 <= x < MAX_TILEMAP_X,
        0 <= y < MAX_TILEMAP_Y,
        0 <= layer < MAX_LAYERS,
    ensures
        ({
            let w = TilemapView { data: v.data.update(slot(x, y, layer), t), ..v };
            &&& w.stack(x, y)[layer] == t
            &&& forall|l: int| 0 <= l < MAX_LAYERS && l != layer ==> #[trigger] w.stack(x, y)[l] == v.stack(x, y)[l]
        }),
{
    lemma_slot_bounds(x, y);
}

/// Relinking a cell and then restoring its old link gives back the links as
/// they were, and with them the link counts as they were.
pub proof fn lemma_set_link_undo(v: TilemapView, src: int, l: Link)
    requires
        v.wf(),
        0 <= src < CELLS,
    ensures
        v.links.update(src, l).update(src, v.links[src]) == v.links,
        forall|d: int| 0 <= d < CELLS ==> refs(v.links.update(src, l).update(src, v.links[src]), d) == #[trigger] v.linkcount[d],
{
    assert(v.links.update(src, l).update(src, v.links[src]) =~= v.links);
}

/// After a link is set, the cell links to its new target, that target counts
/// one more reference and the old target one fewer.
pub proof fn lemma_set_link_counts(v: TilemapView, src: int, l: Link)
    requires
        v.wf(),
        0 <= src < CELLS,
        link_ok(l),
        target(v.links[src]) != target(l),
    ensures
        v.links.update(src, l)[src] == l,
        target(l) >= 0 ==> refs(v.links.update(src, l), target(l)) == v.linkcount[target(l)] + 1,
        target(v.links[src]) >= 0 ==> refs(v.links.update(src, l), target(v.links[src])) + 1
            == v.linkcount[target(v.links[src])],
{
    lemma_refs_update(v.links, src, l, target(l));
    lemma_refs_update(v.links, src, l, target(v.links[src]));
    assert(link_ok(v.links[src]));
    if l.x >= 0 {
        lemma_slot_bounds(l.x as int, l.y as int);
    }
    if v.links[src].x >= 0 {
        lemma_slot_bounds(v.links[src].x as int, v.links[src].y as int);
    }
}


impl Tilemap {
    /// Selects palette entry `tile` as the brush tile (negative: none).
    pub fn select_tile(&mut self, tile: isize)
        ensures
            final(self)@ == (TilemapView { cur_tile: tile, ..old(self)@ }),
    {
        self.cur_tile = tile;
    }

    /// Selects the layer edits go to; -1 lets edits reach every layer.
    pub fn select_layer(&mut self, layer: isize)
        requires
            old(self)@.wf(),
            -1 <= layer < old(self)@.num_layers,
        ensures
            final(self)@.wf(),
            final(self)@ == (TilemapView { cur_layer: layer, ..old(self)@ }),
    {
        self.cur_layer = layer;
    }

    /// Solos a layer: edits go to it whatever its lock and visibility; -1 ends soloing.
    pub fn set_solo_layer(&mut self, layer: isize)
        requires
            old(self)@.wf(),
            -1 <= layer < old(self)@.num_layers,
        ensures
            final(self)@.wf(),
            final(self)@ == (TilemapView { solo_layer: layer, ..old(self)@ }),
    {
        self.solo_layer = layer;
    }

    /// Sets how far layer `layer` is protected against edits.
    pub fn set_layer_lock(&mut self, layer: usize, locked: Lock)
        requires
            old(self)@.wf(),
            layer < MAX_LAYERS,
        ensures
            final(self)@.wf(),
            final(self)@ == (TilemapView {
                layers: old(self)@.layers.update(
                    layer as int,
                    LayerView { locked, ..old(self)@.layers[layer as int] },
                ),
                ..old(self)@
            }),
    {
        self.layerinfo[layer].locked = locked;
        assert(self@.layers =~= old(self)@.layers.update(
            layer as int,
            LayerView { locked, ..old(self)@.layers[layer as int] },
        ));
    }

    /// Hides or shows layer `layer`.
    pub fn set_layer_hidden(&mut self, layer: usize, hidden: bool)
        requires
            old(self)@.wf(),
            layer < MAX_LAYERS,
        ensures
            final(self)@.wf(),
            final(self)@ == (TilemapView {
                layers: old(self)@.layers.update(
                    layer as int,
                    LayerView { hidden, ..old(self)@.layers[layer as int] },
                ),
                ..old(self)@
            }),
    {
        self.layerinfo[layer].hidden = hidden;
        assert(self@.layers =~= old(self)@.layers.update(
            layer as int,
            LayerView { hidden, ..old(self)@.layers[layer as int] },
        ));
    }
}

} // verus!
