//! RPG-Maker style tile ids: which tile sheet an id comes from and how its
//! autotile kind and shape are packed into it.
use vstd::prelude::*;

verus! {

/// Quotient of integer division rounded toward zero, as Rust's `/` computes it.
pub open spec fn trunc_div(a: int, b: int) -> int {
    if a >= 0 { a / b } else { -((-a) / b) }
}

/// Remainder matching `trunc_div`, as Rust's `%` computes it.
pub open spec fn trunc_rem(a: int, b: int) -> int {
    a - b * trunc_div(a, b)
}

/// A tile id of an RPG-Maker tile map.
#[derive(Clone, Copy, PartialEq, Eq, Debug)]
pub struct TileId {
    pub id: i16,
}

/// The tile sheet an id belongs to.
#[derive(Clone, Copy, PartialEq, Eq, Debug)]
pub enum Source {
    A1,
    A2,
    A3,
    A4,
    A5,
    B,
    C,
    D,
    E,
}

pub const B: i16 = 0;
pub const C: i16 = 256;
pub const D: i16 = 512;
pub const E: i16 = 768;
pub const A5: i16 = 1536;
pub const A1: i16 = 2048;
pub const A2: i16 = 2816;
pub const A3: i16 = 4352;
pub const A4: i16 = 5888;
pub const MAX: i16 = 8192;

/// Number of shapes of one autotile kind.
pub const SHAPES: i16 = 48;

pub open spec fn in_range(id: i16, lo: i16, hi: i16) -> bool {
    lo <= id && id < hi
}

/// The autotile kind packed into `id`.
pub open spec fn spec_kind(id: i16) -> int {
    trunc_div(id - A1, SHAPES as int)
}

/// The autotile shape packed into `id`.
pub open spec fn spec_shape(id: i16) -> int {
    trunc_rem(id - A1, SHAPES as int)
}

pub open spec fn spec_source(id: i16) -> Option<Source> {
    if in_range(id, A1, A2) {
        Some(Source::A1)
    } else if in_range(id, A2, A3) {
        Some(Source::A2)
    } else if in_range(id, A3, A4) {
        Some(Source::A3)
    } else if in_range(id, A4, MAX) {
        Some(Source::A4)
    } else if in_range(id, A5, A1) {
        Some(Source::A5)
    } else if in_range(id, B, C) {
        Some(Source::B)
    } else if in_range(id, C, D) {
        Some(Source::C)
    } else if in_range(id, D, E) {
        Some(Source::D)
    } else if in_range(id, E, A5) {
        Some(Source::E)
    } else {
        None
    }
}

pub open spec fn spec_is_water(id: i16) -> bool {
    in_range(id, A1, A2) && !(A1 + 96 <= id && id < A1 + 192)
}

pub open spec fn spec_is_waterfall(id: i16) -> bool {
    A1 + 192 <= id && id < A2 && spec_kind(id) % 2 == 1
}

pub open spec fn spec_is_roof(id: i16) -> bool {
    in_range(id, A3, A4) && spec_kind(id) % 16 < 8
}

pub open spec fn spec_is_wall_top(id: i16) -> bool {
    in_range(id, A4, MAX) && spec_kind(id) % 16 < 8
}

pub open spec fn spec_is_wall_side(id: i16) -> bool {
    (in_range(id, A3, A4) || in_range(id, A4, MAX)) && spec_kind(id) % 16 >= 8
}

pub open spec fn spec_is_floor_type(id: i16) -> bool {
    (in_range(id, A1, A2) && !spec_is_waterfall(id)) || in_range(id, A2, A3) || spec_is_wall_top(id)
}

pub open spec fn spec_is_wall_type(id: i16) -> bool {
    spec_is_roof(id) || spec_is_wall_side(id)
}

/// `id - A1` does not leave the range of `i16`.
pub open spec fn kind_computable(id: i16) -> bool {
    id - A1 >= i16::MIN
}

impl TileId {
    pub fn is_visible(self) -> (b: bool)
        ensures
            b == (self.id > 0 && self.id < MAX),
    {
        self.id > 0 && self.id < MAX
    }

    pub fn is_autotile(self) -> (b: bool)
        ensures
            b == (self.id >= A1),
    {
        self.id >= A1
    }

    pub fn autotile_kind(self) -> (k: i16)
        requires
            kind_computable(self.id),
        ensures
            k == spec_kind(self.id),
    {
        (self.id - A1) / SHAPES
    }

    pub fn autotile_shape(self) -> (s: i16)
        requires
            kind_computable(self.id),
        ensures
            s == spec_shape(self.id),
    {
        (self.id - A1) % SHAPES
    }

    /// The autotile id of shape `shape` of autotile kind `kind`.
    pub fn make_autotile(kind: i16, shape: i16) -> (t: Self)
        requires
            i16::MIN <= kind * SHAPES <= i16::MAX,
            i16::MIN <= A1 + kind * SHAPES <= i16::MAX,
            i16::MIN <= A1 + kind * SHAPES + shape <= i16::MAX,
        ensures
            t.id == A1 + kind * SHAPES + shape,
    {
        Self { id: A1 + kind * SHAPES + shape }
    }

    /// Two autotiles are of the same kind when their kinds agree; other tiles when their ids do.
    pub fn is_same_kind(self, other: Self) -> (b: bool)
        ensures
            b == (if self.id >= A1 && other.id >= A1 {
                spec_kind(self.id) == spec_kind(other.id)
            } else {
                self.id == other.id
            }),
    {
        if self.is_autotile() && other.is_autotile() {
            self.autotile_kind() == other.autotile_kind()
        } else {
            self.id == other.id
        }
    }

    /// The tile sheet of this id, or `None` for ids outside every sheet.
    pub fn source(self) -> (s: Option<Source>)
        ensures
            s == spec_source(self.id),
    {
        let id = self.id;
        if id >= A1 && id < A2 {
            Some(Source::A1)
        } else if id >= A2 && id < A3 {
            Some(Source::A2)
        } else if id >= A3 && id < A4 {
            Some(Source::A3)
        } else if id >= A4 && id < MAX {
            Some(Source::A4)
        } else if id >= A5 && id < A1 {
            Some(Source::A5)
        } else if id >= B && id < C {
            Some(Source::B)
        } else if id >= C && id < D {
            Some(Source::C)
        } else if id >= D && id < E {
            Some(Source::D)
        } else if id >= E && id < A5 {
            Some(Source::E)
        } else {
            None
        }
    }

    pub fn is_a1(self) -> (b: bool)
        ensures
            b == in_range(self.id, A1, A2),
    {
        self.id >= A1 && self.id < A2
    }

    pub fn is_a2(self) -> (b: bool)
        ensures
            b == in_range(self.id, A2, A3),
    {
        self.id >= A2 && self.id < A3
    }

    pub fn is_a3(self) -> (b: bool)
        ensures
            b == in_range(self.id, A3, A4),
    {
        self.id >= A3 && self.id < A4
    }

    pub fn is_a4(self) -> (b: bool)
        ensures
            b == in_range(self.id, A4, MAX),
    {
        self.id >= A4 && self.id < MAX
    }

    pub fn is_a5(self) -> (b: bool)
        ensures
            b == in_range(self.id, A5, A1),
    {
        self.id >= A5 && self.id < A1
    }

    pub fn is_b(self) -> (b: bool)
        ensures
            b == in_range(self.id, B, C),
    {
        self.id >= B && self.id < C
    }

    pub fn is_c(self) -> (b: bool)
        ensures
            b == in_range(self.id, C, D),
    {
        self.id >= C && self.id < D
    }

    pub fn is_d(self) -> (b: bool)
        ensures
            b == in_range(self.id, D, E),
    {
        self.id >= D && self.id < E
    }

    pub fn is_e(self) -> (b: bool)
        ensures
            b == in_range(self.id, E, A5),
    {
        self.id >= E && self.id < A5
    }

    pub fn is_water(self) -> (b: bool)
        ensures
            b == spec_is_water(self.id),
    {
        self.is_a1() && !(self.id >= A1 + 96 && self.id < A1 + 192)
    }

    pub fn is_waterfall(self) -> (b: bool)
        ensures
            b == spec_is_waterfall(self.id),
    {
        (self.id >= A1 + 192 && self.id < A2) && self.autotile_kind() % 2 == 1
    }

    pub fn is_ground(self) -> (b: bool)
        ensures
            b == (in_range(self.id, A1, A2) || in_range(self.id, A2, A3) || in_range(self.id, A5, A1)),
    {
        self.is_a1() || self.is_a2() || self.is_a5()
    }

    pub fn is_shadowing(self) -> (b: bool)
        ensures
            b == (in_range(self.id, A3, A4) || in_range(self.id, A4, MAX)),
    {
        self.is_a3() || self.is_a4()
    }

    pub fn is_roof(self) -> (b: bool)
        ensures
            b == spec_is_roof(self.id),
    {
        self.is_a3() && self.autotile_kind() % 16 < 8
    }

    pub fn is_wall_top(self) -> (b: bool)
        ensures
            b == spec_is_wall_top(self.id),
    {
        self.is_a4() && self.autotile_kind() % 16 < 8
    }

    pub fn is_wall_side(self) -> (b: bool)
        ensures
            b == spec_is_wall_side(self.id),
    {
        (self.is_a3() || self.is_a4()) && self.autotile_kind() % 16 >= 8
    }

    pub fn is_wall(self) -> (b: bool)
        ensures
            b == (spec_is_wall_top(self.id) || spec_is_wall_side(self.id)),
    {
        self.is_wall_top() || self.is_wall_side()
    }

    pub fn is_floor_type_autotile(self) -> (b: bool)
        ensures
            b == spec_is_floor_type(self.id),
    {
        (self.is_a1() && !self.is_waterfall()) || self.is_a2() || self.is_wall_top()
    }

    pub fn is_wall_type_autotile(self) -> (b: bool)
        ensures
            b == spec_is_wall_type(self.id),
    {
        self.is_roof() || self.is_wall_side()
    }

    pub fn is_waterfall_type_autotile(self) -> (b: bool)
        ensures
            b == spec_is_waterfall(self.id),
    {
        self.is_waterfall()
    }
}

/// Packing a kind and a shape into an autotile id and reading them back gives
/// the same kind and shape.
pub proof fn lemma_make_autotile_round_trip(kind: int, shape: int)
    requires
        kind >= 0,
        0 <= shape < SHAPES,
        A1 + kind * SHAPES + shape <= i16::MAX,
    ensures
        spec_kind((A1 + kind * SHAPES + shape) as i16) == kind,
        spec_shape((A1 + kind * SHAPES + shape) as i16) == shape,
{
    let id = (A1 + kind * SHAPES + shape) as i16;
    assert(id - A1 == kind * 48 + shape);
    assert((kind * 48 + shape) / 48 == kind) by (nonlinear_arith)
        requires
            kind >= 0,
            0 <= shape < 48,
    ;
}

/// Every autotile id is its autotile base plus kind times the shape count plus
/// its shape, and its shape is one of the shapes of a kind.
pub proof fn lemma_autotile_decomposition(id: i16)
    requires
        id >= A1,
    ensures
        id == A1 + spec_kind(id) * SHAPES + spec_shape(id),
        0 <= spec_shape(id) < SHAPES,
        spec_kind(id) >= 0,
{
}

/// The ids from `0` up to `MAX` fall into exactly one tile sheet; all others into none.
pub proof fn lemma_sheets_partition(id: i16)
    ensures
        spec_source(id) is Some <==> (0 <= id && id < MAX),
        (in_range(id, A1, A2) as int) + (in_range(id, A2, A3) as int) + (in_range(id, A3, A4) as int)
            + (in_range(id, A4, MAX) as int) + (in_range(id, A5, A1) as int) + (in_range(id, B, C) as int)
            + (in_range(id, C, D) as int) + (in_range(id, D, E) as int) + (in_range(id, E, A5) as int)
            == (if 0 <= id && id < MAX { 1int } else { 0int }),
{
}

/// Every autotile of the A1 to A4 sheets is exactly one of a floor-type,
/// a wall-type or a waterfall-type autotile.
pub proof fn lemma_autotile_types_partition(id: i16)
    requires
        A1 <= id && id < MAX,
    ensures
        (spec_is_floor_type(id) as int) + (spec_is_wall_type(id) as int) + (spec_is_waterfall(id) as int) == 1,
{
}

/// Each id falls into the sheet whose id range holds it, and only those ids:
/// B for 0 to 255, C for 256 to 511, D for 512 to 767, E for 768 to 1535,
/// A5 for 1536 to 2047, A1 for 2048 to 2815, A2 for 2816 to 4351, A3 for
/// 4352 to 5887 and A4 for 5888 to 8191; any other id has no sheet.
pub proof fn lemma_source_ranges(id: i16)
    ensures
        spec_source(id) == Some(Source::B) <==> (0 <= id && id < 256),
        spec_source(id) == Some(Source::C) <==> (256 <= id && id < 512),
        spec_source(id) == Some(Source::D) <==> (512 <= id && id < 768),
        spec_source(id) == Some(Source::E) <==> (768 <= id && id < 1536),
        spec_source(id) == Some(Source::A5) <==> (1536 <= id && id < 2048),
        spec_source(id) == Some(Source::A1) <==> (2048 <= id && id < 2816),
        spec_source(id) == Some(Source::A2) <==> (2816 <= id && id < 4352),
        spec_source(id) == Some(Source::A3) <==> (4352 <= id && id < 5888),
        spec_source(id) == Some(Source::A4) <==> (5888 <= id && id < 8192),
        spec_source(id) is None <==> (id < 0 || id >= 8192),
{
}

/// An autotile id (2048 and up) packs its kind as the number of whole
/// 48-shape blocks above 2048 and its shape as what is left; below 2048 both
/// are the same counts taken below 2048, negated (division towards zero). Water is the A1
/// sheet but for ids 2144 to 2239; waterfalls are the A1 ids from 2240 up of
/// odd kind; roofs are the A3 ids, wall tops the A4 ids, whose kind modulo 16
/// is below 8; wall sides are the A3 and A4 ids whose kind modulo 16 is 8 or
/// more.
pub proof fn lemma_autotile_classes(id: i16)
    ensures
        id >= 2048 ==> spec_kind(id) == (id - 2048) / 48 && spec_shape(id) == (id - 2048) % 48,
        id < 2048 ==> spec_kind(id) == -((2048 - id) / 48) && spec_shape(id) == -((2048 - id) % 48),
        spec_is_water(id) <==> (2048 <= id && id < 2816 && !(2144 <= id && id < 2240)),
        spec_is_waterfall(id) <==> (2240 <= id && id < 2816 && ((id - 2048) / 48) % 2 == 1),
        spec_is_roof(id) <==> (4352 <= id && id < 5888 && ((id - 2048) / 48) % 16 < 8),
        spec_is_wall_top(id) <==> (5888 <= id && id < 8192 && ((id - 2048) / 48) % 16 < 8),
        spec_is_wall_side(id) <==> (4352 <= id && id < 8192 && ((id - 2048) / 48) % 16 >= 8),
{
}

} // verus!
