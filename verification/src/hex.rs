//! Hexagonal grid coordinates: cube, axial and staggered ("offset") forms.
use vstd::prelude::*;

pub mod stagger;

use self::stagger::{Axis, Index};
use vstd::std_specs::ops::{AddSpecImpl, SubSpecImpl};

verus! {

/// Accessors of the three cube coordinates of a hex position.
pub trait HexCoord {
    fn q(&self);
    fn r(&self);
    fn s(&self);
}

/// A position in cube coordinates.
#[derive(Copy, Clone, Debug, PartialEq, Eq)]
pub struct Cube {
    pub x: isize,
    pub y: isize,
    pub z: isize,
}

pub open spec fn abs(v: int) -> int {
    if v < 0 { -v } else { v }
}

/// The distance of a cube position from the origin, counted in hex steps.
pub open spec fn spec_length(q: int, r: int, s: int) -> int {
    (abs(q) + abs(r) + abs(s)) / 2
}

pub open spec fn fits_isize(v: int) -> bool {
    isize::MIN <= v <= isize::MAX
}

/// Number of hex steps from the origin to the cube position `(q, r, s)`.
pub fn length(q: isize, r: isize, s: isize) -> (res: isize)
    requires
        abs(q as int) + abs(r as int) + abs(s as int) <= isize::MAX,
    ensures
        res == spec_length(q as int, r as int, s as int),
{
    let aq: isize = if q < 0 { -q } else { q };
    let ar: isize = if r < 0 { -r } else { r };
    let as_: isize = if s < 0 { -s } else { s };
    (aq + ar + as_) / 2
}

/// A position in axial coordinates.
#[derive(Copy, Clone, Debug, PartialEq, Eq)]
pub struct Axial {
    pub q: isize,
    pub r: isize,
}

impl Axial {
    /// The cube position of this axial position; its coordinates sum to zero.
    pub fn to_cube(self) -> (c: Cube)
        requires
            self.q > isize::MIN,
            fits_isize(-self.q - self.r),
        ensures
            c.x == self.q,
            c.z == self.r,
            c.y == -self.q - self.r,
    {
        let x = self.q;
        let z = self.r;
        let y = -x - z;
        Cube { x, y, z }
    }
}

/// A hex position in cube coordinates.
#[derive(Copy, Clone, Debug, PartialEq, Eq)]
pub struct Hex {
    pub x: isize,
    pub y: isize,
    pub z: isize,
}

/// The shift of a staggered row or column `v`: half of `v`, rounded up for
/// even-shifted layouts and down for odd-shifted ones.
pub open spec fn half_shift(v: int, index: Index) -> int {
    match index {
        Index::Even => (v + v % 2) / 2,
        Index::Odd => (v - v % 2) / 2,
    }
}

/// The cube coordinates `(x, z)` of the staggered cell at `(col, row)`.
pub open spec fn spec_staggered_xz(col: int, row: int, index: Index, axis: Axis) -> (int, int) {
    match axis {
        Axis::Q => (col, row - half_shift(col, index)),
        Axis::R => (col - half_shift(row, index), row),
    }
}

/// The staggered cell `(col, row)` of the cube position with coordinates `x` and `z`.
pub open spec fn spec_to_staggered(x: int, z: int, index: Index, axis: Axis) -> (int, int) {
    match axis {
        Axis::Q => (x, z + half_shift(x, index)),
        Axis::R => (x + half_shift(z, index), z),
    }
}

/// The rounding step of `half_shift` does not overflow an `isize`.
pub open spec fn shift_fits(v: int, index: Index) -> bool {
    match index {
        Index::Even => fits_isize(v + v % 2),
        Index::Odd => fits_isize(v - v % 2),
    }
}

/// Converting the staggered cell `(col, row)` to cube coordinates stays within `isize`.
pub open spec fn staggered_fits(col: int, row: int, index: Index, axis: Axis) -> bool {
    let (x, z) = spec_staggered_xz(col, row, index, axis);
    &&& match axis {
        Axis::Q => shift_fits(col, index),
        Axis::R => shift_fits(row, index),
    }
    &&& fits_isize(x)
    &&& fits_isize(z)
    &&& x > isize::MIN
    &&& fits_isize(-x - z)
}

/// Converting the cube coordinates `x`, `z` to a staggered cell stays within `isize`.
pub open spec fn to_staggered_fits(x: int, z: int, index: Index, axis: Axis) -> bool {
    let (c, r) = spec_to_staggered(x, z, index, axis);
    &&& match axis {
        Axis::Q => shift_fits(x, index),
        Axis::R => shift_fits(z, index),
    }
    &&& fits_isize(c)
    &&& fits_isize(r)
}

fn parity(v: isize) -> (p: isize)
    ensures
        p == v % 2,
{
    let p = v & 1;
    assert(v & 1 == v % 2) by (bit_vector);
    p
}

fn shift_of(v: isize, index: Index) -> (res: isize)
    requires
        shift_fits(v as int, index),
    ensures
        res == half_shift(v as int, index),
{
    let p = parity(v);
    match index {
        Index::Even => {
            let w = v + p;
            assert(w % 2 == 0);
            w / 2
        },
        Index::Odd => {
            let w = v - p;
            assert(w % 2 == 0);
            w / 2
        },
    }
}

impl Hex {
    pub fn new(x: isize, y: isize, z: isize) -> (h: Self)
        ensures
            h == (Hex { x, y, z }),
    {
        Self { x, y, z }
    }

    /// The hex at column `col` and row `row` of a staggered layout.
    pub fn staggered(col: isize, row: isize, index: Index, axis: Axis) -> (h: Self)
        requires
            staggered_fits(col as int, row as int, index, axis),
        ensures
            (h.x as int, h.z as int) == spec_staggered_xz(col as int, row as int, index, axis),
            h.x + h.y + h.z == 0,
    {
        let (x, z) = match axis {
            Axis::Q => (col, row - shift_of(col, index)),
            Axis::R => (col - shift_of(row, index), row),
        };
        let y = -x - z;
        Self { x, y, z }
    }

    /// The column and row of this hex in a staggered layout.
    pub fn to_staggered(&self, index: Index, axis: Axis) -> (cr: (isize, isize))
        requires
            to_staggered_fits(self.x as int, self.z as int, index, axis),
        ensures
            (cr.0 as int, cr.1 as int) == spec_to_staggered(self.x as int, self.z as int, index, axis),
    {
        match axis {
            Axis::Q => (self.x, self.z + shift_of(self.x, index)),
            Axis::R => (self.x + shift_of(self.z, index), self.z),
        }
    }

    /// Rotates the hex by sixty degrees around the origin.
    pub fn rotate_left(&mut self)
        requires
            negatable(*old(self)),
        ensures
            *final(self) == spec_rotate_left(*old(self)),
    {
        let x = self.x;
        self.x = -self.y;
        self.y = -self.z;
        self.z = -x;
    }

    /// Mirrors the hex: `(x, y, z)` becomes `(-z, -y, -x)`.
    pub fn rotate_right(&mut self)
        requires
            negatable(*old(self)),
        ensures
            *final(self) == spec_rotate_right(*old(self)),
    {
        let x = self.x;
        self.x = -self.z;
        self.y = -self.y;
        self.z = -x;
    }
}

/// No coordinate of the hex is `isize::MIN`, so each can be negated.
pub open spec fn negatable(h: Hex) -> bool {
    h.x > isize::MIN && h.y > isize::MIN && h.z > isize::MIN
}

/// The hex after `rotate_left`.
pub open spec fn spec_rotate_left(h: Hex) -> Hex {
    Hex { x: (-h.y) as isize, y: (-h.z) as isize, z: (-h.x) as isize }
}

/// The hex after `rotate_right`.
pub open spec fn spec_rotate_right(h: Hex) -> Hex {
    Hex { x: (-h.z) as isize, y: (-h.y) as isize, z: (-h.x) as isize }
}

/// Converting a staggered cell to cube coordinates and back gives the same cell.
pub proof fn lemma_staggered_round_trip(col: int, row: int, index: Index, axis: Axis)
    ensures
        ({
            let (x, z) = spec_staggered_xz(col, row, index, axis);
            spec_to_staggered(x, z, index, axis) == (col, row)
        }),
{
}

/// Converting cube coordinates to a staggered cell and back gives the same coordinates.
pub proof fn lemma_to_staggered_round_trip(x: int, z: int, index: Index, axis: Axis)
    ensures
        ({
            let (c, r) = spec_to_staggered(x, z, index, axis);
            spec_staggered_xz(c, r, index, axis) == (x, z)
        }),
{
}

proof fn lemma_half_shift_bounds(v: int, index: Index)
    ensures
        index == Index::Even ==> 0 <= 2 * half_shift(v, index) - v <= 1,
        index == Index::Odd ==> -1 <= 2 * half_shift(v, index) - v <= 0,
{
    let r = v % 2;
    assert(0 <= r < 2 && v == 2 * (v / 2) + r);
    let q = v / 2;
    if r == 0 {
        assert((v + r) / 2 == q && (v - r) / 2 == q) by (nonlinear_arith)
            requires v == 2 * q, r == 0;
    } else {
        assert((v + r) / 2 == q + 1 && (v - r) / 2 == q) by (nonlinear_arith)
            requires v == 2 * q + 1, r == 1;
    }
}

/// A staggered cell keeps its own coordinate along the stagger axis, and the
/// other cube coordinate is its other coordinate less half of the first,
/// rounded up for even-shifted layouts and down for odd-shifted ones: with
/// rows staggered (`R`), `x` is `col` less half of `row` and `z` is `row`;
/// with columns staggered (`Q`), `x` is `col` and `z` is `row` less half of
/// `col`.
pub proof fn lemma_staggered_coordinates(col: int, row: int, index: Index, axis: Axis)
    ensures
        ({
            let (x, z) = spec_staggered_xz(col, row, index, axis);
            let (shift, v) = match axis {
                Axis::R => (col - x, row),
                Axis::Q => (row - z, col),
            };
            &&& axis == Axis::R ==> z == row
            &&& axis == Axis::Q ==> x == col
            &&& index == Index::Even ==> 0 <= 2 * shift - v <= 1
            &&& index == Index::Odd ==> -1 <= 2 * shift - v <= 0
        }),
{
    match axis {
        Axis::R => lemma_half_shift_bounds(row, index),
        Axis::Q => lemma_half_shift_bounds(col, index),
    }
}

/// The staggered cell of a cube position keeps the coordinate along the
/// stagger axis, and its other coordinate is the matching cube coordinate
/// plus half of the first, rounded up for even-shifted layouts and down for
/// odd-shifted ones: with rows staggered (`R`), `row` is `z` and `col` is
/// `x` plus half of `z`; with columns staggered (`Q`), `col` is `x` and `row`
/// is `z` plus half of `x`.
pub proof fn lemma_to_staggered_coordinates(x: int, z: int, index: Index, axis: Axis)
    ensures
        ({
            let (col, row) = spec_to_staggered(x, z, index, axis);
            let (shift, v) = match axis {
                Axis::R => (col - x, z),
                Axis::Q => (row - z, x),
            };
            &&& axis == Axis::R ==> row == z
            &&& axis == Axis::Q ==> col == x
            &&& index == Index::Even ==> 0 <= 2 * shift - v <= 1
            &&& index == Index::Odd ==> -1 <= 2 * shift - v <= 0
        }),
{
    match axis {
        Axis::R => lemma_half_shift_bounds(z, index),
        Axis::Q => lemma_half_shift_bounds(x, index),
    }
}

/// The distance of a cube position from the origin is the largest of the
/// absolute values of its three coordinates.
pub proof fn lemma_length_is_largest_coordinate(q: int, r: int, s: int)
    requires
        q + r + s == 0,
    ensures
        ({
            let aq = if q < 0 { -q } else { q };
            let ar = if r < 0 { -r } else { r };
            let as_ = if s < 0 { -s } else { s };
            let m = if aq >= ar && aq >= as_ { aq } else if ar >= as_ { ar } else { as_ };
            spec_length(q, r, s) == m
        }),
{
}

/// Six left rotations bring a hex back to where it started.
pub proof fn lemma_rotate_left_six_times(h: Hex)
    requires
        negatable(h),
    ensures
        spec_rotate_left(spec_rotate_left(spec_rotate_left(spec_rotate_left(spec_rotate_left(
            spec_rotate_left(h),
        ))))) == h,
{
}

/// `rotate_right` undoes itself.
pub proof fn lemma_rotate_right_involution(h: Hex)
    requires
        negatable(h),
    ensures
        spec_rotate_right(spec_rotate_right(h)) == h,
{
}

/// Both rotations keep a hex on the plane `x + y + z == 0` and keep its distance from the origin.
pub proof fn lemma_rotations_preserve_plane_and_length(h: Hex)
    requires
        negatable(h),
    ensures
        h.x + h.y + h.z == 0 ==> spec_rotate_left(h).x + spec_rotate_left(h).y + spec_rotate_left(h).z == 0,
        h.x + h.y + h.z == 0 ==> spec_rotate_right(h).x + spec_rotate_right(h).y + spec_rotate_right(h).z == 0,
        spec_length(spec_rotate_left(h).x as int, spec_rotate_left(h).y as int, spec_rotate_left(h).z as int)
            == spec_length(h.x as int, h.y as int, h.z as int),
        spec_length(spec_rotate_right(h).x as int, spec_rotate_right(h).y as int, spec_rotate_right(h).z as int)
            == spec_length(h.x as int, h.y as int, h.z as int),
{
}

/// Subtracting what was added gives back the hex one started from.
pub proof fn lemma_add_then_sub(a: Hex, b: Hex)
    requires
        hex_add_fits(a, b),
    ensures
        hex_sub_fits(spec_hex_add(a, b), b),
        spec_hex_sub(spec_hex_add(a, b), b) == a,
{
}

/// The coordinate-wise sum of two hexes fits in `isize`.
pub open spec fn hex_add_fits(a: Hex, b: Hex) -> bool {
    &&& fits_isize(a.x + b.x)
    &&& fits_isize(a.y + b.y)
    &&& fits_isize(a.z + b.z)
}

/// The coordinate-wise difference of two hexes fits in `isize`.
pub open spec fn hex_sub_fits(a: Hex, b: Hex) -> bool {
    &&& fits_isize(a.x - b.x)
    &&& fits_isize(a.y - b.y)
    &&& fits_isize(a.z - b.z)
}

pub open spec fn spec_hex_add(a: Hex, b: Hex) -> Hex {
    Hex { x: (a.x + b.x) as isize, y: (a.y + b.y) as isize, z: (a.z + b.z) as isize }
}

pub open spec fn spec_hex_sub(a: Hex, b: Hex) -> Hex {
    Hex { x: (a.x - b.x) as isize, y: (a.y - b.y) as isize, z: (a.z - b.z) as isize }
}

impl std::ops::Add for Hex {
    type Output = Hex;

    fn add(self, other: Self) -> (res: Self) {
        Self { x: self.x + other.x, y: self.y + other.y, z: self.z + other.z }
    }
}

impl AddSpecImpl for Hex {
    open spec fn obeys_add_spec() -> bool {
        true
    }

    open spec fn add_req(self, rhs: Hex) -> bool {
        hex_add_fits(self, rhs)
    }

    open spec fn add_spec(self, rhs: Hex) -> Hex {
        spec_hex_add(self, rhs)
    }
}

impl std::ops::Sub for Hex {
    type Output = Hex;

    fn sub(self, other: Self) -> (res: Self) {
        Self { x: self.x - other.x, y: self.y - other.y, z: self.z - other.z }
    }
}

impl SubSpecImpl for Hex {
    open spec fn obeys_sub_spec() -> bool {
        true
    }

    open spec fn sub_req(self, rhs: Hex) -> bool {
        hex_sub_fits(self, rhs)
    }

    open spec fn sub_spec(self, rhs: Hex) -> Hex {
        spec_hex_sub(self, rhs)
    }
}

impl Hex {
    /// Adds `other` to this hex coordinate-wise.
    pub fn add_assign(&mut self, other: Self)
        requires
            hex_add_fits(*old(self), other),
        ensures
            *final(self) == spec_hex_add(*old(self), other),
    {
        *self = *self + other;
    }

    /// Subtracts `other` from this hex coordinate-wise.
    pub fn sub_assign(&mut self, other: Self)
        requires
            hex_sub_fits(*old(self), other),
        ensures
            *final(self) == spec_hex_sub(*old(self), other),
    {
        *self = *self - other;
    }
}

} // verus!
