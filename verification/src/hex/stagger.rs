use vstd::prelude::*;

verus! {

/// Which rows (or columns) of a staggered hex layout are shifted.
#[derive(Clone, Copy, Debug, PartialEq, Eq)]
pub enum Index {
    Odd,
    Even,
}

/// The axis along which a staggered hex layout is shifted.
#[derive(Clone, Copy, Debug, PartialEq, Eq)]
pub enum Axis {
    Q,
    R,
}

/// Orderings of the three cube coordinates.
#[derive(Clone, Copy, Debug, PartialEq, Eq)]
pub enum Combo {
    RQ,
    QS,
    SR,
    QR,
    SQ,
    RS,
}

} // verus!
