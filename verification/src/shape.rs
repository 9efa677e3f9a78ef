//! Pieces of map objects: tile cells, images and fonts.
use vstd::prelude::*;

verus! {

/// A tile placed in a map object.
pub struct TileCell {}

/// An image used by a map object.
pub struct Image {}

/// The font of a text object.
#[derive(Clone, Copy, Debug, PartialEq, Eq, Structural)]
pub struct Font {
    pub id: u32,
    pub bold: bool,
    pub italic: bool,
    pub underline: bool,
    pub strikeout: bool,
    pub kerning: bool,
}

} // verus!
