//! Tile maps, tile ids, hexagonal grids and the editing logic around them.
use vstd::prelude::*;

pub mod hex;
pub mod rpg;
pub mod tile;
pub mod quads;
pub mod font;
pub mod tilemap;
pub mod layout;
pub mod tool;
pub mod renderer;
pub mod draw;
pub mod editor_ui;
pub mod ui_state;
pub mod shape;
pub mod stk;
pub mod dock;
pub mod immediate;
pub mod widgets;
pub mod receiver;
pub mod theme;
pub mod event;

verus! {

/// A map without anything in it yet.
pub struct Simple {}

} // verus!
