//! Widget states of the small toolkit.
use vstd::prelude::*;

verus! {

/// The state a button is drawn in.
#[derive(Clone, Copy, Debug, PartialEq, Eq, Structural)]
pub enum State {
    Down,
    Up,
    Highlighted,
    Focused,
}

} // verus!
