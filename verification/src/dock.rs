//! Docking panels into a dock space that splits into halves.
use vstd::prelude::*;

verus! {

/// Where a panel docks, relative to a container.
#[derive(Clone, Copy, Debug, PartialEq, Eq, Structural)]
pub enum Slot {
    Tab,
    Left,
    Right,
    Top,
    Bottom,
}

/// A region of the dock space: split side by side, split one above the
/// other, tabs, or empty.
pub enum Split {
    V(Box<Container>, Box<Container>),
    H(Box<Container>, Box<Container>),
    Tabs(usize, Vec<Container>),
    Empty,
}

/// A container of the dock space and how it is split.
pub struct Container {
    pub split: Split,
}

/// The split of a container after docking `c` into it at `slot`: the
/// container's old contents on one side and `c` on the other. Docking as a
/// tab leaves the split as it is.
pub open spec fn docked(old: Split, slot: Slot, c: Container) -> Split {
    match slot {
        Slot::Left => Split::V(Box::new(Container { split: old }), Box::new(c)),
        Slot::Right => Split::V(Box::new(c), Box::new(Container { split: old })),
        Slot::Top => Split::H(Box::new(c), Box::new(Container { split: old })),
        Slot::Bottom => Split::H(Box::new(Container { split: old }), Box::new(c)),
        Slot::Tab => old,
    }
}

/// Docks `c` into `container` at `slot`.
pub fn dock(container: &mut Container, slot: Slot, c: Container)
    ensures
        final(container).split == docked(old(container).split, slot, c),
{
    match slot {
        Slot::Tab => {},
        _ => {
            let mut old = Split::Empty;
            std::mem::swap(&mut old, &mut container.split);
            container.split = match slot {
                Slot::Left => Split::V(Box::new(Container { split: old }), Box::new(c)),
                Slot::Right => Split::V(Box::new(c), Box::new(Container { split: old })),
                Slot::Top => Split::H(Box::new(c), Box::new(Container { split: old })),
                _ => Split::H(Box::new(Container { split: old }), Box::new(c)),
            };
        },
    }
}

} // verus!
