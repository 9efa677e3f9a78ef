//! Retained widgets: a push button and the root window that routes pointer
//! input to its widgets and keeps track of the focused one.
use vstd::prelude::*;
use crate::layout::{FlowData, Point, Rect};

verus! {

/// Setting a value and telling whether it changed.
pub trait CheckSet<T> {
    fn check_set(&mut self, v: T) -> bool;
}

impl CheckSet<bool> for bool {
    fn check_set(&mut self, v: bool) -> (changed: bool)
        ensures
            changed == (v != *old(self)),
            *final(self) == v,
    {
        if v != *self {
            *self = v;
            true
        } else {
            false
        }
    }
}

/// The pointer input a root window gets.
#[derive(Clone, Copy, Debug, PartialEq, Eq, Structural)]
pub enum Mouse {
    Move(Point),
    Press(Point),
    Release(Point),
}

/// A push button: its bounds and measured size, its colors (normal and
/// pressed) for text, background and border, its label, and whether it is
/// held down. What a click does is up to the caller.
pub struct Button {
    pub rect: Rect,
    pub measured: Point,
    pub fg: (u32, u32),
    pub bg: (u32, u32),
    pub border: Option<(u32, u32)>,
    pub label: String,
    pub pressed: bool,
    pub flow: FlowData,
}

/// What a pointer event did to a button: whether it was a click and whether
/// the button must be drawn again.
pub open spec fn spec_button_event(pressed: bool, inside: bool, left: bool) -> (bool, bool, bool) {
    if inside {
        if left {
            (true, false, !pressed)
        } else {
            (false, pressed, pressed)
        }
    } else {
        (false, false, pressed)
    }
}

impl Button {
    /// The button's measured size: the size of its bounds.
    pub fn measure(&mut self)
        requires
            i32::MIN <= old(self).rect.spec_dx() <= i32::MAX,
            i32::MIN <= old(self).rect.spec_dy() <= i32::MAX,
        ensures
            final(self).measured.x == old(self).rect.spec_dx(),
            final(self).measured.y == old(self).rect.spec_dy(),
            final(self).rect == old(self).rect,
            final(self).pressed == old(self).pressed,
            final(self).fg == old(self).fg,
            final(self).bg == old(self).bg,
            final(self).border == old(self).border,
            final(self).label@ == old(self).label@,
            final(self).flow == old(self).flow,
    {
        self.measured = Point { x: self.rect.max.x - self.rect.min.x, y: self.rect.max.y - self.rect.min.y };
    }

    /// The text, background and border colors to paint with: the pressed
    /// ones while the button is held.
    pub fn colors(&self) -> (c: (u32, u32, Option<u32>))
        ensures
            c == if self.pressed {
                (self.fg.1, self.bg.1, match self.border {
                    Some(b) => Some(b.1),
                    None => None,
                })
            } else {
                (self.fg.0, self.bg.0, match self.border {
                    Some(b) => Some(b.0),
                    None => None,
                })
            },
    {
        if self.pressed {
            (self.fg.1, self.bg.1, match self.border {
                Some(b) => Some(b.1),
                None => None,
            })
        } else {
            (self.fg.0, self.bg.0, match self.border {
                Some(b) => Some(b.0),
                None => None,
            })
        }
    }

    /// A pointer event, with the pointer `inside` the button or not and the
    /// left button `left` down or not: pressing over it holds it, releasing
    /// over it while held is a click, and leaving it lets go. The result is
    /// `focused` unchanged, whether it was a click, and whether the button
    /// must be drawn again.
    pub fn event(&mut self, inside: bool, left: bool, focused: bool) -> (r: (bool, bool, bool))
        ensures
            ({
                let (now, click, redraw) = spec_button_event(old(self).pressed, inside, left);
                &&& final(self).pressed == now
                &&& r == (focused, click, redraw)
            }),
            final(self).rect == old(self).rect,
            final(self).measured == old(self).measured,
            final(self).fg == old(self).fg,
            final(self).bg == old(self).bg,
            final(self).border == old(self).border,
            final(self).label@ == old(self).label@,
            final(self).flow == old(self).flow,
    {
        let mut click = false;
        let mut redraw = false;
        if inside {
            if left {
                if self.pressed.check_set(true) {
                    redraw = true;
                }
            } else {
                if self.pressed.check_set(false) {
                    click = true;
                    redraw = true;
                }
            }
        } else if self.pressed.check_set(false) {
            redraw = true;
        }
        (focused, click, redraw)
    }
}

/// A text label: its bounds and measured size, color and text.
pub struct Label {
    pub rect: Rect,
    pub measured: Point,
    pub color: u32,
    pub label: String,
}

impl Label {
    /// The label's measured size: the size of its bounds.
    pub fn measure(&mut self)
        requires
            i32::MIN <= old(self).rect.spec_dx() <= i32::MAX,
            i32::MIN <= old(self).rect.spec_dy() <= i32::MAX,
        ensures
            final(self).measured.x == old(self).rect.spec_dx(),
            final(self).measured.y == old(self).rect.spec_dy(),
            final(self).rect == old(self).rect,
            final(self).color == old(self).color,
            final(self).label@ == old(self).label@,
    {
        self.measured = Point { x: self.rect.max.x - self.rect.min.x, y: self.rect.max.y - self.rect.min.y };
    }

    /// A label takes no input: the focus stays as it was.
    pub fn event(&self, focused: bool) -> (r: bool)
        ensures
            r == focused,
    {
        focused
    }
}

/// The root window: the focused widget, its bounds, whether it must be drawn
/// again, the pointer, and its background color.
pub struct Root {
    pub focus: usize,
    pub rect: Rect,
    pub redraw: bool,
    pub mouse_pos: Point,
    pub mouse_left: bool,
    pub bg: u32,
}

impl Root {
    /// Takes in pointer input: the pointer moves, and a press or release
    /// sets the left button. The result is the pointer and left button that
    /// the widgets see.
    pub fn pointer(&mut self, event: Mouse) -> (r: (Point, bool))
        ensures
            final(self).mouse_pos == match event {
                Mouse::Move(p) => p,
                Mouse::Press(p) => p,
                Mouse::Release(p) => p,
            },
            final(self).mouse_left == match event {
                Mouse::Move(_) => old(self).mouse_left,
                Mouse::Press(_) => true,
                Mouse::Release(_) => false,
            },
            r == (final(self).mouse_pos, final(self).mouse_left),
            final(self).focus == old(self).focus,
            final(self).redraw == old(self).redraw,
            final(self).rect == old(self).rect,
            final(self).bg == old(self).bg,
    {
        match event {
            Mouse::Move(p) => self.mouse_pos = p,
            Mouse::Press(p) => {
                self.mouse_pos = p;
                self.mouse_left = true;
            },
            Mouse::Release(p) => {
                self.mouse_pos = p;
                self.mouse_left = false;
            },
        }
        (self.mouse_pos, self.mouse_left)
    }

    /// Whether widget `i` has the focus.
    pub fn is_focused(&self, i: usize) -> (b: bool)
        ensures
            b == (self.focus == i),
    {
        self.focus == i
    }

    /// Widget `i` answered the event with `claimed`: when it claims the
    /// focus and does not have it, it gets it and the window is drawn again.
    pub fn claim(&mut self, i: usize, claimed: bool)
        ensures
            final(self).focus == if claimed { i } else { old(self).focus },
            final(self).redraw == (old(self).redraw || (claimed && old(self).focus != i)),
            final(self).mouse_pos == old(self).mouse_pos,
            final(self).mouse_left == old(self).mouse_left,
            final(self).rect == old(self).rect,
            final(self).bg == old(self).bg,
    {
        if claimed {
            if self.focus != i {
                self.focus = i;
                self.redraw = true;
            }
        }
    }

    /// Whether the window is to be painted now; painting clears the flag.
    pub fn take_redraw(&mut self) -> (paint: bool)
        ensures
            paint == old(self).redraw,
            !final(self).redraw,
            final(self).focus == old(self).focus,
            final(self).rect == old(self).rect,
            final(self).mouse_pos == old(self).mouse_pos,
            final(self).mouse_left == old(self).mouse_left,
            final(self).bg == old(self).bg,
    {
        if !self.redraw {
            return false;
        }
        self.redraw = false;
        true
    }
}

/// A press, then a release, both over a button, is exactly one click.
pub proof fn lemma_press_release_one_click(pressed: bool)
    ensures
        ({
            let (held, click1, _) = spec_button_event(pressed, true, true);
            let (after, click2, _) = spec_button_event(held, true, false);
            &&& held && !click1
            &&& click2 && !after
        }),
{
}

/// Leaving a held button lets it go without a click.
pub proof fn lemma_leave_no_click(pressed: bool, left: bool)
    ensures
        ({
            let (now, click, _) = spec_button_event(pressed, false, left);
            !now && !click
        }),
{
}

} // verus!
