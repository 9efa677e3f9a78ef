//! The hot and active widget bookkeeping of the immediate-mode renderer.
use vstd::prelude::*;

verus! {

/// A key that moves the keyboard focus.
#[derive(Clone, Copy, Debug, PartialEq, Eq, Structural)]
pub enum Key {
    NextWidget,
    PrevWidget,
}

/// A point on screen.
#[derive(Clone, Copy, Debug, PartialEq, Eq, Structural)]
pub struct Point16 {
    pub x: i16,
    pub y: i16,
}

/// A rectangle on screen.
#[derive(Clone, Copy, Debug, PartialEq, Eq, Structural)]
pub struct Rect16 {
    pub min: Point16,
    pub max: Point16,
}

/// The per-frame state of the immediate-mode renderer: the widget under the
/// pointer (`hot`), the one being held (`active`; `0xFFFFFF` when the button
/// went down over nothing), the last widget laid out, where the next widget
/// goes, the key entered, and the mouse button and position.
#[derive(Clone, Copy, Debug)]
pub struct ImState {
    pub hot: u32,
    pub active: u32,
    pub last: u32,
    pub next_rect: Rect16,
    pub key: Option<Key>,
    pub mouse: (bool, Point16),
}

/// The active widget at the end of a frame: none once the button is up, and
/// a placeholder while it is held over nothing.
pub open spec fn finished_active(active: u32, down: bool) -> u32 {
    if !down {
        0
    } else if active == 0 {
        0xFFFFFF
    } else {
        active
    }
}

/// The state after laying out widget `id`, with the pointer `inside` its
/// rectangle or not.
pub open spec fn spec_widget(s: ImState, id: u32, inside: bool) -> ImState {
    let hot = s.hot == 0 && inside;
    ImState {
        hot: if hot { id } else { s.hot },
        active: if hot && s.active == 0 && s.mouse.0 { id } else { s.active },
        last: id,
        ..s
    }
}

/// The state after finishing a frame.
pub open spec fn spec_finish(s: ImState) -> ImState {
    ImState { active: finished_active(s.active, s.mouse.0), key: None, ..s }
}

pub open spec fn spec_is_click(s: ImState) -> bool {
    !s.mouse.0 && s.hot == s.last && s.active == s.last
}

impl ImState {
    pub fn new() -> (s: Self)
        ensures
            s.hot == 0,
            s.active == 0,
            s.last == 0,
            s.key is None,
            s.next_rect == (Rect16 { min: Point16 { x: 0, y: 0 }, max: Point16 { x: 0, y: 0 } }),
            s.mouse == (false, Point16 { x: 0, y: 0 }),
    {
        ImState {
            hot: 0,
            active: 0,
            last: 0,
            key: None,
            next_rect: Rect16 { min: Point16 { x: 0, y: 0 }, max: Point16 { x: 0, y: 0 } },
            mouse: (false, Point16 { x: 0, y: 0 }),
        }
    }

    /// Starts a frame: no widget is hot yet.
    pub fn prepare(&mut self)
        ensures
            *final(self) == (ImState { hot: 0, ..*old(self) }),
    {
        self.hot = 0;
    }

    /// Ends a frame: releases the active widget once the button is up,
    /// clears the entered key, and tells whether the active widget changed.
    pub fn finish(&mut self) -> (changed: bool)
        ensures
            *final(self) == spec_finish(*old(self)),
            changed == (old(self).active != finished_active(old(self).active, old(self).mouse.0)),
    {
        let last_active = self.active;
        if !self.mouse.0 {
            self.active = 0;
        } else if self.active == 0 {
            self.active = 0xFFFFFF;
        }
        self.key = None;
        last_active != self.active
    }

    /// Lays out widget `id` at the next rectangle, which it returns;
    /// `inside` tells whether the pointer is in that rectangle. The first
    /// widget under the pointer becomes hot, and also active if nothing is
    /// and the button is down.
    pub fn widget(&mut self, id: u32, inside: bool) -> (r: Rect16)
        ensures
            r == old(self).next_rect,
            *final(self) == spec_widget(*old(self), id, inside),
    {
        if self.hot == 0 && inside {
            self.hot = id;
            if self.active == 0 && self.mouse.0 {
                self.active = id;
            }
        }
        self.last = id;
        self.next_rect
    }

    pub fn widget_rect(&self) -> (r: Rect16)
        ensures
            r == self.next_rect,
    {
        self.next_rect
    }

    /// Places the next widget at `r`.
    pub fn lay(&mut self, r: Rect16)
        ensures
            *final(self) == (ImState { next_rect: r, ..*old(self) }),
    {
        self.next_rect = r;
    }

    /// The last widget laid out is under the pointer.
    pub fn is_hot(&self) -> (b: bool)
        ensures
            b == (self.hot == self.last),
    {
        self.hot == self.last
    }

    /// The last widget laid out is held.
    pub fn is_active(&self) -> (b: bool)
        ensures
            b == (self.active == self.last),
    {
        self.active == self.last
    }

    /// The last widget laid out was clicked: the button is up while the
    /// widget is both hot and active.
    pub fn is_click(&self) -> (b: bool)
        ensures
            b == spec_is_click(*self),
    {
        !self.mouse.0 && self.hot == self.last && self.active == self.last
    }
}

/// Pressing the button over a widget and releasing it over the same widget
/// is a click: laid out with the button down over it, nothing else hot or
/// active, the widget becomes hot and active and stays active through the end
/// of the frame; laid out again in the next frame with the button up and the
/// pointer still over it, it is clicked, and finishing that frame releases
/// it.
pub proof fn lemma_press_release_clicks(s: ImState, id: u32, up_at: Point16)
    requires
        s.hot == 0,
        s.active == 0,
        s.mouse.0,
        id != 0,
    ensures
        ({
            let held = spec_finish(spec_widget(s, id, true));
            let next = ImState { hot: 0, mouse: (false, up_at), ..held };
            let clicked = spec_widget(next, id, true);
            &&& held.active == id
            &&& spec_is_click(clicked)
            &&& spec_finish(clicked).active == 0
        }),
{
}

} // verus!
