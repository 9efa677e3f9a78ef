//! Which widget of the interface is active, and how widgets react to the
//! pointer: hovering, pressing, releasing.
use vstd::prelude::*;

verus! {

/// The id of a widget.
#[derive(Clone, Copy, Debug, PartialEq, Eq, Structural)]
pub struct Id {
    pub value: usize,
}

/// The interface state kept from frame to frame: the widget being
/// interacted with, if any.
#[derive(Clone, Copy, Debug, PartialEq, Eq, Structural)]
pub struct UiState {
    pub active_widget: Option<Id>,
}

/// What happened to the hover of a widget.
#[derive(Clone, Copy, Debug, PartialEq, Eq, Structural)]
pub enum Hover {
    /// The pointer came over the widget, which took the interface.
    Enter,
    /// The pointer left the widget, which let the interface go.
    Leave,
    Unchanged,
}

/// How a pressable widget is drawn this frame.
#[derive(Clone, Copy, Debug, PartialEq, Eq, Structural)]
pub enum Look {
    Pressed,
    Hovered,
    Normal,
}

impl UiState {
    pub fn new() -> (s: Self)
        ensures
            s.active_widget is None,
    {
        Self { active_widget: None }
    }

    pub fn active_widget(&self) -> (w: Option<Id>)
        ensures
            w == self.active_widget,
    {
        self.active_widget
    }

    pub fn active_widget_mut(&mut self) -> (w: &mut Option<Id>)
        ensures
            *w == old(self).active_widget,
            final(self).active_widget == *final(w),
    {
        &mut self.active_widget
    }

    /// Hover tracking of widget `id`, with the pointer over it or not: over
    /// it while nothing is active, it becomes the active widget (`Enter`);
    /// away from it while it is active, nothing is (`Leave`).
    pub fn onhover(&mut self, id: Id, hovering: bool) -> (h: Hover)
        ensures
            hovering && old(self).active_widget is None ==> h == Hover::Enter && final(self).active_widget
                == Some(id),
            !hovering && old(self).active_widget == Some(id) ==> h == Hover::Leave
                && final(self).active_widget is None,
            !((hovering && old(self).active_widget is None) || (!hovering && old(self).active_widget == Some(
                id,
            ))) ==> h == Hover::Unchanged && *final(self) == *old(self),
    {
        if hovering {
            if self.active_widget.is_none() {
                self.active_widget = Some(id);
                return Hover::Enter;
            }
        } else if self.active_widget == Some(id) {
            self.active_widget = None;
            return Hover::Leave;
        }
        Hover::Unchanged
    }

    /// Click tracking of widget `id`: a press over it while nothing is active
    /// makes it active; a release over it while it is active lets it go and
    /// is a click (the result); moving away from it while active lets it go
    /// without a click.
    pub fn onclick(&mut self, id: Id, hovering: bool, pressed: bool, released: bool) -> (clicked: bool)
        ensures
            ({
                let a0 = old(self).active_widget;
                let a1 = if hovering && a0 is None && pressed { Some(id) } else { a0 };
                if hovering {
                    &&& clicked == (a1 == Some(id) && released)
                    &&& final(self).active_widget == if clicked { None } else { a1 }
                } else {
                    &&& !clicked
                    &&& final(self).active_widget == if a0 == Some(id) { None } else { a0 }
                }
            }),
    {
        if hovering {
            if self.active_widget.is_none() && pressed {
                self.active_widget = Some(id);
            }
            if self.active_widget == Some(id) && released {
                self.active_widget = None;
                return true;
            }
            false
        } else {
            if self.active_widget == Some(id) {
                self.active_widget = None;
            }
            false
        }
    }

    /// The press tracking of a slider handle `id`: while active it is drawn
    /// pressed and a release lets it go; hovered while nothing is active, it
    /// is drawn hovered and a press makes it active; otherwise it is drawn
    /// normally. The result tells whether it is being dragged this frame.
    pub fn slider_press(&mut self, id: Id, hovering: bool, pressed: bool, released: bool) -> (r: (Look, bool))
        ensures
            old(self).active_widget == Some(id) ==> r == (Look::Pressed, true) && final(self).active_widget == (
            if released {
                None
            } else {
                Some(id)
            }),
            old(self).active_widget != Some(id) && hovering && old(self).active_widget is None ==> r == (
            Look::Hovered,
            false,
            ) && final(self).active_widget == (if pressed {
                Some(id)
            } else {
                None
            }),
            old(self).active_widget != Some(id) && !(hovering && old(self).active_widget is None) ==> r == (
            Look::Normal,
            false,
            ) && *final(self) == *old(self),
    {
        if self.active_widget == Some(id) {
            if released {
                self.active_widget = None;
            }
            (Look::Pressed, true)
        } else if hovering && self.active_widget.is_none() {
            if pressed {
                self.active_widget = Some(id);
            }
            (Look::Hovered, false)
        } else {
            (Look::Normal, false)
        }
    }
}

/// A check box drawn with one of three backgrounds and one of two marks.
pub struct Checkbox<P, H, N, C, U> {
    pub normal_bg: N,
    pub hovered_bg: H,
    pub pressed_bg: P,
    pub checked: C,
    pub unchecked: U,
}

/// What a check box does in a frame: whether it was toggled, the background
/// to draw, and whether it shows as checked.
pub open spec fn spec_checkbox(active: Option<Id>, id: Id, hovering: bool, pressed: bool, released: bool, checked: bool) -> (
    Option<Id>,
    bool,
    Look,
    bool,
) {
    if active == Some(id) {
        let event = released;
        let next = if event || !hovering { None } else { active };
        (next, event, Look::Pressed, if event { !checked } else { checked })
    } else if hovering && active is None {
        (if pressed { Some(id) } else { active }, false, Look::Hovered, checked)
    } else {
        (active, false, Look::Normal, checked)
    }
}

impl<P, H, N, C, U> Checkbox<P, H, N, C, U> {
    /// One frame of check box `id`: held, it is drawn pressed, and a release
    /// toggles it; it lets go on the release or when the pointer leaves.
    /// Hovered while nothing is held, it is drawn hovered and a press takes
    /// hold. The result is whether it was toggled, and the background and
    /// mark to draw.
    pub fn behavior(
        &self,
        id: Id,
        state: &mut UiState,
        checked: &mut bool,
        hovering: bool,
        pressed: bool,
        released: bool,
    ) -> (r: (bool, Look, bool))
        ensures
            ({
                let (next, event, look, mark) = spec_checkbox(
                    old(state).active_widget,
                    id,
                    hovering,
                    pressed,
                    released,
                    *old(checked),
                );
                &&& final(state).active_widget == next
                &&& *final(checked) == mark
                &&& r == (event, look, mark)
            }),
    {
        let (event, look) = if state.active_widget == Some(id) {
            let event = released;
            if event || !hovering {
                state.active_widget = None;
            }
            (event, Look::Pressed)
        } else if hovering && state.active_widget.is_none() {
            if pressed {
                state.active_widget = Some(id);
            }
            (false, Look::Hovered)
        } else {
            (false, Look::Normal)
        };
        if event {
            *checked = !*checked;
        }
        (event, look, *checked)
    }
}

/// A toggle: one button for the checked state and one for the unchecked
/// state.
pub struct Toggle<B> {
    pub checked: B,
    pub unchecked: B,
}

impl<B> Toggle<B> {
    /// The button that stands for the state `checked`.
    pub fn button(&self, checked: bool) -> (b: &B)
        ensures
            b == (if checked { &self.checked } else { &self.unchecked }),
    {
        if checked {
            &self.checked
        } else {
            &self.unchecked
        }
    }

    /// The toggle flips its state when its button reports a click.
    pub fn apply(&self, clicked: bool, checked: &mut bool) -> (event: bool)
        ensures
            event == clicked,
            *final(checked) == if clicked { !*old(checked) } else { *old(checked) },
    {
        if clicked {
            *checked = !*checked;
        }
        clicked
    }
}

/// A check box toggles exactly when it is released while held, and a held
/// check box never stays held once the pointer has left it.
pub proof fn lemma_checkbox_toggles_on_release(
    active: Option<Id>,
    id: Id,
    hovering: bool,
    pressed: bool,
    released: bool,
    checked: bool,
)
    ensures
        ({
            let (next, event, look, mark) = spec_checkbox(active, id, hovering, pressed, released, checked);
            &&& event == (active == Some(id) && released)
            &&& mark == (checked != event)
            &&& (active == Some(id) && !hovering) ==> next is None
            &&& (active != Some(id) && active is Some) ==> next == active
        }),
{
}

/// What a menu reports in a frame.
#[derive(Clone, Copy, Debug, PartialEq, Eq)]
pub enum MenuEvent<T> {
    Clicked(T),
    Nothing,
    Exit,
}

/// One row of an open menu as the pointer found it: the command of a text
/// row (none for a separator), and whether the pointer is over the row.
#[derive(Clone, Copy, Debug)]
pub struct MenuHit<T> {
    pub item: Option<T>,
    pub hovering: bool,
}

/// The command of the last of the first `n` rows that was clicked: a text
/// row under the pointer when the button was released.
pub open spec fn last_clicked<T>(hits: Seq<MenuHit<T>>, released: bool, n: int) -> Option<T>
    decreases n,
{
    if n <= 0 {
        None
    } else if released && hits[n - 1].hovering && hits[n - 1].item is Some {
        hits[n - 1].item
    } else {
        last_clicked(hits, released, n - 1)
    }
}

/// Some of the first `n` rows is under the pointer.
pub open spec fn any_hovering<T>(hits: Seq<MenuHit<T>>, n: int) -> bool {
    exists|i: int| 0 <= i < n && #[trigger] hits[i].hovering
}

impl UiState {
    /// The outcome of a frame of menu `id`: a click on a row closes the menu
    /// and reports the row's command (the last one clicked); with the pointer
    /// neither over a row nor over the menu's title (`in_base`) the menu
    /// closes; otherwise it stays open and keeps the interface.
    pub fn menu_outcome<T: Copy>(&mut self, id: Id, hits: &Vec<MenuHit<T>>, released: bool, in_base: bool) -> (e:
        MenuEvent<T>)
        ensures
            ({
                let n = hits@.len() as int;
                match last_clicked(hits@, released, n) {
                    Some(c) => e == MenuEvent::Clicked(c) && final(self).active_widget is None,
                    None => if !any_hovering(hits@, n) && !in_base {
                        e == MenuEvent::<T>::Exit && final(self).active_widget is None
                    } else {
                        e == MenuEvent::<T>::Nothing && final(self).active_widget == Some(id)
                    },
                }
            }),
    {
        let mut event: Option<T> = None;
        let mut any = false;
        let mut i: usize = 0;
        while i < hits.len()
            invariant
                0 <= i <= hits@.len(),
                event == last_clicked(hits@, released, i as int),
                any == any_hovering(hits@, i as int),
            decreases hits.len() - i,
        {
            let h = hits[i];
            if released && h.hovering {
                if let Some(c) = h.item {
                    event = Some(c);
                }
            }
            any = any || h.hovering;
            i += 1;
        }
        match event {
            Some(c) => {
                self.active_widget = None;
                MenuEvent::Clicked(c)
            },
            None => {
                if !any && !in_base {
                    self.active_widget = None;
                    MenuEvent::Exit
                } else {
                    self.active_widget = Some(id);
                    MenuEvent::Nothing
                }
            },
        }
    }
}

} // verus!
