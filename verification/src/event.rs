//! Input events of the sprite editor's interface, and how keys map to
//! editor commands.
use vstd::prelude::*;

verus! {

/// A mouse button.
#[derive(Clone, Copy, Debug, PartialEq, Eq, Structural)]
pub enum Btn {
    Left,
    Right,
    Middle,
}

/// Whether a button went down or up.
#[derive(Clone, Copy, Debug, PartialEq, Eq, Structural)]
pub enum Dir {
    Press,
    Release,
}

/// The keys the editor tells apart; every other key keeps its code.
#[derive(Clone, Copy, Debug, PartialEq, Eq, Structural)]
pub enum KeyCode {
    Plus,
    KpPlus,
    Minus,
    KpMinus,
    Tab,
    Escape,
    LShift,
    RShift,
    LCtrl,
    RCtrl,
    LAlt,
    RAlt,
    Code(i32),
}

/// A key as the editor understands it.
#[derive(Clone, Copy, Debug, PartialEq, Eq, Structural)]
pub enum Key {
    Cancel,
    ZoomIn,
    ZoomOut,
    NextWidget,
    PrevWidget,
    Shift,
    Ctrl,
    Alt,
    Other(KeyCode),
}

/// An input event: pointer moves (position and movement), buttons, the
/// wheel, and keys.
#[derive(Clone, Copy, Debug, PartialEq, Eq, Structural)]
pub enum Event {
    Move(i16, i16, i16, i16),
    Btn(i16, i16, Btn, Dir),
    Wheel(i16, i16),
    Press(Key),
    Release(Key),
}

pub open spec fn spec_convert_key(key: KeyCode, shift: bool) -> Key {
    match key {
        KeyCode::Plus | KeyCode::KpPlus => Key::ZoomIn,
        KeyCode::Minus | KeyCode::KpMinus => Key::ZoomOut,
        KeyCode::Tab => if shift { Key::PrevWidget } else { Key::NextWidget },
        KeyCode::Escape => Key::Cancel,
        KeyCode::LShift | KeyCode::RShift => Key::Shift,
        KeyCode::LCtrl | KeyCode::RCtrl => Key::Ctrl,
        KeyCode::LAlt | KeyCode::RAlt => Key::Alt,
        _ => Key::Other(key),
    }
}

/// What key `key` means to the editor, with a shift key held or not: plus
/// zooms in, minus zooms out, tab moves the focus (back with shift), escape
/// cancels, and the modifier keys stand for themselves.
pub fn convert_key(key: KeyCode, shift: bool) -> (k: Key)
    ensures
        k == spec_convert_key(key, shift),
{
    match key {
        KeyCode::Plus | KeyCode::KpPlus => Key::ZoomIn,
        KeyCode::Minus | KeyCode::KpMinus => Key::ZoomOut,
        KeyCode::Tab => if shift {
            Key::PrevWidget
        } else {
            Key::NextWidget
        },
        KeyCode::Escape => Key::Cancel,
        KeyCode::LShift | KeyCode::RShift => Key::Shift,
        KeyCode::LCtrl | KeyCode::RCtrl => Key::Ctrl,
        KeyCode::LAlt | KeyCode::RAlt => Key::Alt,
        _ => Key::Other(key),
    }
}

} // verus!
