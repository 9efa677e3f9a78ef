//! Colors, icon ids and menu commands of the sprite editor's look.
use vstd::prelude::*;

verus! {

pub const TRANSPARENT: u32 = 0x000000_00;

/// The Game Boy palette, as `0xRRGGBBAA`.
pub const PAL_GAMEBOY: [u32; 5] = [0xCADC9F_FF, 0x0F380F_FF, 0x306230_FF, 0x8BAC0F_FF, 0x9BBC0F_FF];

pub const GRID_COLOR: u32 = 0xFF0000_AA;
pub const CORNER_COLOR: u32 = 0x00FF00_AA;

pub const ICON_TOOL_FREEHAND: usize = 10000;
pub const ICON_TOOL_FILL: usize = 10001;
pub const ICON_TOOL_CIRC: usize = 10002;
pub const ICON_TOOL_RECT: usize = 10003;
pub const ICON_TOOL_PIP: usize = 10004;

pub const ICON_EYE: usize = 11000;
pub const ICON_EYE_OFF: usize = 11001;
pub const ICON_LOCK: usize = 11002;
pub const ICON_LOCK_OFF: usize = 11003;

pub const ICON_UNDO: usize = 20000;
pub const ICON_REDO: usize = 20001;

pub const ICON_CHECK_ON: usize = 20002;
pub const ICON_CHECK_OFF: usize = 20003;

pub const EDITOR_SPRITE_ID: usize = 4000;

/// Byte `k` (0 is the lowest) of `c`.
pub open spec fn byte(c: u32, k: u32) -> u32 {
    (c >> (8 * k)) & 0xFF
}

/// The color `c` given as `0xRRGGBBAA` with its bytes in the opposite order,
/// as the renderer takes it.
pub fn rgba(c: u32) -> (r: u32)
    ensures
        byte(r, 0) == byte(c, 3),
        byte(r, 1) == byte(c, 2),
        byte(r, 2) == byte(c, 1),
        byte(r, 3) == byte(c, 0),
{
    let r = ((c >> 24) & 0xFF) << 0 | ((c >> 16) & 0xFF) << 8 | ((c >> 8) & 0xFF) << 16 | ((c >> 0) & 0xFF) << 24;
    assert(((r >> 0) & 0xFF) == ((c >> 24) & 0xFF) && ((r >> 8) & 0xFF) == ((c >> 16) & 0xFF) && ((r >> 16)
        & 0xFF) == ((c >> 8) & 0xFF) && ((r >> 24) & 0xFF) == ((c >> 0) & 0xFF)) by (bit_vector)
        requires
            r == ((c >> 24) & 0xFF) << 0 | ((c >> 16) & 0xFF) << 8 | ((c >> 8) & 0xFF) << 16 | ((c >> 0) & 0xFF)
                << 24,
    ;
    r
}

/// A word is determined by its four bytes.
pub proof fn lemma_bytes_determine(a: u32, b: u32)
    requires
        byte(a, 0) == byte(b, 0),
        byte(a, 1) == byte(b, 1),
        byte(a, 2) == byte(b, 2),
        byte(a, 3) == byte(b, 3),
    ensures
        a == b,
{
    assert(a == b) by (bit_vector)
        requires
            ((a >> 0) & 0xFF) == ((b >> 0) & 0xFF),
            ((a >> 8) & 0xFF) == ((b >> 8) & 0xFF),
            ((a >> 16) & 0xFF) == ((b >> 16) & 0xFF),
            ((a >> 24) & 0xFF) == ((b >> 24) & 0xFF),
    ;
}

/// Reversing the bytes twice gives the color back: if `r` is `c` reversed
/// and `s` is `r` reversed, then `s` is `c`.
pub proof fn lemma_rgba_involution(c: u32, r: u32, s: u32)
    requires
        byte(r, 0) == byte(c, 3),
        byte(r, 1) == byte(c, 2),
        byte(r, 2) == byte(c, 1),
        byte(r, 3) == byte(c, 0),
        byte(s, 0) == byte(r, 3),
        byte(s, 1) == byte(r, 2),
        byte(s, 2) == byte(r, 1),
        byte(s, 3) == byte(r, 0),
    ensures
        s == c,
{
    lemma_bytes_determine(s, c);
}

/// `rgba(0xFFFFFF_FF)`.
pub const WHITE: u32 = 0xFFFFFFFF;
/// `rgba(0x222833_FF)`.
pub const MENUBAR_BG: u32 = 0xFF332822;
/// `rgba(0x3F4350_FF)`.
pub const STATUSBAR_BG: u32 = 0xFF50433F;
/// `rgba(0x3F4957_FF)`.
pub const BAR_BG: u32 = 0xFF57493F;
pub const TOOLBAR_BG: u32 = BAR_BG;
/// `rgba(0x525b68_FF)`.
pub const BAR_TITLE_BG: u32 = 0xFF685B52;
/// `rgba(0x4E5763_FF)`.
pub const BTN_NORMAL: u32 = 0xFF63574E;
/// `rgba(0x3E4855_FF)`.
pub const BTN_HOVERED: u32 = 0xFF55483E;
/// `rgba(0x0076FF_FF)`.
pub const BTN_PRESSED: u32 = 0xFFFF7600;
/// `rgba(0x3A4351_FF)`.
pub const TIMELINE_BG: u32 = 0xFF51433A;
/// `rgba(0x525b68_FF)`.
pub const HEADER_BG: u32 = 0xFF685B52;

/// The commands of the file menu.
#[derive(Clone, Copy, Debug, PartialEq, Eq, Structural)]
pub enum Command {
    New,
    Open,
    Recent,
    Save,
    SaveAs,
    Quit,
}

} // verus!
