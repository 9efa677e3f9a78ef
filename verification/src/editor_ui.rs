//! The immediate-mode user interface of the tile map editor: widget ids,
//! hit testing, the active and hot widget, and the buttons, draggers and
//! sliders built on them. Widgets record what they paint; the caller renders
//! it.
use vstd::prelude::*;
use vstd::string::*;
use crate::draw::{ColorRect, Draw};
use crate::font::{char_width, get_char_width, has_width};
use crate::rpg::trunc_div;

verus! {

/// The input event a frame of the interface handles.
#[derive(Clone, Copy, Debug, PartialEq, Eq, Structural)]
pub enum Event {
    Paint,
    /// From here on, events do hit testing.
    Tick,
    MouseMove,
    MouseWheel,
    LeftDown,
    LeftUp,
    RightDown,
    RightUp,
}

/// The color scheme a widget is painted with.
#[derive(Clone, Copy, Debug, PartialEq, Eq, Structural)]
pub enum ColorMode {
    Expander,
    Toolbar,
    ToolbarButton,
    Panel,
    PanelSider,
    PanelSizer,
    Scrollbar,
    Mapsize,
    LayerButton,
    LayerHide,
    LayerLock,
    LayerSolo,
    CategoryButton,
}

/// What a dragged value did this frame.
#[derive(Clone, Copy, Debug, PartialEq, Eq, Structural)]
pub enum Change {
    Begin,
    End,
    Change,
}

/// A panel of the editor window.
#[derive(Clone, Copy, Debug, PartialEq, Eq, Structural)]
pub struct Panel {
    pub expanded: isize,
    pub mode: isize,
    /// Number of rows requested for the panel.
    pub delta_height: isize,
    pub side: isize,
    pub width: isize,
    pub height: isize,
    pub x0: isize,
    pub y0: isize,
}

/// The kinds of widgets, whose code makes up the low seven bits of a widget
/// id.
#[derive(Clone, Copy, Debug, PartialEq, Eq, Structural)]
pub enum Ids {
    MapCell,
    Region,
    /// Panel background to hide the map, and miscellaneous controls.
    Panel,
    /// Info data.
    Info,
    /// Toolbar buttons: the parameter is the tool number.
    ToolbarA,
    ToolbarB,
    /// Palette selectors: the parameter is the tile index.
    Palette,
    /// Category selectors: the parameter is the category index.
    Categories,
    Layer,
    /// Layer controls: the parameter is the layer.
    Solo,
    Hide,
    Lock,
    /// The parameter is the panel id.
    Scrollbar,
    /// The first parameter is the panel id, the second the destination side.
    PanelMover,
    /// The parameter is the panel id.
    PanelSizer,
    ScrollbarId,
    ColorpickId,
    PropFlag,
    PropFloat,
    PropInt,
}

pub open spec fn spec_code(i: Ids) -> u32 {
    match i {
        Ids::MapCell => 1,
        Ids::Region => 2,
        Ids::Panel => 3,
        Ids::Info => 4,
        Ids::ToolbarA => 5,
        Ids::ToolbarB => 6,
        Ids::Palette => 7,
        Ids::Categories => 8,
        Ids::Layer => 9,
        Ids::Solo => 10,
        Ids::Hide => 11,
        Ids::Lock => 12,
        Ids::Scrollbar => 13,
        Ids::PanelMover => 14,
        Ids::PanelSizer => 15,
        Ids::ScrollbarId => 16,
        Ids::ColorpickId => 17,
        Ids::PropFlag => 18,
        Ids::PropFloat => 19,
        Ids::PropInt => 20,
    }
}

impl Ids {
    /// The number of this kind of widget: `MapCell` is 1 and the others follow
    /// in order.
    pub fn code(self) -> (c: u32)
        ensures
            c == spec_code(self),
    {
        match self {
            Ids::MapCell => 1,
            Ids::Region => 2,
            Ids::Panel => 3,
            Ids::Info => 4,
            Ids::ToolbarA => 5,
            Ids::ToolbarB => 6,
            Ids::Palette => 7,
            Ids::Categories => 8,
            Ids::Layer => 9,
            Ids::Solo => 10,
            Ids::Hide => 11,
            Ids::Lock => 12,
            Ids::Scrollbar => 13,
            Ids::PanelMover => 14,
            Ids::PanelSizer => 15,
            Ids::ScrollbarId => 16,
            Ids::ColorpickId => 17,
            Ids::PropFlag => 18,
            Ids::PropFloat => 19,
            Ids::PropInt => 20,
        }
    }
}

/// The widget id of kind code `n` with parameter `p`: `p` above the low seven
/// bits that hold `n`.
pub open spec fn spec_id(n: u32, p: u32) -> int {
    n + (p << 7u32)
}

/// `id(n, p)` fits in a `u32`.
pub open spec fn id_fits(n: u32, p: u32) -> bool {
    spec_id(n, p) <= u32::MAX
}

pub fn id(n: u32, p: u32) -> (r: u32)
    requires
        id_fits(n, p),
    ensures
        r == spec_id(n, p),
{
    n + (p << 7u32)
}

/// The parameter made of `p` above the twelve bits that hold `q`.
pub open spec fn spec_pair(p: u32, q: u32) -> int {
    (p << 12u32) + q
}

pub open spec fn id2_fits(n: u32, p: u32, q: u32) -> bool {
    spec_pair(p, q) <= u32::MAX && id_fits(n, spec_pair(p, q) as u32)
}

/// The widget id of kind code `n` with the two parameters `p` and `q`.
pub fn id2(n: u32, p: u32, q: u32) -> (r: u32)
    requires
        id2_fits(n, p, q),
    ensures
        r == spec_id(n, spec_pair(p, q) as u32),
{
    id(n, (p << 12u32) + q)
}

/// The id of the map cell `(x, y)`: a map id with `x` in the twelve bits
/// above the kind and `y` above those.
pub fn idmap(x: u32, y: u32) -> (r: u32)
    requires
        id2_fits(1, y, x),
    ensures
        r == spec_id(1, spec_pair(y, x) as u32),
{
    id2(Ids::MapCell.code(), y, x)
}

/// A widget id keeps its kind in the low seven bits and its parameter in the
/// bits above: both can be read back from it.
pub proof fn lemma_id_decodes(n: u32, p: u32)
    requires
        n < 128,
        p < 0x0200_0000,
    ensures
        id_fits(n, p),
        (spec_id(n, p) as u32) & 0x7f == n,
        (spec_id(n, p) as u32) >> 7u32 == p,
{
    assert(n + (p << 7u32) <= u32::MAX && (((n + (p << 7u32)) as u32) & 0x7f) == n && (((n + (p
        << 7u32)) as u32) >> 7u32) == p) by (bit_vector)
        requires
            n < 128,
            p < 0x0200_0000,
    ;
}

/// A map cell id reads back as a map id holding the cell's coordinates: `x`
/// in the twelve bits above the kind, `y` above those.
pub proof fn lemma_idmap_decodes(x: u32, y: u32)
    requires
        x < 0x1000,
        y < 0x2000,
    ensures
        id2_fits(1, y, x),
        (spec_id(1, spec_pair(y, x) as u32) as u32) & 0x7f == 1,
        ((spec_id(1, spec_pair(y, x) as u32) as u32) >> 7u32) & 0xfff == x,
        (spec_id(1, spec_pair(y, x) as u32) as u32) >> 19u32 == y,
{
    assert((y << 12u32) + x <= u32::MAX && 1 + ((((y << 12u32) + x) as u32) << 7u32) <= u32::MAX) by (bit_vector)
        requires
            x < 0x1000,
            y < 0x2000,
    ;
    let k = ((y << 12u32) + x) as u32;
    assert(((((1 + (k << 7u32)) as u32) & 0x7f) == 1) && ((((1 + (k << 7u32)) as u32) >> 7u32) & 0xfff) == x
        && (((1 + (k << 7u32)) as u32) >> 19u32) == y) by (bit_vector)
        requires
            x < 0x1000,
            y < 0x2000,
            k == ((y << 12u32) + x) as u32,
    ;
}

/// `(x, y)` lies in the rectangle at `(x0, y0)` of size `w` by `h`.
pub open spec fn spec_in_rect(x: int, y: int, x0: int, y0: int, w: int, h: int) -> bool {
    x >= x0 && x < x0 + w && y >= y0 && y < y0 + h
}

pub fn in_rect(x: i32, y: i32, x0: i32, y0: i32, w: i32, h: i32) -> (b: bool)
    requires
        i32::MIN <= x0 + w <= i32::MAX,
        i32::MIN <= y0 + h <= i32::MAX,
    ensures
        b == spec_in_rect(x as int, y as int, x0 as int, y0 as int, w as int, h as int),
{
    x >= x0 && x < x0 + w && y >= y0 && y < y0 + h
}

/// Space between a button's border and its text: two pixels, and one more
/// for every sixteen rows of font height.
pub const BUTTON_INTERNAL_SPACING: usize = 2;
/// Height of a button: the font height (nine) and the spacing above and
/// below.
pub const BUTTON_HEIGHT: usize = 13;
/// Most frames that can wait to be drawn last.
pub const MAX_DELAYRECT: usize = 256;

/// What a widget paints: a filled rectangle, a box in a color scheme, or a
/// box with text.
#[derive(Debug)]
pub enum Paint {
    Rect(ColorRect),
    Box { x0: usize, y0: usize, x1: usize, y1: usize, mode: ColorMode, index: usize },
    TextBox {
        x0: usize,
        y0: usize,
        x1: usize,
        y1: usize,
        text: Vec<char>,
        xoff: usize,
        yoff: usize,
        mode: ColorMode,
        index: usize,
    },
}

/// The state of the interface: the current event and pointer, which widget
/// is active (held) and which is hot (under the pointer), the selection, and
/// where the editor sits on screen.
#[derive(Clone, Copy, Debug, PartialEq, Eq, Structural)]
pub struct Control {
    pub tool: usize,
    pub active_event: Event,
    pub active_id: u32,
    pub hot_id: u32,
    pub next_hot_id: u32,
    pub event: Event,
    pub mx: isize,
    pub my: isize,
    pub dx: isize,
    pub dy: isize,
    pub accum_x: usize,
    pub accum_y: usize,
    pub has_selection: bool,
    pub select_x0: usize,
    pub select_y0: usize,
    pub select_x1: usize,
    pub select_y1: usize,
    pub sx: isize,
    pub sy: isize,
    pub x0: usize,
    pub y0: usize,
    pub x1: usize,
    pub y1: usize,
    pub left_width: usize,
    pub right_width: usize,
}

/// The interface: its state, the frames waiting to be drawn last, and what
/// the widgets painted.
pub struct Ui {
    pub state: Control,
    pub delayrect: Vec<ColorRect>,
    pub paint: Vec<Paint>,
}

/// The state of a new interface.
pub open spec fn spec_initial_control() -> Control {
    Control {
        tool: 1,
        active_event: Event::Paint,
        active_id: 0,
        hot_id: 0,
        next_hot_id: 0,
        event: Event::Paint,
        mx: 0,
        my: 0,
        dx: 0,
        dy: 0,
        accum_x: 0,
        accum_y: 0,
        has_selection: false,
        select_x0: 0,
        select_y0: 0,
        select_x1: 0,
        select_y1: 0,
        sx: 0,
        sy: 0,
        x0: 0,
        y0: 0,
        x1: 0,
        y1: 0,
        left_width: 0,
        right_width: 0,
    }
}

/// `c` with widget `id` made the active one, by the current event.
pub open spec fn spec_activate(c: Control, id: u32) -> Control {
    Control { active_id: id, active_event: c.event, accum_x: 0, accum_y: 0, ..c }
}

/// The pointer of `c` lies in the rectangle from `(x0, y0)` up to `(x1, y1)`.
pub open spec fn spec_over(c: Control, x0: int, y0: int, x1: int, y1: int) -> bool {
    c.mx >= x0 && c.my >= y0 && c.mx < x1 && c.my < y1
}

/// `c` after hit testing widget `id` over the rectangle: the widget becomes
/// the next hot one if the pointer is over it and the event is not a tick.
pub open spec fn spec_hittest(c: Control, x0: int, y0: int, x1: int, y1: int, id: u32) -> Control {
    if spec_over(c, x0, y0, x1, y1) && c.event != Event::Tick {
        Control { next_hot_id: id, ..c }
    } else {
        c
    }
}

/// A press on widget `id` makes it active; a release on it while it is
/// active finishes a click: `Some(true)` for the left button, `None` for the
/// right one. Otherwise `Some(false)`.
pub open spec fn spec_button_core(c: Control, id: u32) -> (Control, Option<bool>) {
    let hot = c.hot_id == id;
    let active = c.active_id == id;
    let inactive = c.active_id == 0;
    match c.event {
        Event::LeftDown => if hot && inactive { (spec_activate(c, id), Some(false)) } else { (c, Some(false)) },
        Event::LeftUp => if active && hot { (spec_activate(c, 0), Some(true)) } else { (c, Some(false)) },
        Event::RightDown => if hot && inactive { (spec_activate(c, id), Some(false)) } else { (c, Some(false)) },
        Event::RightUp => if active && hot { (spec_activate(c, 0), None) } else { (c, Some(false)) },
        _ => (c, Some(false)),
    }
}

/// The color state of a widget: idle 0, under the pointer 1, held 2, held
/// under the pointer 3, selected 4, selected under the pointer 5, disabled 6.
pub open spec fn spec_state_index(disable: bool, select: bool, down: bool, over: bool) -> usize {
    if !disable {
        if down {
            if over { 3 } else { 2 }
        } else if select {
            if over { 5 } else { 4 }
        } else if over {
            1
        } else {
            0
        }
    } else if select && !down {
        if over { 5 } else { 4 }
    } else {
        6
    }
}

pub open spec fn spec_index_for_id(c: Control, id: u32, disable: bool, select: bool) -> usize {
    spec_state_index(disable, select, c.active_id == id, c.hot_id == id)
}

/// `p` is a box with these fields.
pub open spec fn is_box(p: Paint, x0: int, y0: int, x1: int, y1: int, mode: ColorMode, index: usize) -> bool {
    match p {
        Paint::Box { x0: a, y0: b, x1: c, y1: d, mode: m, index: i } => a == x0 && b == y0 && c == x1 && d == y1
            && m == mode && i == index,
        _ => false,
    }
}

/// `p` is a text box with these fields.
pub open spec fn is_textbox(
    p: Paint,
    x0: int,
    y0: int,
    x1: int,
    y1: int,
    text: Seq<char>,
    xoff: int,
    yoff: int,
    mode: ColorMode,
    index: usize,
) -> bool {
    match p {
        Paint::TextBox { x0: a, y0: b, x1: c, y1: d, text: t, xoff: e, yoff: f, mode: m, index: i } => a == x0
            && b == y0 && c == x1 && d == y1 && t@ == text && e == xoff && f == yoff && m == mode && i == index,
        _ => false,
    }
}

/// `after` is `before` with one more item, which satisfies `last`.
pub open spec fn one_more(before: Seq<Paint>, after: Seq<Paint>) -> bool {
    after.len() == before.len() + 1 && after.subrange(0, before.len() as int) == before
}

/// `chars` holds the characters of `s`.
fn chars_of(s: &str) -> (chars: Vec<char>)
    ensures
        chars@ == s@,
{
    let n = s.unicode_len();
    let mut chars: Vec<char> = Vec::new();
    let mut i: usize = 0;
    while i < n
        invariant
            n == s@.len(),
            0 <= i <= n,
            chars@ == s@.subrange(0, i as int),
        decreases n - i,
    {
        chars.push(s.get_char(i));
        i += 1;
        assert(chars@ =~= s@.subrange(0, i as int));
    }
    assert(s@.subrange(0, n as int) =~= s@);
    chars
}

impl Ui {
    /// An interface with nothing active or hot, the brush tool chosen, the
    /// pointer and everything else at zero, and nothing painted.
    pub fn new() -> (u: Self)
        ensures
            u.state == spec_initial_control(),
            u.delayrect@.len() == 0,
            u.paint@.len() == 0,
    {
        Ui {
            state: Control {
                tool: 1,
                active_event: Event::Paint,
                active_id: 0,
                hot_id: 0,
                next_hot_id: 0,
                event: Event::Paint,
                mx: 0,
                my: 0,
                dx: 0,
                dy: 0,
                accum_x: 0,
                accum_y: 0,
                has_selection: false,
                select_x0: 0,
                select_y0: 0,
                select_x1: 0,
                select_y1: 0,
                sx: 0,
                sy: 0,
                x0: 0,
                y0: 0,
                x1: 0,
                y1: 0,
                left_width: 0,
                right_width: 0,
            },
            delayrect: Vec::new(),
            paint: Vec::new(),
        }
    }

    pub fn set_sidewidths(&mut self, left: usize, right: usize)
        ensures
            final(self).state == (Control { left_width: left, right_width: right, ..old(self).state }),
            final(self).delayrect@ == old(self).delayrect@,
            final(self).paint@ == old(self).paint@,
    {
        self.state.left_width = left;
        self.state.right_width = right;
    }

    pub fn set_display(&mut self, x0: usize, y0: usize, x1: usize, y1: usize)
        ensures
            final(self).state == (Control { x0, y0, x1, y1, ..old(self).state }),
            final(self).delayrect@ == old(self).delayrect@,
            final(self).paint@ == old(self).paint@,
    {
        self.state.x0 = x0;
        self.state.y0 = y0;
        self.state.x1 = x1;
        self.state.y1 = y1;
    }

    /// Keeps a frame to draw after everything else; beyond the first 256 the
    /// frames are dropped.
    pub fn draw_frame_delayed(&mut self, x0: usize, y0: usize, x1: usize, y1: usize, color: u32)
        requires
            old(self).delayrect@.len() <= MAX_DELAYRECT,
        ensures
            final(self).state == old(self).state,
            final(self).paint@ == old(self).paint@,
            final(self).delayrect@ == if old(self).delayrect@.len() < MAX_DELAYRECT {
                old(self).delayrect@.push(ColorRect { x0, y0, x1, y1, color })
            } else {
                old(self).delayrect@
            },
            final(self).delayrect@.len() <= MAX_DELAYRECT,
    {
        if self.delayrect.len() < MAX_DELAYRECT {
            self.delayrect.push(ColorRect { x0, y0, x1, y1, color });
        }
    }

    /// Makes widget `id` the active one (0: none).
    pub fn activate(&mut self, id: u32)
        ensures
            final(self).state == spec_activate(old(self).state, id),
            final(self).delayrect@ == old(self).delayrect@,
            final(self).paint@ == old(self).paint@,
    {
        self.state.active_id = id;
        self.state.active_event = self.state.event;
        self.state.accum_x = 0;
        self.state.accum_y = 0;
    }

    /// Whether the pointer is over the rectangle from `(x0, y0)` up to
    /// `(x1, y1)`; if so, and the event is not a tick, widget `id` becomes
    /// the next hot one.
    pub fn hittest(&mut self, x0: usize, y0: usize, x1: usize, y1: usize, id: u32) -> (over: bool)
        ensures
            over == spec_over(old(self).state, x0 as int, y0 as int, x1 as int, y1 as int),
            final(self).state == spec_hittest(old(self).state, x0 as int, y0 as int, x1 as int, y1 as int, id),
            final(self).delayrect@ == old(self).delayrect@,
            final(self).paint@ == old(self).paint@,
    {
        let mx = self.state.mx;
        let my = self.state.my;
        let over = mx >= 0 && my >= 0 && (mx as usize) >= x0 && (my as usize) >= y0 && (mx as usize) < x1
            && (my as usize) < y1;
        if over && self.state.event != Event::Tick {
            self.state.next_hot_id = id;
        }
        over
    }

    /// Whether exactly one map cell is selected.
    pub fn is_single_selection(&self) -> (b: bool)
        ensures
            b == (self.state.has_selection && self.state.select_x0 == self.state.select_x1
                && self.state.select_y0 == self.state.select_y1),
    {
        self.state.has_selection && self.state.select_x0 == self.state.select_x1 && self.state.select_y0
            == self.state.select_y1
    }

    /// Makes map cell `(x, y)` the active widget and remembers the cell.
    pub fn activate_map(&mut self, x: u32, y: u32)
        requires
            id2_fits(1, y, x),
            x <= i32::MAX,
            y <= i32::MAX,
        ensures
            final(self).state == (Control {
                active_id: spec_id(1, spec_pair(y, x) as u32) as u32,
                active_event: old(self).state.event,
                sx: x as isize,
                sy: y as isize,
                ..old(self).state
            }),
            final(self).delayrect@ == old(self).delayrect@,
            final(self).paint@ == old(self).paint@,
    {
        self.state.active_id = idmap(x, y);
        self.state.active_event = self.state.event;
        self.state.sx = x as isize;
        self.state.sy = y as isize;
    }

    pub fn inactive(&self) -> (b: bool)
        ensures
            b == (self.state.active_id == 0),
    {
        self.state.active_id == 0
    }

    pub fn is_active(&self, id: u32) -> (b: bool)
        ensures
            b == (self.state.active_id == id),
    {
        self.state.active_id == id
    }

    pub fn is_hot(&self, id: u32) -> (b: bool)
        ensures
            b == (self.state.hot_id == id),
    {
        self.state.hot_id == id
    }

    /// The color state of widget `id`.
    pub fn index_for_id(&self, id: u32, disable: bool, select: bool) -> (i: usize)
        ensures
            i == spec_index_for_id(self.state, id, disable, select),
    {
        let down = self.state.active_id == id;
        let over = self.state.hot_id == id;
        if !disable {
            if down {
                if over { 3 } else { 2 }
            } else if select {
                if over { 5 } else { 4 }
            } else if over {
                1
            } else {
                0
            }
        } else if select && !down {
            if over { 5 } else { 4 }
        } else {
            6
        }
    }

    /// Paints a box in color scheme `mode`, state `index`.
    pub fn draw_box(&mut self, x0: usize, y0: usize, x1: usize, y1: usize, mode: ColorMode, index: usize)
        ensures
            final(self).state == old(self).state,
            final(self).delayrect@ == old(self).delayrect@,
            final(self).paint@ == old(self).paint@.push(Paint::Box { x0, y0, x1, y1, mode, index }),
    {
        self.paint.push(Paint::Box { x0, y0, x1, y1, mode, index });
    }

    /// Paints a box with `text` in it, offset by `(xoff, yoff)`.
    pub fn draw_textbox(
        &mut self,
        x0: usize,
        y0: usize,
        x1: usize,
        y1: usize,
        text: &str,
        xoff: usize,
        yoff: usize,
        mode: ColorMode,
        index: usize,
    )
        ensures
            final(self).state == old(self).state,
            final(self).delayrect@ == old(self).delayrect@,
            one_more(old(self).paint@, final(self).paint@),
            is_textbox(
                final(self).paint@.last(),
                x0 as int,
                y0 as int,
                x1 as int,
                y1 as int,
                text@,
                xoff as int,
                yoff as int,
                mode,
                index,
            ),
    {
        let chars = chars_of(text);
        self.paint.push(Paint::TextBox { x0, y0, x1, y1, text: chars, xoff, yoff, mode, index });
        assert(self.paint@.subrange(0, old(self).paint@.len() as int) =~= old(self).paint@);
    }

    /// Paints a box with the character `ch` in it.
    fn draw_charbox(
        &mut self,
        x0: usize,
        y0: usize,
        x1: usize,
        y1: usize,
        ch: char,
        xoff: usize,
        yoff: usize,
        mode: ColorMode,
        index: usize,
    )
        ensures
            final(self).state == old(self).state,
            final(self).delayrect@ == old(self).delayrect@,
            one_more(old(self).paint@, final(self).paint@),
            is_textbox(
                final(self).paint@.last(),
                x0 as int,
                y0 as int,
                x1 as int,
                y1 as int,
                seq![ch],
                xoff as int,
                yoff as int,
                mode,
                index,
            ),
    {
        let mut chars: Vec<char> = Vec::new();
        chars.push(ch);
        self.paint.push(Paint::TextBox { x0, y0, x1, y1, text: chars, xoff, yoff, mode, index });
        assert(chars@ =~= seq![ch]);
        assert(self.paint@.subrange(0, old(self).paint@.len() as int) =~= old(self).paint@);
    }
}

/// The rectangles among `paint`, in order.
pub open spec fn rects_of(paint: Seq<Paint>) -> Seq<ColorRect>
    decreases paint.len(),
{
    if paint.len() == 0 {
        Seq::empty()
    } else {
        match paint.last() {
            Paint::Rect(r) => rects_of(paint.drop_last()).push(r),
            _ => rects_of(paint.drop_last()),
        }
    }
}

impl Draw for Ui {
    /// The rectangles the interface painted.
    open spec fn drawn(&self) -> Seq<ColorRect> {
        rects_of(self.paint@)
    }

    fn rect(&mut self, x0: usize, y0: usize, x1: usize, y1: usize, color: u32)
        ensures
            final(self).state == old(self).state,
            final(self).delayrect@ == old(self).delayrect@,
            final(self).paint@ == old(self).paint@.push(Paint::Rect(ColorRect { x0, y0, x1, y1, color })),
    {
        self.paint.push(Paint::Rect(ColorRect { x0, y0, x1, y1, color }));
        assert(self.paint@.drop_last() =~= old(self).paint@);
    }
}

impl Ui {
    /// The click logic of a button `id`: see `spec_button_core`.
    pub fn button_core(&mut self, id: u32) -> (r: Option<bool>)
        ensures
            (final(self).state, r) == spec_button_core(old(self).state, id),
            final(self).delayrect@ == old(self).delayrect@,
            final(self).paint@ == old(self).paint@,
    {
        match self.state.event {
            Event::LeftDown => {
                if self.is_hot(id) && self.inactive() {
                    self.activate(id);
                }
            },
            Event::LeftUp => {
                if self.is_active(id) && self.is_hot(id) {
                    self.activate(0);
                    return Some(true);
                }
            },
            Event::RightDown => {
                if self.is_hot(id) && self.inactive() {
                    self.activate(id);
                }
            },
            Event::RightUp => {
                if self.is_active(id) && self.is_hot(id) {
                    self.activate(0);
                    return None;
                }
            },
            _ => {},
        }
        Some(false)
    }
}

/// The paint of a widget: when the event is `Paint`, one more item that
/// satisfies `item`; otherwise nothing.
pub open spec fn paints(event: Event, before: Seq<Paint>, after: Seq<Paint>, item: bool) -> bool {
    if event == Event::Paint {
        one_more(before, after) && item
    } else {
        after == before
    }
}

/// The padding that centres character `ch` in a nine-pixel cell.
pub open spec fn center_pad(ch: char) -> int {
    (9 - char_width(ch)) / 2
}

impl Ui {
    /// A text button of `width` at `(x, y)`. It is painted (in its disabled
    /// state if `disabled`, selected if `toggled`), and hit tested unless
    /// disabled; its click logic runs only when `disabled` is set, and the
    /// result is true for a finished left click then.
    pub fn button(
        &mut self,
        colormode: ColorMode,
        label: &str,
        x: usize,
        y: usize,
        textoff: usize,
        width: usize,
        id: u32,
        toggled: bool,
        disabled: bool,
    ) -> (clicked: bool)
        requires
            x + width <= usize::MAX,
            y + BUTTON_HEIGHT <= usize::MAX,
            BUTTON_INTERNAL_SPACING + textoff <= usize::MAX,
        ensures
            ({
                let c0 = old(self).state;
                let c1 = if disabled {
                    c0
                } else {
                    spec_hittest(c0, x as int, y as int, x + width, y + BUTTON_HEIGHT, id)
                };
                let (c2, r) = if disabled { spec_button_core(c1, id) } else { (c1, Some(false)) };
                &&& final(self).state == c2
                &&& clicked == (disabled && r == Some(true))
                &&& paints(
                    c0.event,
                    old(self).paint@,
                    final(self).paint@,
                    is_textbox(
                        final(self).paint@.last(),
                        x as int,
                        y as int,
                        x + width,
                        y + BUTTON_HEIGHT,
                        label@,
                        BUTTON_INTERNAL_SPACING + textoff,
                        BUTTON_INTERNAL_SPACING as int,
                        colormode,
                        spec_index_for_id(c1, id, disabled, toggled),
                    ),
                )
            }),
            final(self).delayrect@ == old(self).delayrect@,
    {
        let x0 = x;
        let y0 = y;
        let x1 = x + width;
        let y1 = y + BUTTON_HEIGHT;
        let s = BUTTON_INTERNAL_SPACING;
        let _over = !disabled && self.hittest(x0, y0, x1, y1, id);
        if self.state.event == Event::Paint {
            let idx = self.index_for_id(id, disabled, toggled);
            self.draw_textbox(x0, y0, x1, y1, label, s + textoff, s, colormode, idx);
        }
        disabled && self.button_core(id) == Some(true)
    }

    /// A button of `width` at `(x, y)` showing the icon character `ch`
    /// centred. It is hit tested and painted; its click logic runs only when
    /// `disabled` is set, and the result is true for a finished left click
    /// then.
    pub fn button_icon(
        &mut self,
        colormode: ColorMode,
        ch: char,
        x: usize,
        y: usize,
        width: usize,
        id: u32,
        toggled: bool,
        disabled: bool,
    ) -> (clicked: bool)
        requires
            has_width(ch),
            x + width <= usize::MAX,
            y + BUTTON_HEIGHT <= usize::MAX,
        ensures
            ({
                let c0 = old(self).state;
                let c1 = spec_hittest(c0, x as int, y as int, x + width, y + BUTTON_HEIGHT, id);
                let (c2, r) = if disabled { spec_button_core(c1, id) } else { (c1, Some(false)) };
                &&& final(self).state == c2
                &&& clicked == (disabled && r == Some(true))
                &&& paints(
                    c0.event,
                    old(self).paint@,
                    final(self).paint@,
                    is_textbox(
                        final(self).paint@.last(),
                        x as int,
                        y as int,
                        x + width,
                        y + BUTTON_HEIGHT,
                        seq![ch],
                        BUTTON_INTERNAL_SPACING + center_pad(ch),
                        BUTTON_INTERNAL_SPACING as int,
                        colormode,
                        spec_index_for_id(c1, id, disabled, toggled),
                    ),
                )
            }),
            final(self).delayrect@ == old(self).delayrect@,
    {
        let x0 = x;
        let y0 = y;
        let x1 = x + width;
        let y1 = y + BUTTON_HEIGHT;
        let s = BUTTON_INTERNAL_SPACING;
        let _over = self.hittest(x0, y0, x1, y1, id);
        if self.state.event == Event::Paint {
            let pad = (9 - get_char_width(ch)) / 2;
            let idx = self.index_for_id(id, disabled, toggled);
            self.draw_charbox(x0, y0, x1, y1, ch, s + pad, s, colormode, idx);
        }
        disabled && self.button_core(id) == Some(true)
    }

    /// A small eight by seven button showing `ch`.
    pub fn minibutton(&mut self, colormode: ColorMode, x: usize, y: usize, ch: char, id: u32) -> (r: Option<
        bool,
    >)
        requires
            x + 8 <= usize::MAX,
            y + 7 <= usize::MAX,
        ensures
            ({
                let c0 = old(self).state;
                let c1 = spec_hittest(c0, x as int, y as int, x + 8, y + 7, id);
                &&& (final(self).state, r) == spec_button_core(c1, id)
                &&& paints(
                    c0.event,
                    old(self).paint@,
                    final(self).paint@,
                    is_textbox(
                        final(self).paint@.last(),
                        x as int,
                        y as int,
                        x + 8,
                        y + 7,
                        seq![ch],
                        1,
                        0,
                        colormode,
                        spec_index_for_id(c1, id, false, false),
                    ),
                )
            }),
            final(self).delayrect@ == old(self).delayrect@,
    {
        let x0 = x;
        let y0 = y;
        let x1 = x + 8;
        let y1 = y + 7;
        let _over = self.hittest(x0, y0, x1, y1, id);
        if self.state.event == Event::Paint {
            let idx = self.index_for_id(id, false, false);
            self.draw_charbox(x0, y0, x1, y1, ch, 1, 0, colormode, idx);
        }
        self.button_core(id)
    }

    /// A ten by eleven layer button showing `ch` centred; a disabled one is
    /// neither hit tested nor clicked.
    pub fn layerbutton(
        &mut self,
        x: usize,
        y: usize,
        ch: char,
        id: u32,
        toggled: bool,
        disabled: bool,
        colormode: ColorMode,
    ) -> (r: Option<bool>)
        requires
            has_width(ch),
            x + 10 <= usize::MAX,
            y + 11 <= usize::MAX,
        ensures
            ({
                let c0 = old(self).state;
                let c1 = if disabled { c0 } else { spec_hittest(c0, x as int, y as int, x + 10, y + 11, id) };
                &&& (final(self).state, r) == if disabled {
                    (c1, Some(false))
                } else {
                    spec_button_core(c1, id)
                }
                &&& paints(
                    c0.event,
                    old(self).paint@,
                    final(self).paint@,
                    is_textbox(
                        final(self).paint@.last(),
                        x as int,
                        y as int,
                        x + 10,
                        y + 11,
                        seq![ch],
                        center_pad(ch) + 1,
                        2,
                        colormode,
                        spec_index_for_id(c1, id, disabled, toggled),
                    ),
                )
            }),
            final(self).delayrect@ == old(self).delayrect@,
    {
        let x0 = x;
        let y0 = y;
        let x1 = x + 10;
        let y1 = y + 11;
        let _over = !disabled && self.hittest(x0, y0, x1, y1, id);
        if self.state.event == Event::Paint {
            let off = (9 - get_char_width(ch)) / 2;
            let idx = self.index_for_id(id, disabled, toggled);
            self.draw_charbox(x0, y0, x1, y1, ch, off + 1, 2, colormode, idx);
        }
        if disabled {
            Some(false)
        } else {
            self.button_core(id)
        }
    }

    /// A square button of `size`, painted as a plain box.
    pub fn microbutton(&mut self, x: usize, y: usize, size: usize, id: u32, colormode: ColorMode) -> (r: Option<
        bool,
    >)
        requires
            x + size <= usize::MAX,
            y + size <= usize::MAX,
        ensures
            ({
                let c0 = old(self).state;
                let c1 = spec_hittest(c0, x as int, y as int, x + size, y + size, id);
                &&& (final(self).state, r) == spec_button_core(c1, id)
                &&& paints(
                    c0.event,
                    old(self).paint@,
                    final(self).paint@,
                    is_box(
                        final(self).paint@.last(),
                        x as int,
                        y as int,
                        x + size,
                        y + size,
                        colormode,
                        spec_index_for_id(c1, id, false, false),
                    ),
                )
            }),
            final(self).delayrect@ == old(self).delayrect@,
    {
        let x0 = x;
        let y0 = y;
        let x1 = x + size;
        let y1 = y + size;
        let _over = self.hittest(x0, y0, x1, y1, id);
        if self.state.event == Event::Paint {
            let idx = self.index_for_id(id, false, false);
            self.draw_box(x0, y0, x1, y1, colormode, idx);
            assert(self.paint@.subrange(0, old(self).paint@.len() as int) =~= old(self).paint@);
        }
        self.button_core(id)
    }

    /// A text button of `width` for a category; true for a finished left
    /// click.
    pub fn category_button(&mut self, label: &str, x: usize, y: usize, width: usize, id: u32, toggled: bool) -> (clicked:
        bool)
        requires
            x + width <= usize::MAX,
            y + BUTTON_HEIGHT <= usize::MAX,
        ensures
            ({
                let c0 = old(self).state;
                let c1 = spec_hittest(c0, x as int, y as int, x + width, y + BUTTON_HEIGHT, id);
                let (c2, r) = spec_button_core(c1, id);
                &&& final(self).state == c2
                &&& clicked == (r == Some(true))
                &&& paints(
                    c0.event,
                    old(self).paint@,
                    final(self).paint@,
                    is_textbox(
                        final(self).paint@.last(),
                        x as int,
                        y as int,
                        x + width,
                        y + BUTTON_HEIGHT,
                        label@,
                        BUTTON_INTERNAL_SPACING as int,
                        BUTTON_INTERNAL_SPACING as int,
                        ColorMode::CategoryButton,
                        spec_index_for_id(c1, id, false, toggled),
                    ),
                )
            }),
            final(self).delayrect@ == old(self).delayrect@,
    {
        let x0 = x;
        let y0 = y;
        let x1 = x + width;
        let y1 = y + BUTTON_HEIGHT;
        let s = BUTTON_INTERNAL_SPACING;
        let _over = self.hittest(x0, y0, x1, y1, id);
        if self.state.event == Event::Paint {
            let idx = self.index_for_id(id, false, toggled);
            self.draw_textbox(x0, y0, x1, y1, label, s, s, ColorMode::CategoryButton, idx);
        }
        self.button_core(id) == Some(true)
    }
}

/// The dragger's step for widget `id` after hit testing gave `c`, with the
/// dragged value at `pos`: the new state, the new value and the result.
pub open spec fn spec_dragger(c: Control, id: u32, pos: isize) -> (Control, isize, Option<bool>) {
    match c.event {
        Event::Paint => (c, pos, Some(false)),
        Event::LeftDown => if c.hot_id == id && c.active_id == 0 {
            (Control { sx: (c.mx - pos) as isize, ..spec_activate(c, id) }, pos, Some(false))
        } else {
            (c, pos, Some(false))
        },
        Event::MouseMove => if c.active_id == id && c.active_event == Event::LeftDown {
            (c, (c.mx - c.sx) as isize, Some(false))
        } else {
            (c, pos, Some(false))
        },
        Event::LeftUp => if c.active_id == id {
            (spec_activate(c, 0), pos, Some(false))
        } else {
            (c, pos, Some(false))
        },
        _ => {
            let (c2, r) = spec_button_core(c, id);
            (c2, pos, r)
        },
    }
}

/// The dragger's arithmetic stays within `isize`.
pub open spec fn dragger_fits(c: Control, id: u32, pos: isize) -> bool {
    &&& (c.event == Event::LeftDown && c.hot_id == id && c.active_id == 0) ==> isize::MIN <= c.mx - pos
        <= isize::MAX
    &&& (c.event == Event::MouseMove && c.active_id == id && c.active_event == Event::LeftDown) ==> isize::MIN
        <= c.mx - c.sx <= isize::MAX
}

/// Dragging a handle follows the pointer. A left press on the hot handle
/// while no widget is active makes it the active widget, anchors the pointer
/// (`sx` is the pointer minus the position) and keeps the position. Each
/// pointer move while that press is active leaves the interface state as it
/// is and puts the handle at its position at the press plus how far the
/// pointer has moved since. A left release on the active handle lets go and
/// keeps the position.
pub proof fn lemma_dragger_follows_pointer(c0: Control, id: u32, p0: isize, c1: Control, p1: isize, c2: Control, p2: isize)
    requires
        c0.event == Event::LeftDown,
        c0.hot_id == id,
        c0.active_id == 0,
        dragger_fits(c0, id, p0),
        c1.event == Event::MouseMove,
        c1.active_id == id,
        c1.active_event == Event::LeftDown,
        c1.sx == spec_dragger(c0, id, p0).0.sx,
        isize::MIN <= c1.mx - c1.sx <= isize::MAX,
        c2.event == Event::LeftUp,
        c2.active_id == id,
    ensures
        ({
            let (d0, q0, r0) = spec_dragger(c0, id, p0);
            &&& d0.active_id == id
            &&& d0.active_event == Event::LeftDown
            &&& d0.sx == c0.mx - p0
            &&& q0 == p0
            &&& r0 == Some(false)
        }),
        ({
            let (d1, q1, r1) = spec_dragger(c1, id, p1);
            &&& d1 == c1
            &&& q1 == p0 + (c1.mx - c0.mx)
            &&& r1 == Some(false)
        }),
        ({
            let (d2, q2, r2) = spec_dragger(c2, id, p2);
            &&& d2.active_id == 0
            &&& q2 == p2
            &&& r2 == Some(false)
        }),
{
}

/// The slider's handle position for `value` in `0 ..= range` over `w` pixels.
pub open spec fn slider_pos(value: isize, w: usize, range: isize) -> int {
    trunc_div(value * w, range + 1)
}

/// The slider value for the pointer at `mx`: the position over the slider
/// scaled to the range, clamped to `0 ..= range`.
pub open spec fn slider_value(mx: isize, x0: usize, w: usize, range: isize) -> isize {
    let v = trunc_div((mx - x0) * (range + 1), w as int);
    if v < 0 { 0 } else if v > range { range } else { v as isize }
}

/// The slider's step for widget `id` after hit testing gave `c`: the new
/// state, the new value and the result.
pub open spec fn spec_slider(c: Control, x0: usize, w: usize, range: isize, value: isize, id: u32) -> (
    Control,
    isize,
    Option<Change>,
) {
    match c.event {
        Event::LeftDown | Event::MouseMove => {
            let begins = c.event == Event::LeftDown && c.hot_id == id && c.active_id == 0;
            let c2 = if begins { spec_activate(c, id) } else { c };
            if c2.active_id == id {
                (c2, slider_value(c.mx, x0, w, range), Some(if begins { Change::Begin } else { Change::Change }))
            } else {
                (c2, value, None)
            }
        },
        Event::LeftUp => if c.active_id == id {
            (spec_activate(c, 0), value, Some(Change::End))
        } else {
            (c, value, None)
        },
        _ => (c, value, None),
    }
}

/// The slider's arithmetic stays within the machine's integers.
pub open spec fn slider_fits(c: Control, x0: usize, w: usize, y: usize, range: isize, value: isize, id: u32) -> bool {
    let pos = slider_pos(value, w, range);
    let begins = c.event == Event::LeftDown && c.hot_id == id && c.active_id == 0;
    let drags = (c.event == Event::LeftDown || c.event == Event::MouseMove) && (begins || c.active_id == id);
    &&& x0 + w <= usize::MAX
    &&& w <= isize::MAX
    &&& 2 <= y && y + 3 <= usize::MAX
    &&& isize::MIN <= value * w <= isize::MAX
    &&& range + 1 <= isize::MAX
    &&& range + 1 != 0
    &&& !(value * w == isize::MIN && range + 1 == -1)
    &&& c.event == Event::Paint ==> (0 <= pos && 1 <= x0 + pos && x0 + pos + 2 <= usize::MAX)
    &&& drags ==> {
        &&& w != 0
        &&& x0 <= isize::MAX
        &&& isize::MIN <= c.mx - x0 <= isize::MAX
        &&& isize::MIN <= (c.mx - x0) * (range + 1) <= isize::MAX
    }
}

impl Ui {
    /// A square handle of `size` at `(x, y)` that drags the value `pos`
    /// along with the pointer: a left press on it anchors the pointer, moves
    /// with the button held set `pos` to the pointer minus the anchor, and a
    /// left release lets go.
    pub fn microbutton_dragger(&mut self, x: usize, y: usize, size: usize, id: u32, pos: &mut isize) -> (r: Option<
        bool,
    >)
        requires
            x + size <= usize::MAX,
            y + size <= usize::MAX,
            dragger_fits(
                spec_hittest(old(self).state, x as int, y as int, x + size, y + size, id),
                id,
                *old(pos),
            ),
        ensures
            ({
                let c0 = old(self).state;
                let c1 = spec_hittest(c0, x as int, y as int, x + size, y + size, id);
                &&& (final(self).state, *final(pos), r) == spec_dragger(c1, id, *old(pos))
                &&& paints(
                    c0.event,
                    old(self).paint@,
                    final(self).paint@,
                    is_box(
                        final(self).paint@.last(),
                        x as int,
                        y as int,
                        x + size,
                        y + size,
                        ColorMode::Expander,
                        spec_index_for_id(c1, id, false, false),
                    ),
                )
            }),
            final(self).delayrect@ == old(self).delayrect@,
    {
        let x0 = x;
        let y0 = y;
        let x1 = x + size;
        let y1 = y + size;
        let _over = self.hittest(x0, y0, x1, y1, id);
        match self.state.event {
            Event::Paint => {
                let idx = self.index_for_id(id, false, false);
                self.draw_box(x0, y0, x1, y1, ColorMode::Expander, idx);
                assert(self.paint@.subrange(0, old(self).paint@.len() as int) =~= old(self).paint@);
            },
            Event::LeftDown => {
                if self.is_hot(id) && self.inactive() {
                    self.activate(id);
                    self.state.sx = self.state.mx - *pos;
                }
            },
            Event::MouseMove => {
                if self.is_active(id) && self.state.active_event == Event::LeftDown {
                    *pos = self.state.mx - self.state.sx;
                }
            },
            Event::LeftUp => {
                if self.is_active(id) {
                    self.activate(0);
                }
            },
            _ => {
                return self.button_core(id);
            },
        }
        Some(false)
    }

    /// A horizontal slider of `w` pixels at `(x0, y)` for `value` in
    /// `0 ..= range`: painted as a bar with a handle; a left press on it
    /// starts a drag (`Begin`), moves while dragging set the value from the
    /// pointer (`Change`), and the release ends the drag (`End`). `None` when
    /// the value is not being dragged.
    pub fn slider(&mut self, x0: usize, w: usize, y: usize, range: isize, value: &mut isize, id: u32) -> (r: Option<
        Change,
    >)
        requires
            slider_fits(
                spec_hittest(old(self).state, x0 as int, y - 2, x0 + w, y + 3, id),
                x0,
                w,
                y,
                range,
                *old(value),
                id,
            ),
        ensures
            ({
                let c0 = old(self).state;
                let c1 = spec_hittest(c0, x0 as int, y - 2, x0 + w, y + 3, id);
                let pos = slider_pos(*old(value), w, range);
                &&& (final(self).state, *final(value), r) == spec_slider(c1, x0, w, range, *old(value), id)
                &&& c0.event == Event::Paint ==> final(self).paint@ == old(self).paint@.push(
                    Paint::Rect(ColorRect { x0, y0: y, x1: (x0 + w) as usize, y1: (y + 1) as usize, color: 0x808080 }),
                ).push(
                    Paint::Rect(
                        ColorRect {
                            x0: (x0 + pos - 1) as usize,
                            y0: (y - 1) as usize,
                            x1: (x0 + pos + 2) as usize,
                            y1: (y + 2) as usize,
                            color: 0xffffff,
                        },
                    ),
                )
                &&& c0.event != Event::Paint ==> final(self).paint@ == old(self).paint@
            }),
            final(self).delayrect@ == old(self).delayrect@,
    {
        let x1 = x0 + w;
        let wi = w as isize;
        assert(wi == w);
        let prod = *value * wi;
        assert(prod == *old(value) * w);
        let d = range + 1;
        // Rust's division rounds towards zero whatever the signs; dividing by
        // a negative `d` is dividing by `-d` and negating.
        let pos = if d > 0 {
            prod / d
        } else {
            let e = -d;
            let q = prod / e;
            proof {
                lemma_div_by_negative(prod as int, e as int);
            }
            -q
        };
        assert(pos == trunc_div(prod as int, d as int));
        assert(pos == slider_pos(*old(value), w, range));
        let _over = self.hittest(x0, y - 2, x1, y + 3, id);
        let ev = self.state.event;
        let leftdown = self.state.event == Event::LeftDown;
        match ev {
            Event::Paint => {
                self.rect(x0, y, x1, y + 1, 0x808080);
                self.rect(x0 + pos as usize - 1, y - 1, x0 + pos as usize + 2, y + 2, 0xffffff);
            },
            Event::LeftDown | Event::MouseMove => {
                let ev = if leftdown && self.is_hot(id) && self.inactive() {
                    self.activate(id);
                    Change::Begin
                } else {
                    Change::Change
                };
                if self.is_active(id) {
                    let off = self.state.mx - x0 as isize;
                    let scaled = off * (range + 1);
                    let v = scaled / w as isize;
                    assert(v == trunc_div(scaled as int, w as int));
                    *value = if v < 0 {
                        0
                    } else if v > range {
                        range
                    } else {
                        v
                    };
                    return Some(ev);
                }
            },
            Event::LeftUp => {
                if self.is_active(id) {
                    self.activate(0);
                    return Some(Change::End);
                }
            },
            _ => {},
        }
        None
    }
}

/// Dividing by a negative number is dividing by its opposite and negating,
/// for division rounding towards zero.
proof fn lemma_div_by_negative(a: int, e: int)
    requires
        e > 0,
        !(a == isize::MIN && e == 1),
        isize::MIN <= a <= isize::MAX,
    ensures
        trunc_div(a, -e) == -trunc_div(a, e),
        isize::MIN < trunc_div(a, e) <= isize::MAX,
{
    if a >= 0 {
        let q = a / e;
        let r = a % e;
        vstd::arithmetic::div_mod::lemma_fundamental_div_mod(a, e);
        assert(a == (-q) * (-e) + r) by (nonlinear_arith)
            requires a == e * q + r;
        assert(a / (-e) == -q) by (nonlinear_arith)
            requires a == (-q) * (-e) + r, 0 <= r < e, e > 0;
        assert(0 <= q <= a) by (nonlinear_arith)
            requires a == e * q + r, 0 <= r < e, e > 0, a >= 0;
    } else {
        let b = -a;
        let q = b / e;
        let r = b % e;
        vstd::arithmetic::div_mod::lemma_fundamental_div_mod(b, e);
        assert(b / (-e) == -q) by (nonlinear_arith)
            requires b == e * q + r, 0 <= r < e, e > 0;
        assert(0 <= q <= b) by (nonlinear_arith)
            requires b == e * q + r, 0 <= r < e, e > 0, b >= 0;
        if e == 1 {
            assert(q == b) by (nonlinear_arith)
                requires b == e * q + r, 0 <= r < e, e == 1;
        } else {
            assert(q < b) by (nonlinear_arith)
                requires b == e * q + r, 0 <= r < e, e >= 2, b > 0;
        }
    }
}

/// A left press on the hot widget while none is active, then a left release
/// on it while it is still hot, is a click: the press reports no click and
/// makes the widget active, the release reports the click and leaves no
/// widget active.
pub proof fn lemma_press_release_clicks(c: Control, id: u32)
    requires
        c.active_id == 0,
        c.hot_id == id,
        id != 0,
    ensures
        ({
            let (c1, r1) = spec_button_core(Control { event: Event::LeftDown, ..c }, id);
            let (c2, r2) = spec_button_core(Control { event: Event::LeftUp, ..c1 }, id);
            &&& r1 == Some(false)
            &&& c1.active_id == id
            &&& r2 == Some(true)
            &&& c2.active_id == 0
        }),
{
}

/// While one widget is held, presses and releases on any other widget
/// change nothing and report no click.
pub proof fn lemma_other_widget_ignored(c: Control, id: u32)
    requires
        c.active_id != 0,
        c.active_id != id,
    ensures
        spec_button_core(c, id) == (c, Some(false)),
{
}

/// The value a slider sets lies in `0 ..= range`.
pub proof fn lemma_slider_value_in_range(mx: isize, x0: usize, w: usize, range: isize)
    requires
        range >= 0,
    ensures
        0 <= slider_value(mx, x0, w, range) <= range,
{
}

} // verus!
