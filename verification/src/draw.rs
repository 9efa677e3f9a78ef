//! Drawing primitives of the tile map editor, all made of filled
//! rectangles: lines, frames, bit-mask columns, bitmaps and text in the
//! built-in font.
use vstd::prelude::*;
use crate::font::{char_width, get_char_bitmap, get_char_width, glyph_start, has_glyph, GLYPHS};
use crate::font::data::widths_sum;
use vstd::string::*;
use crate::font::data::{entry, font_entry, lemma_column_entries};

verus! {

/// A filled rectangle from `(x0, y0)` up to, not including, `(x1, y1)`.
#[derive(Clone, Copy, Debug, PartialEq, Eq, Structural)]
pub struct ColorRect {
    pub x0: usize,
    pub y0: usize,
    pub x1: usize,
    pub y1: usize,
    pub color: u32,
}

pub open spec fn cr(x0: int, y0: int, x1: int, y1: int, color: u32) -> ColorRect {
    ColorRect { x0: x0 as usize, y0: y0 as usize, x1: x1 as usize, y1: y1 as usize, color }
}

pub open spec fn min_u(a: int, b: int) -> int {
    if a < b { a } else { b }
}

pub open spec fn max_u(a: int, b: int) -> int {
    if a < b { b } else { a }
}

/// The one-pixel-wide line from `(x0, y0)` to `(x1, y1)`, both ends included:
/// the rectangle they span, grown by one pixel to the right and down.
pub open spec fn spec_line(x0: int, y0: int, x1: int, y1: int, color: u32) -> ColorRect {
    cr(min_u(x0, x1), min_u(y0, y1), max_u(x0, x1) + 1, max_u(y0, y1) + 1, color)
}

pub fn line_rect(x0: usize, y0: usize, x1: usize, y1: usize, color: u32) -> (r: ColorRect)
    requires
        max_u(x0 as int, x1 as int) < usize::MAX,
        max_u(y0 as int, y1 as int) < usize::MAX,
    ensures
        r == spec_line(x0 as int, y0 as int, x1 as int, y1 as int, color),
{
    let (a, b) = if x1 < x0 { (x1, x0) } else { (x0, x1) };
    let (c, d) = if y1 < y0 { (y1, y0) } else { (y0, y1) };
    ColorRect { x0: a, y0: c, x1: b + 1, y1: d + 1, color }
}

/// The link from `(x0, y0)` to `(x1, y1)`: down (or up) from the start, then
/// across to the end.
pub open spec fn spec_link(x0: int, y0: int, x1: int, y1: int, color: u32) -> Seq<ColorRect> {
    seq![spec_line(x0, y0, x0, y1, color), spec_line(x0, y1, x1, y1, color)]
}

pub fn link_rects(x0: usize, y0: usize, x1: usize, y1: usize, color: u32) -> (rs: Vec<ColorRect>)
    requires
        max_u(x0 as int, x1 as int) < usize::MAX,
        max_u(y0 as int, y1 as int) < usize::MAX,
    ensures
        rs@ == spec_link(x0 as int, y0 as int, x1 as int, y1 as int, color),
{
    let mut rs = Vec::new();
    rs.push(line_rect(x0, y0, x0, y1, color));
    rs.push(line_rect(x0, y1, x1, y1, color));
    rs
}

/// The one-pixel frame just inside the rectangle from `(x0, y0)` to
/// `(x1, y1)`: top, right, bottom and left sides.
pub open spec fn spec_frame(x0: int, y0: int, x1: int, y1: int, color: u32) -> Seq<ColorRect> {
    seq![
        cr(x0, y0, x1 - 1, y0 + 1, color),
        cr(x1 - 1, y0, x1, y1 - 1, color),
        cr(x0 + 1, y1 - 1, x1, y1, color),
        cr(x0, y0 + 1, x0 + 1, y1, color),
    ]
}

pub fn frame_rects(x0: usize, y0: usize, x1: usize, y1: usize, color: u32) -> (rs: Vec<ColorRect>)
    requires
        x1 >= 1,
        y1 >= 1,
        x0 < usize::MAX,
        y0 < usize::MAX,
    ensures
        rs@ == spec_frame(x0 as int, y0 as int, x1 as int, y1 as int, color),
{
    let mut rs = Vec::new();
    rs.push(ColorRect { x0, y0, x1: x1 - 1, y1: y0 + 1, color });
    rs.push(ColorRect { x0: x1 - 1, y0, x1, y1: y1 - 1, color });
    rs.push(ColorRect { x0: x0 + 1, y0: y1 - 1, x1, y1, color });
    rs.push(ColorRect { x0, y0: y0 + 1, x1: x0 + 1, y1, color });
    rs
}

/// The top and left sides of the frame.
pub open spec fn spec_halfframe(x0: int, y0: int, x1: int, y1: int, color: u32) -> Seq<ColorRect> {
    seq![cr(x0, y0, x1, y0 + 1, color), cr(x0, y0 + 1, x0 + 1, y1, color)]
}

pub fn halfframe_rects(x0: usize, y0: usize, x1: usize, y1: usize, color: u32) -> (rs: Vec<ColorRect>)
    requires
        x0 < usize::MAX,
        y0 < usize::MAX,
    ensures
        rs@ == spec_halfframe(x0 as int, y0 as int, x1 as int, y1 as int, color),
{
    let mut rs = Vec::new();
    rs.push(ColorRect { x0, y0, x1, y1: y0 + 1, color });
    rs.push(ColorRect { x0, y0: y0 + 1, x1: x0 + 1, y1, color });
    rs
}

/// Bit `i` of `b` is set.
pub open spec fn bit_set(b: u16, i: int) -> bool {
    (b >> (i as u16)) & 1u16 == 1u16
}

/// The columns drawn for the bits of `b` from bit `i` on, where a run of set
/// bits began at bit `start` (or none did, when `start` is negative): one
/// rectangle, one pixel wide at `x`, for each run of set bits, from the row of
/// its first bit to that of its last.
pub open spec fn column_rects(x: int, y: int, b: u16, i: int, start: int, color: u32) -> Seq<ColorRect>
    decreases 16 - i,
{
    if i >= 16 || i < 0 {
        Seq::empty()
    } else if bit_set(b, i) {
        column_rects(x, y, b, i + 1, if start < 0 { i } else { start }, color)
    } else if start >= 0 {
        seq![cr(x, y + start, x + 1, y + i, color)] + column_rects(x, y, b, i + 1, -1, color)
    } else {
        column_rects(x, y, b, i + 1, -1, color)
    }
}

/// The column at `x` for the bit mask `bitmask`, bit 0 at row `y`: one
/// rectangle for each run of set bits.
pub open spec fn spec_bitmask(x: int, y: int, bitmask: i16, color: u32) -> Seq<ColorRect> {
    column_rects(x, y, bitmask as u16, 0, -1, color)
}

/// The rectangles of the column at `x` for the bit mask `bitmask`, whose
/// bit 0 is the pixel at row `y`: one rectangle for each run of set bits,
/// lowest first. The mask holds at most fourteen rows.
pub fn bitmask_as_columns(x: usize, y: usize, bitmask: i16, color: u32) -> (rs: Vec<ColorRect>)
    requires
        0 <= bitmask < 0x4000,
        x < usize::MAX,
        y + 16 <= usize::MAX,
    ensures
        rs@ == spec_bitmask(x as int, y as int, bitmask, color),
{
    let b = bitmask as u16;
    let mut rs: Vec<ColorRect> = Vec::new();
    let mut start: i16 = -1;
    let mut i: u16 = 0;
    while i < 16
        invariant
            0 <= i <= 16,
            -1 <= start < i,
            b == bitmask as u16,
            x < usize::MAX,
            y + 16 <= usize::MAX,
            rs@ + column_rects(x as int, y as int, b, i as int, start as int, color) == spec_bitmask(
                x as int,
                y as int,
                bitmask,
                color,
            ),
        decreases 16 - i,
    {
        let ghost before = rs@;
        if (b >> i) & 1 == 1 {
            if start < 0 {
                start = i as i16;
            }
        } else if start >= 0 {
            rs.push(ColorRect { x0: x, y0: y + start as usize, x1: x + 1, y1: y + i as usize, color });
            assert(rs@ + column_rects(x as int, y as int, b, i + 1, -1, color) =~= before
                + column_rects(x as int, y as int, b, i as int, start as int, color));
            start = -1;
        }
        i = i + 1;
    }
    assert(rs@ =~= rs@ + column_rects(x as int, y as int, b, 16, start as int, color));
    rs
}

/// The columns of a bitmap of `w` columns at `x`, in order.
pub open spec fn bitmap_cols(x: int, y: int, bits: Seq<i16>, w: int, color: u32) -> Seq<ColorRect>
    decreases w,
{
    if w <= 0 {
        Seq::empty()
    } else {
        bitmap_cols(x, y, bits, w - 1, color) + spec_bitmask(x + w - 1, y, bits[w - 1], color)
    }
}

/// The bitmap of `w` columns `bits` at `(x, y)`: each column a bit mask, bit 0
/// at the top.
pub fn bitmap(x: usize, y: usize, w: usize, bits: &[i16], color: u32) -> (rs: Vec<ColorRect>)
    requires
        w <= bits@.len(),
        forall|i: int| 0 <= i < w ==> 0 <= #[trigger] bits@[i] < 0x4000,
        x + w < usize::MAX,
        y + 16 <= usize::MAX,
    ensures
        rs@ == bitmap_cols(x as int, y as int, bits@, w as int, color),
{
    let mut rs: Vec<ColorRect> = Vec::new();
    let mut i: usize = 0;
    while i < w
        invariant
            0 <= i <= w,
            w <= bits@.len(),
            forall|k: int| 0 <= k < w ==> 0 <= #[trigger] bits@[k] < 0x4000,
            x + w < usize::MAX,
            y + 16 <= usize::MAX,
            rs@ == bitmap_cols(x as int, y as int, bits@, i as int, color),
        decreases w - i,
    {
        let mut col = bitmask_as_columns(x + i, y, bits[i], color);
        rs.append(&mut col);
        i += 1;
    }
    rs
}

/// The columns of glyph `c`: its entries of the font table.
pub open spec fn glyph_bits(c: char) -> Seq<i16> {
    Seq::new(char_width(c) as nat, |i: int| entry(glyph_start(c) + i) as i16)
}

/// The text `s` at `(x, y)`, one pixel between glyphs, cut before the first
/// glyph that would reach past `x_end`. With `digitspace`, a space advances as
/// far as a digit does.
pub open spec fn spec_text(x: int, y: int, s: Seq<char>, x_end: int, color: u32, digitspace: bool) -> Seq<ColorRect>
    decreases s.len(),
{
    if s.len() == 0 {
        Seq::empty()
    } else {
        let c = s[0];
        let cw = char_width(c);
        if x + cw > x_end {
            Seq::empty()
        } else {
            let advance = if digitspace && c == ' ' { char_width('0') } else { cw };
            bitmap_cols(x, y, glyph_bits(c), cw, color) + spec_text(
                x + advance + 1,
                y,
                s.drop_first(),
                x_end,
                color,
                digitspace,
            )
        }
    }
}

/// The glyph columns of `c`, copied out of the font table.
fn glyph(offsets: &Vec<i16>, c: char) -> (bits: Vec<i16>)
    requires
        has_glyph(c),
        offsets@.len() == GLYPHS,
        forall|i: int| 0 <= i < GLYPHS ==> #[trigger] offsets@[i] == 111 + widths_sum(i as nat),
    ensures
        bits@ == glyph_bits(c),
        forall|i: int| 0 <= i < bits@.len() ==> 0 <= #[trigger] bits@[i] < 0x4000,
{
    let start = get_char_bitmap(offsets, c);
    let cw = get_char_width(c);
    proof {
        lemma_column_entries();
    }
    let mut bits: Vec<i16> = Vec::new();
    let mut k: usize = 0;
    while k < cw
        invariant
            0 <= k <= cw,
            cw == char_width(c),
            start == glyph_start(c),
            111 <= start,
            start + cw <= 769,
            bits@.len() == k,
            forall|i: int| 0 <= i < k ==> #[trigger] bits@[i] == entry(start + i) as i16,
            forall|i: int| 0 <= i < k ==> 0 <= #[trigger] bits@[i] < 0x4000,
            forall|i: int| 111 <= i < 769 ==> 0 <= #[trigger] entry(i) < 512,
        decreases cw - k,
    {
        let v = font_entry(start + k);
        assert(0 <= entry((start + k) as int) < 512);
        bits.push(v);
        k += 1;
    }
    assert(bits@ =~= glyph_bits(c));
    bits
}

/// The text `s` drawn at `(x, y)` in the built-in font within `w` pixels:
/// glyphs one pixel apart, cut before the first that would not fit. With
/// `digitspace`, a space takes as much room as a digit. `offsets` is the table
/// that `init_font` makes.
pub fn text_core(
    x: usize,
    y: usize,
    s: &str,
    w: usize,
    color: u32,
    digitspace: bool,
    offsets: &Vec<i16>,
) -> (rs: Vec<ColorRect>)
    requires
        forall|i: int| 0 <= i < s@.len() ==> has_glyph(#[trigger] s@[i]),
        offsets@.len() == GLYPHS,
        forall|i: int| 0 <= i < GLYPHS ==> #[trigger] offsets@[i] == 111 + widths_sum(i as nat),
        x + w + 32 <= usize::MAX,
        y + 16 <= usize::MAX,
    ensures
        rs@ == spec_text(x as int, y as int, s@, x + w, color, digitspace),
{
    let x_end = x + w;
    let n = s.unicode_len();
    let mut rs: Vec<ColorRect> = Vec::new();
    let mut cx = x;
    let mut i: usize = 0;
    proof {
        assert(s@.subrange(0, n as int) =~= s@);
    }
    while i < n
        invariant_except_break
            n == s@.len(),
            0 <= i <= n,
            cx <= x_end + 10,
            x_end == x + w,
            x + w + 32 <= usize::MAX,
            y + 16 <= usize::MAX,
            forall|k: int| 0 <= k < s@.len() ==> has_glyph(#[trigger] s@[k]),
            offsets@.len() == GLYPHS,
            forall|k: int| 0 <= k < GLYPHS ==> #[trigger] offsets@[k] == 111 + widths_sum(k as nat),
            rs@ + spec_text(cx as int, y as int, s@.subrange(i as int, n as int), x_end as int, color, digitspace)
                == spec_text(x as int, y as int, s@, x_end as int, color, digitspace),
        ensures
            rs@ == spec_text(x as int, y as int, s@, x_end as int, color, digitspace),
        decreases n - i,
    {
        let c = s.get_char(i);
        let ghost rest = s@.subrange(i as int, n as int);
        assert(rest[0] == c);
        assert(rest.drop_first() =~= s@.subrange(i + 1, n as int));
        let mut cw = get_char_width(c);
        if cx + cw > x_end {
            assert(rs@ =~= rs@ + spec_text(cx as int, y as int, rest, x_end as int, color, digitspace));
            break;
        }
        let bits = glyph(offsets, c);
        let mut cols = bitmap(cx, y, cw, bits.as_slice(), color);
        let ghost before = rs@;
        rs.append(&mut cols);
        if digitspace && c == ' ' {
            cw = get_char_width('0');
        }
        assert(rs@ + spec_text((cx + cw + 1) as int, y as int, rest.drop_first(), x_end as int, color, digitspace)
            =~= before + spec_text(cx as int, y as int, rest, x_end as int, color, digitspace));
        cx = cx + cw + 1;
        i += 1;
    }
    rs
}

/// The text `s` drawn at `(x, y)` in the built-in font within `w` pixels.
pub fn text(x: usize, y: usize, s: &str, w: usize, color: u32, offsets: &Vec<i16>) -> (rs: Vec<ColorRect>)
    requires
        forall|i: int| 0 <= i < s@.len() ==> has_glyph(#[trigger] s@[i]),
        offsets@.len() == GLYPHS,
        forall|i: int| 0 <= i < GLYPHS ==> #[trigger] offsets@[i] == 111 + widths_sum(i as nat),
        x + w + 32 <= usize::MAX,
        y + 16 <= usize::MAX,
    ensures
        rs@ == spec_text(x as int, y as int, s@, x + w, color, false),
{
    text_core(x, y, s, w, color, false, offsets)
}

/// A surface the editor draws on: it fills rectangles, and draws everything
/// else as the rectangles above.
pub trait Draw {
    /// The rectangles filled so far, in order.
    spec fn drawn(&self) -> Seq<ColorRect>;

    /// Fills the rectangle from `(x0, y0)` up to, not including, `(x1, y1)`.
    fn rect(&mut self, x0: usize, y0: usize, x1: usize, y1: usize, color: u32)
        ensures
            final(self).drawn() == old(self).drawn().push(ColorRect { x0, y0, x1, y1, color }),
    ;

    /// Fills each of `rs`, in order.
    fn draw_rects(&mut self, rs: &Vec<ColorRect>)
        ensures
            final(self).drawn() == old(self).drawn() + rs@,
    {
        let mut i: usize = 0;
        while i < rs.len()
            invariant
                0 <= i <= rs.len(),
                self.drawn() == old(self).drawn() + rs@.subrange(0, i as int),
            decreases rs.len() - i,
        {
            let r = rs[i];
            self.rect(r.x0, r.y0, r.x1, r.y1, r.color);
            i += 1;
            assert(rs@.subrange(0, i as int) =~= rs@.subrange(0, i - 1).push(r));
            assert(self.drawn() =~= old(self).drawn() + rs@.subrange(0, i as int));
        }
        assert(rs@.subrange(0, rs.len() as int) =~= rs@);
    }

    /// Fills the one-pixel line from `(x0, y0)` to `(x1, y1)`.
    fn line(&mut self, x0: usize, y0: usize, x1: usize, y1: usize, color: u32)
        requires
            max_u(x0 as int, x1 as int) < usize::MAX,
            max_u(y0 as int, y1 as int) < usize::MAX,
        ensures
            final(self).drawn() == old(self).drawn().push(
                spec_line(x0 as int, y0 as int, x1 as int, y1 as int, color),
            ),
    {
        let r = line_rect(x0, y0, x1, y1, color);
        self.rect(r.x0, r.y0, r.x1, r.y1, r.color);
    }

    /// Fills the link from `(x0, y0)` to `(x1, y1)`.
    fn link(&mut self, x0: usize, y0: usize, x1: usize, y1: usize, color: u32)
        requires
            max_u(x0 as int, x1 as int) < usize::MAX,
            max_u(y0 as int, y1 as int) < usize::MAX,
        ensures
            final(self).drawn() == old(self).drawn() + spec_link(x0 as int, y0 as int, x1 as int, y1 as int, color),
    {
        let rs = link_rects(x0, y0, x1, y1, color);
        self.draw_rects(&rs);
    }

    /// Fills the frame just inside the rectangle from `(x0, y0)` to `(x1, y1)`.
    fn frame(&mut self, x0: usize, y0: usize, x1: usize, y1: usize, color: u32)
        requires
            x1 >= 1,
            y1 >= 1,
            x0 < usize::MAX,
            y0 < usize::MAX,
        ensures
            final(self).drawn() == old(self).drawn() + spec_frame(x0 as int, y0 as int, x1 as int, y1 as int, color),
    {
        let rs = frame_rects(x0, y0, x1, y1, color);
        self.draw_rects(&rs);
    }

    /// Fills the top and left sides of the frame.
    fn halfframe(&mut self, x0: usize, y0: usize, x1: usize, y1: usize, color: u32)
        requires
            x0 < usize::MAX,
            y0 < usize::MAX,
        ensures
            final(self).drawn() == old(self).drawn() + spec_halfframe(
                x0 as int,
                y0 as int,
                x1 as int,
                y1 as int,
                color,
            ),
    {
        let rs = halfframe_rects(x0, y0, x1, y1, color);
        self.draw_rects(&rs);
    }

    /// Fills the text `s` at `(x, y)` in the built-in font within `w` pixels.
    fn draw_text(&mut self, x: usize, y: usize, s: &str, w: usize, color: u32, offsets: &Vec<i16>)
        requires
            forall|i: int| 0 <= i < s@.len() ==> has_glyph(#[trigger] s@[i]),
            offsets@.len() == GLYPHS,
            forall|i: int| 0 <= i < GLYPHS ==> #[trigger] offsets@[i] == 111 + widths_sum(i as nat),
            x + w + 32 <= usize::MAX,
            y + 16 <= usize::MAX,
        ensures
            final(self).drawn() == old(self).drawn() + spec_text(x as int, y as int, s@, x + w, color, false),
    {
        let rs = text(x, y, s, w, color, offsets);
        self.draw_rects(&rs);
    }
}

proof fn lemma_column_in_place(x: int, y: int, b: u16, i: int, start: int, color: u32)
    requires
        0 <= x,
        x + 1 <= usize::MAX,
    ensures
        forall|k: int|
            0 <= k < column_rects(x, y, b, i, start, color).len() ==> {
                let r = #[trigger] column_rects(x, y, b, i, start, color)[k];
                r.x0 == x && r.x1 == x + 1
            },
    decreases 16 - i,
{
    if i >= 16 || i < 0 {
    } else if bit_set(b, i) {
        let s2 = if start < 0 { i } else { start };
        lemma_column_in_place(x, y, b, i + 1, s2, color);
        assert(column_rects(x, y, b, i, start, color) == column_rects(x, y, b, i + 1, s2, color));
    } else if start >= 0 {
        lemma_column_in_place(x, y, b, i + 1, -1, color);
        let head = seq![cr(x, y + start, x + 1, y + i, color)];
        let tail = column_rects(x, y, b, i + 1, -1, color);
        assert(column_rects(x, y, b, i, start, color) == head + tail);
        assert forall|k: int| 0 <= k < (head + tail).len() implies {
            let r = #[trigger] (head + tail)[k];
            r.x0 == x && r.x1 == x + 1
        } by {
            if k > 0 {
                assert((head + tail)[k] == tail[k - 1]);
            }
        }
    } else {
        lemma_column_in_place(x, y, b, i + 1, -1, color);
        assert(column_rects(x, y, b, i, start, color) == column_rects(x, y, b, i + 1, -1, color));
    }
}

proof fn lemma_bitmap_in_place(x: int, y: int, bits: Seq<i16>, w: int, color: u32)
    requires
        0 <= x,
        0 <= w,
        x + w <= usize::MAX,
    ensures
        forall|k: int|
            0 <= k < bitmap_cols(x, y, bits, w, color).len() ==> {
                let r = #[trigger] bitmap_cols(x, y, bits, w, color)[k];
                x <= r.x0 && r.x1 <= x + w
            },
    decreases w,
{
    if w > 0 {
        lemma_bitmap_in_place(x, y, bits, w - 1, color);
        lemma_column_in_place(x + w - 1, y, bits[w - 1] as u16, 0, -1, color);
        let a = bitmap_cols(x, y, bits, w - 1, color);
        let c = spec_bitmask(x + w - 1, y, bits[w - 1], color);
        assert forall|k: int| 0 <= k < (a + c).len() implies {
            let r = #[trigger] (a + c)[k];
            x <= r.x0 && r.x1 <= x + w
        } by {
            if k >= a.len() {
                assert((a + c)[k] == c[k - a.len()]);
            } else {
                assert((a + c)[k] == a[k]);
            }
        }
    }
}

/// Text never reaches past its width: every rectangle of the text drawn at
/// `x` and cut at `x_end` lies between `x` and `x_end`.
pub proof fn lemma_text_within(x: int, y: int, s: Seq<char>, x_end: int, color: u32, digitspace: bool)
    requires
        0 <= x,
        x_end <= usize::MAX,
        forall|i: int| 0 <= i < s.len() ==> has_glyph(#[trigger] s[i]),
    ensures
        forall|k: int|
            0 <= k < spec_text(x, y, s, x_end, color, digitspace).len() ==> {
                let r = #[trigger] spec_text(x, y, s, x_end, color, digitspace)[k];
                x <= r.x0 && r.x1 <= x_end
            },
    decreases s.len(),
{
    if s.len() > 0 {
        let c = s[0];
        let cw = char_width(c);
        if x + cw <= x_end {
            crate::font::data::lemma_width_entries();
            let advance = if digitspace && c == ' ' { char_width('0') } else { cw };
            assert(has_glyph(s[0]));
            assert(2 <= entry(c as int - 16) <= 9);
            assert(2 <= entry(32) <= 9);
            assert forall|i: int| 0 <= i < s.drop_first().len() implies has_glyph(#[trigger] s.drop_first()[i]) by {
                assert(s.drop_first()[i] == s[i + 1]);
            }
            lemma_bitmap_in_place(x, y, glyph_bits(c), cw, color);
            lemma_text_within(x + advance + 1, y, s.drop_first(), x_end, color, digitspace);
            let a = bitmap_cols(x, y, glyph_bits(c), cw, color);
            let t = spec_text(x + advance + 1, y, s.drop_first(), x_end, color, digitspace);
            assert forall|k: int| 0 <= k < (a + t).len() implies {
                let r = #[trigger] (a + t)[k];
                x <= r.x0 && r.x1 <= x_end
            } by {
                if k >= a.len() {
                    assert((a + t)[k] == t[k - a.len()]);
                } else {
                    assert((a + t)[k] == a[k]);
                }
            }
        }
    }
}

/// Some rectangle of `rs` covers row `row`.
pub open spec fn covers(rs: Seq<ColorRect>, row: int) -> bool {
    exists|k: int| 0 <= k < rs.len() && rs[k].y0 <= row < #[trigger] rs[k].y1
}

/// The first bit of `b` from bit `i` on that is clear (16 if none is).
pub open spec fn next_clear(b: u16, i: int) -> int
    decreases 16 - i,
{
    if i >= 16 || i < 0 {
        16
    } else if !bit_set(b, i) {
        i
    } else {
        next_clear(b, i + 1)
    }
}

proof fn lemma_next_clear(b: u16, i: int, r: int)
    requires
        0 <= i <= r < next_clear(b, i),
    ensures
        bit_set(b, r),
        i <= next_clear(b, i),
    decreases 16 - i,
{
    if i < 16 && bit_set(b, i) && r > i {
        lemma_next_clear(b, i + 1, r);
    }
}

proof fn lemma_next_clear_after(b: u16, i: int)
    requires
        0 <= i <= 16,
    ensures
        i <= next_clear(b, i) <= 16,
    decreases 16 - i,
{
    if i < 16 && bit_set(b, i) {
        lemma_next_clear_after(b, i + 1);
    }
}

proof fn lemma_covers_concat(a: Seq<ColorRect>, c: Seq<ColorRect>, row: int)
    ensures
        covers(a + c, row) <==> (covers(a, row) || covers(c, row)),
{
    if covers(a + c, row) {
        let k = choose|k: int| 0 <= k < (a + c).len() && (a + c)[k].y0 <= row < #[trigger] (a + c)[k].y1;
        if k < a.len() {
            assert(a[k] == (a + c)[k]);
        } else {
            assert(c[k - a.len()] == (a + c)[k]);
        }
    }
    if covers(a, row) {
        let k = choose|k: int| 0 <= k < a.len() && a[k].y0 <= row < #[trigger] a[k].y1;
        assert((a + c)[k] == a[k]);
    }
    if covers(c, row) {
        let k = choose|k: int| 0 <= k < c.len() && c[k].y0 <= row < #[trigger] c[k].y1;
        assert((a + c)[k + a.len()] == c[k]);
    }
}

proof fn lemma_high_bits_clear(b: u16)
    requires
        b < 0x4000,
    ensures
        !bit_set(b, 14),
        !bit_set(b, 15),
{
    assert(((b >> 14u16) & 1u16) != 1u16 && ((b >> 15u16) & 1u16) != 1u16) by (bit_vector)
        requires
            b < 0x4000,
    ;
}

proof fn lemma_columns_cover(x: int, y: int, b: u16, i: int, start: int, color: u32, r: int)
    requires
        0 <= x,
        x + 1 <= usize::MAX,
        0 <= y,
        y + 16 <= usize::MAX,
        b < 0x4000,
        0 <= i <= 16,
        -1 <= start < i,
        start >= 0 ==> forall|j: int| start <= j < i ==> bit_set(b, j),
        0 <= r < 16,
    ensures
        covers(column_rects(x, y, b, i, start, color), y + r) <==> ((r >= i && bit_set(b, r)) || (start >= 0
            && start <= r < next_clear(b, i))),
    decreases 16 - i,
{
    lemma_high_bits_clear(b);
    if i >= 16 {
        if start >= 0 {
            assert(bit_set(b, 15));
        }
    } else if bit_set(b, i) {
        let s2 = if start < 0 { i } else { start };
        lemma_columns_cover(x, y, b, i + 1, s2, color, r);
        lemma_next_clear_after(b, i + 1);
        assert(column_rects(x, y, b, i, start, color) == column_rects(x, y, b, i + 1, s2, color));
        if i <= r && r < next_clear(b, i) {
            lemma_next_clear(b, i, r);
        }
    } else if start >= 0 {
        lemma_columns_cover(x, y, b, i + 1, -1, color, r);
        let head = seq![cr(x, y + start, x + 1, y + i, color)];
        let tail = column_rects(x, y, b, i + 1, -1, color);
        assert(column_rects(x, y, b, i, start, color) == head + tail);
        lemma_covers_concat(head, tail, y + r);
        if start <= r < i {
            assert(head[0].y0 <= y + r < head[0].y1);
        }
        if covers(head, y + r) {
            let k = choose|k: int| 0 <= k < head.len() && head[k].y0 <= y + r < #[trigger] head[k].y1;
            assert(k == 0);
        }
    } else {
        lemma_columns_cover(x, y, b, i + 1, -1, color, r);
        assert(column_rects(x, y, b, i, start, color) == column_rects(x, y, b, i + 1, -1, color));
    }
}

/// A column draws exactly the set bits of its mask: row `y + r` is covered
/// by one of its rectangles if and only if bit `r` is set.
pub proof fn lemma_bitmask_covers_set_bits(x: int, y: int, bitmask: i16, color: u32, r: int)
    requires
        0 <= bitmask < 0x4000,
        0 <= x,
        x + 1 <= usize::MAX,
        0 <= y,
        y + 16 <= usize::MAX,
        0 <= r < 16,
    ensures
        covers(spec_bitmask(x, y, bitmask, color), y + r) <==> bit_set(bitmask as u16, r),
{
    lemma_columns_cover(x, y, bitmask as u16, 0, -1, color, r);
}

} // verus!
