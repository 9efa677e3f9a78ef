//! The built-in 9-pixel bitmap font of the tile map editor: character widths,
//! where each character's columns start, and text measurement.
use vstd::prelude::*;
use vstd::string::*;

pub mod data;

use self::data::{entry, font_entry, lemma_width_entries, lemma_widths_total, widths_sum};

verus! {

/// Height in pixels of the built-in font.
pub const FONT_HEIGHT: usize = 9;

/// Number of glyphs: the characters 16 to 126.
pub const GLYPHS: usize = 111;



proof fn lemma_widths_bounded(n: nat)
    requires
        n <= 111,
    ensures
        0 <= widths_sum(n) <= widths_sum(111),
    decreases 111 - n,
{
    lemma_width_entries();
    if n < 111 {
        lemma_widths_bounded(n + 1);
        lemma_widths_nonneg(n);
        assert(widths_sum((n + 1) as nat) == widths_sum(n) + entry(n as int));
        assert(2 <= entry(n as int) <= 9);
    } else {
        lemma_widths_nonneg(111);
    }
}

proof fn lemma_widths_nonneg(n: nat)
    requires
        n <= 111,
    ensures
        0 <= widths_sum(n) <= 9 * n,
    decreases n,
{
    lemma_width_entries();
    if n > 0 {
        lemma_widths_nonneg((n - 1) as nat);
        assert(2 <= entry(n - 1) <= 9);
    }
}

/// Whether the font has a width for `c`: the characters 16 to 127.
pub open spec fn has_width(c: char) -> bool {
    16 <= c as int <= 127
}

/// Whether the font has a glyph for `c`: the characters 16 to 126.
pub open spec fn has_glyph(c: char) -> bool {
    16 <= c as int <= 126
}

/// Width in pixels of character `c`.
pub open spec fn char_width(c: char) -> int {
    entry(c as int - 16)
}

/// Width in pixels of the characters of `s` set side by side.
pub open spec fn spec_text_width(s: Seq<char>) -> int
    decreases s.len(),
{
    if s.len() == 0 {
        0
    } else {
        spec_text_width(s.drop_last()) + char_width(s.last())
    }
}

/// Where the columns of glyph `c` start in `FONT_DATA`.
pub open spec fn glyph_start(c: char) -> int {
    111 + widths_sum((c as int - 16) as nat)
}

proof fn lemma_width_range(c: char)
    requires
        has_width(c),
    ensures
        0 <= char_width(c) <= 9,
{
    lemma_width_entries();
    assert(entry(111) == 0);
    if c as int <= 126 {
        assert(2 <= entry(c as int - 16) <= 9);
    }
}

/// The width in pixels of character `ch`.
pub fn get_char_width(ch: char) -> (w: usize)
    requires
        has_width(ch),
    ensures
        w == char_width(ch),
        w <= 9,
{
    proof {
        lemma_width_range(ch);
    }
    let idx: usize = (ch as u32 - 16) as usize;
    font_entry(idx) as usize
}

/// The width in pixels of `s` set in the font, glyphs side by side without gaps.
pub fn text_width(s: &str) -> (w: usize)
    requires
        forall|i: int| 0 <= i < s@.len() ==> has_width(#[trigger] s@[i]),
        spec_text_width(s@) <= usize::MAX,
    ensures
        w == spec_text_width(s@),
{
    let n = s.unicode_len();
    let mut total: usize = 0;
    let mut i: usize = 0;
    while i < n
        invariant
            n == s@.len(),
            i <= n,
            forall|k: int| 0 <= k < s@.len() ==> has_width(#[trigger] s@[k]),
            spec_text_width(s@) <= usize::MAX,
            total == spec_text_width(s@.subrange(0, i as int)),
        decreases n - i,
    {
        let c = s.get_char(i);
        proof {
            let pre = s@.subrange(0, i as int);
            let next = s@.subrange(0, i + 1);
            assert(next.drop_last() =~= pre);
            assert(next.last() == c);
            lemma_text_width_prefix_bounded(s@, i + 1);
        }
        total = total + get_char_width(c);
        i += 1;
    }
    assert(s@.subrange(0, n as int) =~= s@);
    total
}

proof fn lemma_text_width_prefix_bounded(s: Seq<char>, n: int)
    requires
        0 <= n <= s.len(),
        forall|k: int| 0 <= k < s.len() ==> has_width(#[trigger] s[k]),
    ensures
        spec_text_width(s.subrange(0, n)) <= spec_text_width(s),
    decreases s.len() - n,
{
    if n < s.len() {
        lemma_text_width_prefix_bounded(s, n + 1);
        let a = s.subrange(0, n);
        let b = s.subrange(0, n + 1);
        assert(b.drop_last() =~= a);
        lemma_width_range(b.last());
    } else {
        assert(s.subrange(0, n) =~= s);
    }
}

/// Where the columns of each glyph start in `FONT_DATA`: entry `i` belongs to
/// the character `16 + i`.
pub fn init_font() -> (offsets: Vec<i16>)
    ensures
        offsets@.len() == GLYPHS,
        forall|i: int| 0 <= i < GLYPHS ==> #[trigger] offsets@[i] == 111 + widths_sum(i as nat),
{
    let mut offsets: Vec<i16> = Vec::new();
    let mut n: i16 = 111;
    let mut i: usize = 0;
    while i < GLYPHS
        invariant
            i <= GLYPHS,
            offsets@.len() == i,
            n == 111 + widths_sum(i as nat),
            forall|k: int| 0 <= k < i ==> #[trigger] offsets@[k] == 111 + widths_sum(k as nat),
        decreases GLYPHS - i,
    {
        offsets.push(n);
        proof {
            lemma_widths_total();
            lemma_widths_bounded((i + 1) as nat);
        }
        n = n + font_entry(i);
        i += 1;
    }
    offsets
}

/// Where the columns of glyph `ch` start in `FONT_DATA`, looked up in the
/// table made by `init_font`. The glyph's columns are the `get_char_width(ch)`
/// entries from there on.
pub fn get_char_bitmap(offsets: &Vec<i16>, ch: char) -> (start: usize)
    requires
        has_glyph(ch),
        offsets@.len() == GLYPHS,
        forall|i: int| 0 <= i < GLYPHS ==> #[trigger] offsets@[i] == 111 + widths_sum(i as nat),
    ensures
        start == glyph_start(ch),
        111 <= start,
        start + char_width(ch) <= 769,
{
    let idx: usize = (ch as u32 - 16) as usize;
    proof {
        lemma_widths_total();
        lemma_widths_bounded(idx as nat);
        lemma_widths_bounded((idx + 1) as nat);
    }
    offsets[idx] as usize
}

/// The size of `text` when drawn eight pixels per byte and eight pixels high.
pub fn measure_text(text: &str) -> (wh: (i16, i16))
    requires
        i16::MIN <= (text.spec_bytes().len() as usize as i16) * 8 <= i16::MAX,
    ensures
        wh.0 == (text.spec_bytes().len() as usize as i16) * 8,
        wh.1 == 8,
{
    let n: usize = text.len();
    let w: i16 = n as i16 * 8 + 0;
    let h: i16 = 8;
    (w, h)
}

/// Where each character of `label` drawn at `(x, y)` in the eight-pixel
/// font goes: one pixel right and down of `(x, y)`, then eight pixels apart.
pub fn draw_text_places(x: i16, y: i16, label: &str) -> (places: Vec<(i16, i16, char)>)
    requires
        i16::MIN <= x + 1 + 8 * label@.len() <= i16::MAX,
        y < i16::MAX,
    ensures
        places@.len() == label@.len(),
        forall|i: int|
            0 <= i < label@.len() ==> #[trigger] places@[i] == ((x + 1 + 8 * i) as i16, (y + 1) as i16, label@[i]),
{
    let n = label.unicode_len();
    let mut places: Vec<(i16, i16, char)> = Vec::new();
    let mut cx: i16 = x + 1;
    let cy: i16 = y + 1;
    let mut i: usize = 0;
    while i < n
        invariant
            n == label@.len(),
            0 <= i <= n,
            cx == x + 1 + 8 * i,
            cy == y + 1,
            i16::MIN <= x + 1 + 8 * label@.len() <= i16::MAX,
            places@.len() == i,
            forall|k: int|
                0 <= k < i ==> #[trigger] places@[k] == ((x + 1 + 8 * k) as i16, (y + 1) as i16, label@[k]),
        decreases n - i,
    {
        places.push((cx, cy, label.get_char(i)));
        cx = cx + 8;
        i += 1;
    }
    places
}

} // verus!
