//! The glyph table of the built-in font.
use vstd::prelude::*;

verus! {

/// The font: first the width of each glyph, for the characters from 16 on,
/// then the columns of all glyphs one after another, each column a 9-bit mask
/// with bit 0 at the top.
pub const FONT_DATA: [i16; 769] = [
    4, 9, 6, 9, 9, 9, 9, 8, 9, 8, 4, 9, 7, 7, 7, 7, 4, 2, 6, 8, 6, 6, 7, 3,
    4, 4, 8, 6, 3, 6, 2, 6, 6, 6, 6, 6, 6, 6, 6, 6, 6, 6, 2, 3, 5, 4, 5, 6,
    6, 6, 6, 6, 6, 6, 6, 6, 6, 6, 6, 7, 6, 7, 7, 7, 6, 7, 6, 6, 6, 6, 7, 7,
    6, 6, 6, 4, 6, 4, 7, 7, 3, 6, 6, 5, 6, 6, 5, 6, 6, 4, 5, 6, 4, 7, 6, 6,
    6, 6, 6, 6, 6, 6, 6, 7, 6, 6, 6, 5, 2, 5, 8, 0, 0, 0, 0, 2, 253, 130, 456, 156,
    8, 72, 184, 64, 2, 125, 66, 64, 160, 64, 146, 511, 146, 146, 511, 146, 146, 511, 146, 511, 257, 341, 297, 341,
    297, 341, 257, 511, 16, 56, 124, 16, 16, 16, 124, 56, 16, 96, 144, 270, 261, 262, 136, 80, 48, 224, 192, 160,
    80, 40, 22, 14, 15, 3, 448, 496, 496, 240, 232, 20, 10, 5, 2, 112, 232, 452, 450, 225, 113, 58, 28, 63,
    30, 60, 200, 455, 257, 257, 0, 0, 0, 257, 257, 455, 120, 204, 132, 132, 159, 14, 4, 4, 14, 159, 132, 132,
    204, 120, 8, 24, 56, 120, 56, 24, 8, 32, 48, 56, 60, 56, 48, 32, 0, 0, 0, 0, 111, 111, 7, 7,
    0, 0, 7, 7, 34, 127, 127, 34, 34, 127, 127, 34, 36, 46, 107, 107, 58, 18, 99, 51, 24, 12, 102, 99,
    48, 122, 79, 93, 55, 114, 80, 4, 7, 3, 62, 127, 99, 65, 65, 99, 127, 62, 8, 42, 62, 28, 28, 62,
    42, 8, 8, 8, 62, 62, 8, 8, 128, 224, 96, 8, 8, 8, 8, 8, 8, 96, 96, 96, 48, 24, 12, 6,
    3, 62, 127, 89, 77, 127, 62, 64, 66, 127, 127, 64, 64, 98, 115, 89, 77, 71, 66, 33, 97, 73, 93, 119,
    35, 24, 28, 22, 127, 127, 16, 39, 103, 69, 69, 125, 57, 62, 127, 73, 73, 121, 48, 1, 1, 113, 121, 15,
    7, 54, 127, 73, 73, 127, 54, 6, 79, 73, 105, 63, 30, 54, 54, 128, 246, 118, 8, 28, 54, 99, 65, 20,
    20, 20, 20, 65, 99, 54, 28, 8, 2, 3, 105, 109, 7, 2, 30, 63, 33, 45, 47, 46, 124, 126, 19, 19,
    126, 124, 127, 127, 73, 73, 127, 54, 62, 127, 65, 65, 99, 34, 127, 127, 65, 99, 62, 28, 127, 127, 73, 73,
    73, 65, 127, 127, 9, 9, 9, 1, 62, 127, 65, 73, 121, 121, 127, 127, 8, 8, 127, 127, 65, 65, 127, 127,
    65, 65, 32, 96, 64, 64, 127, 63, 127, 127, 8, 28, 54, 99, 65, 127, 127, 64, 64, 64, 64, 127, 127, 6,
    12, 6, 127, 127, 127, 127, 6, 12, 24, 127, 127, 62, 127, 65, 65, 65, 127, 62, 127, 127, 9, 9, 15, 6,
    62, 127, 65, 81, 49, 127, 94, 127, 127, 9, 25, 127, 102, 70, 79, 73, 73, 121, 49, 1, 1, 127, 127, 1,
    1, 63, 127, 64, 64, 127, 63, 15, 31, 48, 96, 48, 31, 15, 127, 127, 48, 24, 48, 127, 127, 99, 119, 28,
    28, 119, 99, 7, 15, 120, 120, 15, 7, 97, 113, 89, 77, 71, 67, 127, 127, 65, 65, 3, 6, 12, 24, 48,
    96, 65, 65, 127, 127, 8, 12, 6, 3, 6, 12, 8, 64, 64, 64, 64, 64, 64, 64, 3, 7, 4, 32, 116,
    84, 84, 124, 120, 127, 127, 68, 68, 124, 56, 56, 124, 68, 68, 68, 56, 124, 68, 68, 127, 127, 56, 124, 84,
    84, 92, 24, 8, 124, 126, 10, 10, 56, 380, 324, 324, 508, 252, 127, 127, 4, 4, 124, 120, 72, 122, 122, 64,
    256, 256, 256, 506, 250, 126, 126, 16, 56, 104, 64, 66, 126, 126, 64, 124, 124, 24, 56, 28, 124, 120, 124, 124,
    4, 4, 124, 120, 56, 124, 68, 68, 124, 56, 508, 508, 68, 68, 124, 56, 56, 124, 68, 68, 508, 508, 124, 124,
    4, 4, 12, 8, 72, 92, 84, 84, 116, 36, 4, 4, 62, 126, 68, 68, 60, 124, 64, 64, 124, 124, 28, 60,
    96, 96, 60, 28, 28, 124, 112, 56, 112, 124, 28, 68, 108, 56, 56, 108, 68, 284, 316, 352, 320, 508, 252, 68,
    100, 116, 92, 76, 68, 8, 62, 119, 65, 65, 127, 127, 65, 65, 119, 62, 8, 16, 24, 12, 12, 24, 24, 12,
    4,
];

/// Entry `i` of the glyph table.
pub closed spec fn entry(i: int) -> int {
    FONT_DATA@[i] as int
}

/// Entry `i` of the glyph table.
pub fn font_entry(i: usize) -> (v: i16)
    requires
        i < 769,
    ensures
        v == entry(i as int),
{
    FONT_DATA[i]
}

/// Number of entries of the glyph table.
pub open spec fn entries() -> int {
    769
}

/// Every glyph of the characters 16 to 126 is between two and nine pixels
/// wide; character 127 has width zero.
pub proof fn lemma_width_entries()
    ensures
        forall|i: int| 0 <= i < 111 ==> 2 <= #[trigger] entry(i) <= 9,
        entry(111) == 0,
{
}

/// Total width of the first `n` glyphs.
pub open spec fn widths_sum(n: nat) -> int
    decreases n,
{
    if n == 0 { 0 } else { widths_sum((n - 1) as nat) + entry(n - 1) }
}

/// The glyph columns fill the table exactly: the widths of all glyphs add up to 658.
pub proof fn lemma_widths_total()
    ensures
        widths_sum(111) == 658,
{
    assert(widths_sum(10) == 80) by { reveal_with_fuel(widths_sum, 11); }
    assert(widths_sum(20) == 141) by { reveal_with_fuel(widths_sum, 11); }
    assert(widths_sum(30) == 194) by { reveal_with_fuel(widths_sum, 11); }
    assert(widths_sum(40) == 250) by { reveal_with_fuel(widths_sum, 11); }
    assert(widths_sum(50) == 299) by { reveal_with_fuel(widths_sum, 11); }
    assert(widths_sum(60) == 360) by { reveal_with_fuel(widths_sum, 11); }
    assert(widths_sum(70) == 424) by { reveal_with_fuel(widths_sum, 11); }
    assert(widths_sum(80) == 484) by { reveal_with_fuel(widths_sum, 11); }
    assert(widths_sum(90) == 537) by { reveal_with_fuel(widths_sum, 11); }
    assert(widths_sum(100) == 595) by { reveal_with_fuel(widths_sum, 11); }
    assert(widths_sum(110) == 650) by { reveal_with_fuel(widths_sum, 11); }
    assert(widths_sum(111) == 658) by { reveal_with_fuel(widths_sum, 11); }
}

/// Every glyph column is a bit mask of at most nine rows.
pub proof fn lemma_column_entries()
    ensures
        forall|i: int| 111 <= i < 769 ==> 0 <= #[trigger] entry(i) < 512,
{
}

} // verus!
