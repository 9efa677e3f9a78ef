use tiled::editor_ui::{Paint, Ui};
use tiled::theme::{rgba, BTN_PRESSED, MENUBAR_BG, WHITE};
use tiled::draw::{
    bitmap, bitmask_as_columns, frame_rects, halfframe_rects, line_rect, link_rects, text, text_core, ColorRect,
    Draw,
};
use tiled::font::{get_char_bitmap, get_char_width, init_font, measure_text, text_width, GLYPHS};
use tiled::renderer::{DrawOrder, Point, Rect};

fn cr(x0: usize, y0: usize, x1: usize, y1: usize, color: u32) -> ColorRect {
    ColorRect { x0, y0, x1, y1, color }
}

#[test]
fn char_widths() {
    assert_eq!(get_char_width(' '), 4);
    assert_eq!(get_char_width('0'), 6);
    assert_eq!(get_char_width('A'), 6);
    assert_eq!(get_char_width('i'), 4);
    assert_eq!(get_char_width('W'), 7);
    assert_eq!(get_char_width('!'), 2);
    assert_eq!(text_width("Hi"), 10);
    assert_eq!(text_width(""), 0);
}

#[test]
fn glyph_offsets() {
    let offsets = init_font();
    assert_eq!(offsets.len(), GLYPHS);
    assert_eq!(offsets[0], 111);
    assert_eq!(offsets[1], 115);
    assert_eq!(get_char_bitmap(&offsets, 'A'), 404);
    assert_eq!(get_char_bitmap(&offsets, 'i'), 644);
    assert_eq!(offsets[110], 761);
}

#[test]
fn measure_text_eight_per_byte() {
    assert_eq!(measure_text("abc"), (24, 8));
    assert_eq!(measure_text(""), (0, 8));
}

#[test]
fn lines_and_links() {
    assert_eq!(line_rect(5, 9, 2, 3, 1), cr(2, 3, 6, 10, 1));
    assert_eq!(line_rect(2, 3, 2, 3, 1), cr(2, 3, 3, 4, 1));
    assert_eq!(link_rects(1, 2, 5, 7, 4), vec![cr(1, 2, 2, 8, 4), cr(1, 7, 6, 8, 4)]);
}

#[test]
fn frames() {
    assert_eq!(
        frame_rects(0, 0, 10, 5, 3),
        vec![cr(0, 0, 9, 1, 3), cr(9, 0, 10, 4, 3), cr(1, 4, 10, 5, 3), cr(0, 1, 1, 5, 3)]
    );
    assert_eq!(halfframe_rects(2, 3, 8, 9, 3), vec![cr(2, 3, 8, 4, 3), cr(2, 4, 3, 9, 3)]);
}

#[test]
fn bitmask_runs() {
    assert_eq!(bitmask_as_columns(3, 4, 0b0110110, 9), vec![cr(3, 5, 4, 7, 9), cr(3, 8, 4, 10, 9)]);
    assert_eq!(bitmask_as_columns(3, 4, 0, 9), vec![]);
    assert_eq!(bitmask_as_columns(0, 0, 0x3fff, 1), vec![cr(0, 0, 1, 14, 1)]);
    assert_eq!(bitmap(0, 0, 2, &[1, 3], 2), vec![cr(0, 0, 1, 1, 2), cr(1, 0, 2, 2, 2)]);
}

#[test]
fn text_glyphs() {
    let offsets = init_font();
    assert_eq!(
        text(10, 20, "i", 100, 7, &offsets),
        vec![
            cr(10, 23, 11, 24, 7),
            cr(10, 26, 11, 27, 7),
            cr(11, 21, 12, 22, 7),
            cr(11, 23, 12, 27, 7),
            cr(12, 21, 13, 22, 7),
            cr(12, 23, 13, 27, 7),
            cr(13, 26, 14, 27, 7),
        ]
    );
}

#[test]
fn text_is_cut_at_the_width() {
    let offsets = init_font();
    assert_eq!(text(0, 0, "ii", 8, 1, &offsets).len(), 7);
    assert_eq!(text(0, 0, "ii", 9, 1, &offsets).len(), 14);
    assert_eq!(text(0, 0, "Hello", 200, 1, &offsets).len(), 35);
    assert_eq!(text(0, 0, "i", 3, 1, &offsets).len(), 0);
}

#[test]
fn digit_space() {
    let offsets = init_font();
    let spaced = text_core(0, 0, " i", 100, 1, true, &offsets);
    assert_eq!(spaced[0], cr(7, 3, 8, 4, 1));
    let plain = text_core(0, 0, " i", 100, 1, false, &offsets);
    assert_eq!(plain[0], cr(5, 3, 6, 4, 1));
}

#[test]
fn draw_trait_replays_rectangles() {
    let mut ui = Ui::new();
    ui.line(5, 9, 2, 3, 1);
    ui.frame(0, 0, 10, 5, 3);
    let rects: Vec<ColorRect> = ui
        .paint
        .iter()
        .filter_map(|p| match p {
            Paint::Rect(r) => Some(*r),
            _ => None,
        })
        .collect();
    assert_eq!(rects.len(), 5);
    assert_eq!(rects[0], cr(2, 3, 6, 10, 1));
    assert_eq!(rects[4], cr(0, 1, 1, 5, 3));
}

fn rect(ax: isize, ay: isize, bx: isize, by: isize) -> Rect {
    Rect { min: Point { x: ax, y: ay }, max: Point { x: bx, y: by } }
}

#[test]
fn draw_order_right_down() {
    assert_eq!(
        DrawOrder::RightDown.run(rect(0, 0, 2, 1)),
        vec![(0, 0), (1, 0), (2, 0), (0, 1), (1, 1), (2, 1)]
    );
}

#[test]
fn draw_order_rows_start_at_the_first_column() {
    let cells = DrawOrder::RightDown.run(rect(1, 5, 2, 6));
    assert_eq!(cells.len(), 12);
    assert_eq!(cells[0], (1, 1));
    assert_eq!(cells[11], (2, 6));
}

#[test]
fn draw_order_other_directions() {
    assert_eq!(DrawOrder::RightUp.run(rect(0, 0, 1, 1)), vec![(0, 0), (1, 0)]);
    assert_eq!(DrawOrder::LeftDown.run(rect(0, 0, 1, 1)), vec![(1, 1), (0, 1)]);
    assert_eq!(DrawOrder::LeftUp.run(rect(0, 0, 1, 1)), vec![(1, 1), (0, 1), (1, 0), (0, 0)]);
}

#[test]
fn eight_pixel_text_places() {
    assert_eq!(
        tiled::font::draw_text_places(10, 20, "ab"),
        vec![(11, 21, 'a'), (19, 21, 'b')]
    );
    assert_eq!(tiled::font::draw_text_places(0, 0, ""), vec![]);
}

#[test]
fn theme_colors_are_byte_swapped() {
    assert_eq!(rgba(0x11223344), 0x44332211);
    assert_eq!(rgba(rgba(0x12345678)), 0x12345678);
    assert_eq!(rgba(0xFFFFFF_FF), WHITE);
    assert_eq!(rgba(0x222833_FF), MENUBAR_BG);
    assert_eq!(rgba(0x0076FF_FF), BTN_PRESSED);
}
