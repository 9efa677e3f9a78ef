use tiled::layout::{stretch_across, Axis, Flow, FlowChild, FlowData, Point, Rect};
use tiled::receiver::{DrawCommand, Layer, Placement, Receiver};
use tiled::tool::{
    fill_rect, outline_rect, Bucket, Command, EyeDropper, Freehand, Input, Point2, Primitive, PrimitiveMode,
    Rect as ToolRect, Rectangle,
};

fn pt(x: i32, y: i32) -> Point {
    Point { x, y }
}

fn lrect(ax: i32, ay: i32, bx: i32, by: i32) -> Rect {
    Rect { min: pt(ax, ay), max: pt(bx, by) }
}

fn data(w: i32, expand: bool, shrink: bool, expand_across: bool) -> Option<FlowData> {
    Some(FlowData {
        along_weight: w,
        expand_along: expand,
        shrink_along: shrink,
        expand_across,
        shrink_across: false,
    })
}

#[test]
fn stretch_rules() {
    assert_eq!(stretch_across(10, 20, true, false), 20);
    assert_eq!(stretch_across(10, 20, false, true), 10);
    assert_eq!(stretch_across(30, 20, false, true), 20);
    assert_eq!(stretch_across(30, 20, true, false), 30);
}

#[test]
fn flow_measure() {
    let mut f = Flow::horizontal(lrect(0, 0, 100, 20));
    f.add(FlowChild { measured: pt(20, 10), data: None });
    f.add(FlowChild { measured: pt(15, 12), data: None });
    f.measure();
    assert_eq!(f.measured, pt(35, 12));
    let mut f = Flow::vertical(lrect(0, 0, 100, 20));
    f.add(FlowChild { measured: pt(20, 10), data: None });
    f.add(FlowChild { measured: pt(15, 12), data: None });
    f.measure();
    assert_eq!(f.measured, pt(20, 22));
}

#[test]
fn flow_expands_by_weight() {
    let mut f = Flow::horizontal(lrect(0, 0, 100, 20));
    f.add(FlowChild { measured: pt(20, 10), data: data(1, true, false, true) });
    f.add(FlowChild { measured: pt(20, 10), data: data(1, true, false, false) });
    f.add(FlowChild { measured: pt(20, 10), data: data(2, true, false, false) });
    assert_eq!(f.layout(), vec![lrect(0, 0, 30, 20), lrect(30, 0, 60, 10), lrect(60, 0, 100, 10)]);
}

#[test]
fn flow_shrinks_by_weight() {
    let mut f = Flow::vertical(lrect(0, 0, 10, 50));
    f.add(FlowChild { measured: pt(20, 30), data: data(1, false, true, false) });
    f.add(FlowChild { measured: pt(20, 30), data: data(3, false, true, false) });
    assert_eq!(f.layout(), vec![lrect(0, 0, 20, 28), lrect(0, 28, 20, 50)]);
}

#[test]
fn flow_without_weights_keeps_sizes() {
    let mut f = Flow::horizontal(lrect(0, 0, 100, 20));
    f.add(FlowChild { measured: pt(20, 10), data: None });
    f.add(FlowChild { measured: pt(30, 5), data: data(0, true, true, true) });
    assert_eq!(f.layout(), vec![lrect(0, 0, 20, 10), lrect(20, 0, 50, 20)]);
}

#[test]
fn flow_lays_out_wide_rectangles() {
    let mut f = Flow::horizontal(lrect(0, 0, 600_000_000, 10));
    f.add(FlowChild { measured: pt(30, 10), data: data(5, true, false, false) });
    assert_eq!(f.layout(), vec![lrect(0, 0, 600_000_000, 10)]);
    let mut f = Flow::horizontal(lrect(0, 0, 600_000_000, 10));
    f.add(FlowChild { measured: pt(30, 10), data: data(1, true, false, false) });
    f.add(FlowChild { measured: pt(30, 10), data: data(2, true, false, false) });
    assert_eq!(f.layout(), vec![lrect(0, 0, 200_000_010, 10), lrect(200_000_010, 0, 600_000_000, 10)]);
}

fn tr(ax: i32, ay: i32, bx: i32, by: i32) -> ToolRect<i32> {
    ToolRect { min: Point2 { x: ax, y: ay }, max: Point2 { x: bx, y: by } }
}

#[test]
fn rectangle_pixels() {
    assert_eq!(
        fill_rect(tr(2, 3, 3, 4), 1),
        vec![Command::SetPixel(2, 3, 1), Command::SetPixel(3, 3, 1), Command::SetPixel(2, 4, 1), Command::SetPixel(3, 4, 1)]
    );
    assert_eq!(
        outline_rect(tr(2, 3, 4, 6), 1),
        vec![
            Command::SetPixel(2, 3, 1),
            Command::SetPixel(2, 6, 1),
            Command::SetPixel(3, 3, 1),
            Command::SetPixel(3, 6, 1),
            Command::SetPixel(4, 3, 1),
            Command::SetPixel(4, 6, 1),
            Command::SetPixel(2, 4, 1),
            Command::SetPixel(4, 4, 1),
            Command::SetPixel(2, 5, 1),
            Command::SetPixel(4, 5, 1),
        ]
    );
    assert_eq!(outline_rect(tr(0, 0, 0, 0), 1), vec![Command::SetPixel(0, 0, 1), Command::SetPixel(0, 0, 1)]);
}

#[test]
fn primitive_fills_between_press_and_pointer() {
    let mut t = Primitive::new();
    assert_eq!(t.mode, PrimitiveMode::Rect);
    assert_eq!(t.press(Point2 { x: 5, y: 4 }), vec![Command::Start]);
    let cmds = t.movement(Point2 { x: 2, y: 3 }, 7);
    assert_eq!(cmds.len(), 9);
    assert_eq!(cmds[0], Command::Sync);
    assert_eq!(cmds[1], Command::SetPixel(2, 3, 7));
    assert_eq!(cmds[8], Command::SetPixel(5, 4, 7));
    assert_eq!(t.last, Point2 { x: 2, y: 3 });
    assert_eq!(t.release(Point2 { x: 2, y: 3 }), vec![Command::Commit]);
    assert!(!t.active);
    assert_eq!(t.movement(Point2 { x: 9, y: 9 }, 7), vec![]);
    assert_eq!(t.last, Point2 { x: 9, y: 9 });
}

#[test]
fn primitive_outline_and_cancel() {
    let mut t = Primitive::new();
    t.fill = false;
    t.press(Point2 { x: 2, y: 3 });
    let cmds = t.movement(Point2 { x: 4, y: 6 }, 1);
    assert_eq!(cmds.len(), 11);
    assert_eq!(&cmds[1..], &outline_rect(tr(2, 3, 4, 6), 1)[..]);
    assert_eq!(t.cancel(), vec![Command::Rollback]);
    assert!(!t.active);
}

#[test]
fn primitive_square_ellipse() {
    let mut t = Primitive::new();
    t.mode = PrimitiveMode::Ellipse;
    t.special(true);
    t.press(Point2 { x: 0, y: 0 });
    assert_eq!(t.movement(Point2 { x: 5, y: 2 }, 7), vec![Command::Sync, Command::Ellipse(tr(-2, -2, 0, 0), true, 7)]);
}

#[test]
fn rectangle_tool() {
    let mut t = Rectangle::new();
    assert_eq!(t.run(Input::Press(Point2 { x: 1, y: 1 }), 5), vec![Command::Start]);
    assert!(t.active);
    assert_eq!(t.color, 5);
    assert_eq!(
        t.run(Input::Move(Point2 { x: 4, y: 2 }), 0),
        vec![Command::Sync, Command::FillRect(ToolRect { min: Point2 { x: 1, y: 1 }, max: Point2 { x: 4, y: 2 } }, 5)]
    );
    assert_eq!(t.run(Input::Special(true), 0), vec![]);
    assert_eq!(
        t.run(Input::Move(Point2 { x: 4, y: 2 }), 0),
        vec![Command::Sync, Command::FillRect(ToolRect { min: Point2 { x: 1, y: 1 }, max: Point2 { x: 2, y: 2 } }, 5)]
    );
    assert_eq!(t.run(Input::Release(Point2 { x: 4, y: 2 }), 0), vec![Command::Commit]);
    assert!(!t.active);
    assert_eq!(t.run(Input::Move(Point2 { x: 4, y: 2 }), 0), vec![]);
    assert_eq!(t.run(Input::Cancel, 0), vec![Command::Rollback]);
}

#[test]
fn bucket_and_eye_dropper() {
    let mut b = Bucket::new();
    assert_eq!(
        b.press(Point2 { x: 3, y: 4 }, 9),
        vec![Command::Start, Command::ScanlineFill(Point2 { x: 3, y: 4 }, 9), Command::Commit]
    );
    let mut e = EyeDropper::new();
    assert_eq!(e.press(Point2 { x: 3, y: 4 }, Some(4)), vec![Command::ChangeColor(4)]);
    assert_eq!(e.press(Point2 { x: 3, y: 4 }, None), vec![]);
}

fn p(x: i32, y: i32) -> Point2<i32> {
    Point2 { x, y }
}

#[test]
fn freehand_perfect_drops_corners() {
    let mut t = Freehand::new();
    assert_eq!(t.press(p(0, 0), 3), vec![Command::Start, Command::PaintBrush(p(0, 0), 3)]);
    assert_eq!(t.line_ends(p(1, 0)), (p(0, 0), p(1, 0)));
    assert_eq!(t.movement(p(1, 0), &vec![p(0, 0), p(1, 0)]), vec![]);
    assert_eq!(t.movement(p(1, 1), &vec![p(1, 0), p(1, 1)]), vec![]);
    assert_eq!(t.pts, vec![(p(0, 0), true), (p(1, 0), false), (p(1, 1), true)]);
    assert_eq!(
        t.preview(p(9, 9)),
        vec![Command::PaintBrush(p(0, 0), 3), Command::PaintBrush(p(1, 1), 3)]
    );
    assert_eq!(
        t.release(p(1, 1)),
        vec![Command::PaintBrush(p(0, 0), 3), Command::PaintBrush(p(1, 1), 3), Command::Commit]
    );
    assert!(t.pts.is_empty());
    assert!(!t.active);
    assert_eq!(t.preview(p(9, 9)), vec![Command::PaintBrush(p(9, 9), 3)]);
}

#[test]
fn freehand_keeps_four_pending_points() {
    let mut t = Freehand::new();
    t.press(p(0, 0), 3);
    let line: Vec<Point2<i32>> = (0..6).map(|x| p(x, 0)).collect();
    assert_eq!(t.movement(p(5, 0), &line), vec![Command::PaintBrush(p(0, 0), 3), Command::PaintBrush(p(1, 0), 3)]);
    assert_eq!(t.pts.len(), 4);
    assert_eq!(t.pts[0], (p(2, 0), true));
    assert_eq!(t.movement(p(5, 0), &vec![p(7, 7)]), vec![]);
    assert_eq!(t.pts.len(), 4);
}

#[test]
fn freehand_line_mode() {
    let mut t = Freehand::new();
    assert_eq!(t.special(true, 6), vec![Command::Sync, Command::Start]);
    assert!(t.line);
    assert_eq!(t.color, 6);
    assert_eq!(t.line_ends(p(4, 0)), (p(4, 0), p(0, 0)));
    assert_eq!(
        t.movement(p(1, 0), &vec![p(1, 0), p(0, 0)]),
        vec![Command::Sync, Command::PaintBrush(p(1, 0), 6), Command::PaintBrush(p(0, 0), 6)]
    );
    assert_eq!(t.last, p(0, 0));
    assert_eq!(t.press(p(1, 0), 2), vec![Command::Commit]);
    assert_eq!(t.cancel(), vec![Command::Rollback]);
}

#[test]
fn freehand_plain_strokes() {
    let mut t = Freehand::new();
    t.perfect = false;
    t.press(p(0, 0), 2);
    assert_eq!(t.line_ends(p(2, 0)), (p(2, 0), p(0, 0)));
    assert_eq!(
        t.movement(p(2, 0), &vec![p(2, 0), p(1, 0), p(0, 0)]),
        vec![Command::PaintBrush(p(2, 0), 2), Command::PaintBrush(p(1, 0), 2), Command::PaintBrush(p(0, 0), 2)]
    );
    assert_eq!(t.last, p(2, 0));
}

#[test]
fn layers_of_frames() {
    let mut l: Layer<u8> = Layer::new("ink");
    assert_eq!(l.name, "ink");
    assert!(l.visible && !l.lock);
    l.push(1);
    l.push(3);
    l.insert(1, 2);
    assert_eq!(l.frames, vec![1, 2, 3]);
    assert_eq!(*l.get(2), 3);
    assert_eq!(l.remove(0), 1);
    assert_eq!(l.frames, vec![2, 3]);
}

#[test]
fn receiver_layers_and_zoom() {
    let mut r: Receiver<Vec<u8>, u32> = Receiver::new("img", 16, 8, 0);
    assert_eq!((r.width, r.height, r.zoom), (16, 8, 1));
    r.add_layer("bg", vec![0; 128]);
    r.add_layer_page("fg", vec![1; 128]);
    assert_eq!(r.data.len(), 2);
    assert!(!r.is_lock());
    assert_eq!(r.page(1, 0)[0], 1);
    assert_eq!(r.current()[0], 0);
    r.zoom(3, |d| Point2 { x: d * 2, y: -d });
    assert_eq!(r.zoom, 4);
    assert_eq!(r.pos, Point2 { x: -6, y: 3 });
    r.zoom(20, |d| Point2 { x: d, y: 0 });
    assert_eq!(r.zoom, 16);
    assert_eq!(r.pos, Point2 { x: -18, y: 3 });
    r.zoom(-100, |_| Point2 { x: 0, y: 0 });
    assert_eq!(r.zoom, 1);
}

#[test]
fn flow_layout_of_axis() {
    let f = Flow::new(Axis::Vertical, lrect(0, 0, 1, 1));
    assert_eq!(f.axis, Axis::Vertical);
    assert!(f.widgets.is_empty());
}

#[test]
fn draw_command_applies_and_undoes() {
    let mut r: Receiver<u8, ()> = Receiver::new("img", 2, 2, ());
    r.add_layer("a", 10);
    r.data[0].push(11);
    r.add_layer("b", 20);
    let mut cmd = DrawCommand::new(0, 1, 99u8);
    assert_eq!(cmd.run(&mut r), Ok(()));
    assert_eq!(r.data[0].frames, vec![10, 99]);
    assert_eq!(cmd.page, 11);
    assert_eq!(cmd.run(&mut r), Ok(()));
    assert_eq!(r.data[0].frames, vec![10, 11]);
    assert_eq!(cmd.page, 99);
    *r.page_mut(1, 0) = 21;
    assert_eq!(*r.page(1, 0), 21);
}

#[test]
fn pages_to_draw() {
    let mut r: Receiver<u8, ()> = Receiver::new("img", 2, 2, ());
    r.add_layer("a", 10);
    r.data[0].push(11);
    r.add_layer("hidden", 20);
    r.data[1].visible = false;
    r.add_layer("c", 30);
    r.frame = 1;
    assert_eq!(r.draw_pages(), vec![(0, 0, false), (0, 1, true), (2, 0, false)]);
    assert!(!r.take_created());
    assert!(r.take_created());
}

#[test]
fn receiver_current_page_and_placement() {
    let mut r: Receiver<u8, ()> = Receiver::new("img", 40, 30, ());
    r.add_layer("a", 10);
    r.data[0].push(11);
    r.add_layer("b", 20);
    r.layer = 0;
    r.frame = 1;
    *r.current_mut() = 12;
    assert_eq!(r.data[0].frames, vec![10, 12]);
    assert_eq!(r.data[1].frames, vec![20]);
    assert_eq!(*r.current(), 12);
    r.pos = Point2 { x: -5, y: 7 };
    assert_eq!(r.rect(), Placement { min: Point2 { x: -5, y: 7 }, dim: Point2 { x: 40, y: 30 } });
    assert_eq!(r.bounds(), Placement { min: Point2 { x: 0, y: 0 }, dim: Point2 { x: 40, y: 30 } });
}
