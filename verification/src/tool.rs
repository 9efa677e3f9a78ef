//! Drawing tools of the sprite editor.
//!
//! A tool reacts to pointer input by asking its canvas context to do things:
//! start an edit, set pixels, commit or roll back. Here each tool method
//! returns the list of those requests, in order, and the caller performs them
//! on its context.
use vstd::prelude::*;

verus! {

/// A point of the canvas.
#[derive(Clone, Copy, Debug, PartialEq, Eq, Structural)]
pub struct Point2<N> {
    pub x: N,
    pub y: N,
}

/// A rectangle of the canvas, both corners included.
#[derive(Clone, Copy, Debug, PartialEq, Eq, Structural)]
pub struct Rect<N> {
    pub min: Point2<N>,
    pub max: Point2<N>,
}

/// A request of a tool to its canvas context.
#[derive(Clone, Copy, Debug, PartialEq, Eq, Structural)]
pub enum Command<N, C> {
    /// Start an edit.
    Start,
    /// Keep the edit.
    Commit,
    /// Drop the edit.
    Rollback,
    /// Go back to the canvas as it was when the edit started.
    Sync,
    /// Set one pixel.
    SetPixel(N, N, C),
    /// Fill a rectangle, both corners included.
    FillRect(Rect<N>, C),
    /// Stamp the brush at a point.
    PaintBrush(Point2<N>, C),
    /// Flood-fill from a point.
    ScanlineFill(Point2<N>, C),
    /// Make a color the current one.
    ChangeColor(C),
    /// Draw the ellipse inscribed in a rectangle, filled or as an outline.
    Ellipse(Rect<N>, bool, C),
}

/// Pointer input for the rectangle tool.
#[derive(Clone, Copy, Debug, PartialEq, Eq, Structural)]
pub enum Input<N> {
    Move(Point2<N>),
    Special(bool),
    Press(Point2<N>),
    Release(Point2<N>),
    Cancel,
}

pub open spec fn min_int(a: int, b: int) -> int {
    if a < b { a } else { b }
}

pub open spec fn max_int(a: int, b: int) -> int {
    if a < b { b } else { a }
}

pub open spec fn abs_int(a: int) -> int {
    if a < 0 { -a } else { a }
}

pub open spec fn signum(a: int) -> int {
    if a < 0 { -1 } else if a > 0 { 1 } else { 0 }
}

/// The rectangle with corners `a` and `b`, with `min` at its top left.
pub open spec fn normalized(a: Point2<i32>, b: Point2<i32>) -> Rect<i32> {
    Rect {
        min: Point2 { x: min_int(a.x as int, b.x as int) as i32, y: min_int(a.y as int, b.y as int) as i32 },
        max: Point2 { x: max_int(a.x as int, b.x as int) as i32, y: max_int(a.y as int, b.y as int) as i32 },
    }
}

/// The rectangle with corners `a` and `b`, with `min` at its top left.
pub fn normalize(a: Point2<i32>, b: Point2<i32>) -> (r: Rect<i32>)
    ensures
        r == normalized(a, b),
{
    Rect {
        min: Point2 { x: if a.x < b.x { a.x } else { b.x }, y: if a.y < b.y { a.y } else { b.y } },
        max: Point2 { x: if a.x < b.x { b.x } else { a.x }, y: if a.y < b.y { b.y } else { a.y } },
    }
}

/// The pixels of row `y` from `x0` to `x1 - 1`, left to right.
pub open spec fn row_cmds(y: int, x0: int, x1: int, c: u8) -> Seq<Command<i32, u8>>
    decreases x1 - x0,
{
    if x1 <= x0 {
        Seq::empty()
    } else {
        row_cmds(y, x0, x1 - 1, c).push(Command::SetPixel((x1 - 1) as i32, y as i32, c))
    }
}

/// The pixels of rows `r.min.y` to `y1 - 1` of `r`, row after row.
pub open spec fn fill_cmds(r: Rect<i32>, y1: int, c: u8) -> Seq<Command<i32, u8>>
    decreases y1 - r.min.y,
{
    if y1 <= r.min.y {
        Seq::empty()
    } else {
        fill_cmds(r, y1 - 1, c) + row_cmds(y1 - 1, r.min.x as int, r.max.x + 1, c)
    }
}

/// The top and bottom edges of `r` for the columns `r.min.x` to `x1 - 1`,
/// column after column, top pixel first.
pub open spec fn edge_cmds(r: Rect<i32>, x1: int, c: u8) -> Seq<Command<i32, u8>>
    decreases x1 - r.min.x,
{
    if x1 <= r.min.x {
        Seq::empty()
    } else {
        edge_cmds(r, x1 - 1, c).push(Command::SetPixel((x1 - 1) as i32, r.min.y, c)).push(
            Command::SetPixel((x1 - 1) as i32, r.max.y, c),
        )
    }
}

/// The left and right sides of `r` for the rows `r.min.y + 1` to `y1 - 1`,
/// row after row, left pixel first.
pub open spec fn side_cmds(r: Rect<i32>, y1: int, c: u8) -> Seq<Command<i32, u8>>
    decreases y1 - r.min.y,
{
    if y1 <= r.min.y + 1 {
        Seq::empty()
    } else {
        side_cmds(r, y1 - 1, c).push(Command::SetPixel(r.min.x, (y1 - 1) as i32, c)).push(
            Command::SetPixel(r.max.x, (y1 - 1) as i32, c),
        )
    }
}

/// The pixels of a filled rectangle.
pub open spec fn spec_fill_rect(r: Rect<i32>, c: u8) -> Seq<Command<i32, u8>> {
    fill_cmds(r, r.max.y + 1, c)
}

/// The pixels of the outline of a rectangle.
pub open spec fn spec_outline_rect(r: Rect<i32>, c: u8) -> Seq<Command<i32, u8>> {
    edge_cmds(r, r.max.x + 1, c) + side_cmds(r, r.max.y as int, c)
}

/// Appends the pixels of row `y` from `x0` to `x1`, both included.
fn push_row(out: &mut Vec<Command<i32, u8>>, y: i32, x0: i32, x1: i32, c: u8)
    requires
        x0 <= x1,
    ensures
        final(out)@ == old(out)@ + row_cmds(y as int, x0 as int, x1 + 1, c),
{
    let ghost start = out@;
    let mut x = x0;
    loop
        invariant_except_break
            x0 <= x <= x1,
            out@ == start + row_cmds(y as int, x0 as int, x as int, c),
        ensures
            out@ == start + row_cmds(y as int, x0 as int, x1 + 1, c),
        decreases x1 - x,
    {
        out.push(Command::SetPixel(x, y, c));
        assert(out@ =~= start + row_cmds(y as int, x0 as int, x + 1, c));
        if x == x1 {
            break;
        }
        x = x + 1;
    }
}

/// The pixels of the filled rectangle `r`, row after row.
pub fn fill_rect(r: Rect<i32>, c: u8) -> (out: Vec<Command<i32, u8>>)
    requires
        r.min.x <= r.max.x,
        r.min.y <= r.max.y,
    ensures
        out@ == spec_fill_rect(r, c),
{
    let mut out: Vec<Command<i32, u8>> = Vec::new();
    let mut y = r.min.y;
    loop
        invariant_except_break
            r.min.x <= r.max.x,
            r.min.y <= y <= r.max.y,
            out@ == fill_cmds(r, y as int, c),
        ensures
            out@ == fill_cmds(r, r.max.y + 1, c),
        decreases r.max.y - y,
    {
        push_row(&mut out, y, r.min.x, r.max.x, c);
        assert(out@ =~= fill_cmds(r, y + 1, c));
        if y == r.max.y {
            break;
        }
        y = y + 1;
    }
    out
}

/// The pixels of the outline of `r`: its top and bottom edges column after
/// column, then its left and right sides row after row.
pub fn outline_rect(r: Rect<i32>, c: u8) -> (out: Vec<Command<i32, u8>>)
    requires
        r.min.x <= r.max.x,
        r.min.y <= r.max.y,
        r.min.y < i32::MAX,
    ensures
        out@ == spec_outline_rect(r, c),
{
    let mut out: Vec<Command<i32, u8>> = Vec::new();
    let mut x = r.min.x;
    loop
        invariant_except_break
            r.min.x <= x <= r.max.x,
            out@ == edge_cmds(r, x as int, c),
        ensures
            out@ == edge_cmds(r, r.max.x + 1, c),
        decreases r.max.x - x,
    {
        out.push(Command::SetPixel(x, r.min.y, c));
        out.push(Command::SetPixel(x, r.max.y, c));
        assert(out@ =~= edge_cmds(r, x + 1, c));
        if x == r.max.x {
            break;
        }
        x = x + 1;
    }
    let ghost edges = out@;
    assert(out@ =~= edges + side_cmds(r, r.min.y + 1, c));
    let mut y = r.min.y + 1;
    while y < r.max.y
        invariant
            r.min.y + 1 <= y,
            y <= r.max.y || y == r.min.y + 1,
            r.min.y <= r.max.y,
            edges == edge_cmds(r, r.max.x + 1, c),
            out@ == edges + side_cmds(r, y as int, c),
        decreases r.max.y - y,
    {
        out.push(Command::SetPixel(r.min.x, y, c));
        out.push(Command::SetPixel(r.max.x, y, c));
        assert(out@ =~= edges + side_cmds(r, y + 1, c));
        y = y + 1;
    }
    out
}

/// The flood-fill tool.
pub struct Bucket;

impl Bucket {
    pub fn new() -> (b: Self) {
        Bucket
    }

    /// A press at `p` fills from `p` with `color`, the context's current
    /// color, as one edit.
    pub fn press(&mut self, p: Point2<i32>, color: u8) -> (cmds: Vec<Command<i32, u8>>)
        ensures
            cmds@ == seq![Command::Start, Command::ScanlineFill(p, color), Command::Commit],
    {
        let mut cmds = Vec::new();
        cmds.push(Command::Start);
        cmds.push(Command::ScanlineFill(p, color));
        cmds.push(Command::Commit);
        cmds
    }
}

/// The tool that picks the color under the pointer.
pub struct EyeDropper;

impl EyeDropper {
    pub fn new() -> (e: Self) {
        EyeDropper
    }

    /// A press makes `picked`, the color of the canvas at the pointer (none
    /// outside the canvas), the current color.
    pub fn press(&mut self, p: Point2<i32>, picked: Option<u8>) -> (cmds: Vec<Command<i32, u8>>)
        ensures
            cmds@ == match picked {
                Some(c) => seq![Command::<i32, u8>::ChangeColor(c)],
                None => Seq::empty(),
            },
    {
        let mut cmds = Vec::new();
        if let Some(c) = picked {
            cmds.push(Command::ChangeColor(c));
        }
        cmds
    }
}

/// The shape the primitive tool draws.
#[derive(Clone, Copy, Debug, PartialEq, Eq, Structural)]
pub enum PrimitiveMode {
    Rect,
    Ellipse,
}

/// The tool that draws rectangles and ellipses between the press and the
/// pointer.
pub struct Primitive<N> {
    pub start: Point2<N>,
    pub last: Point2<N>,
    pub active: bool,
    pub square: bool,
    pub mode: PrimitiveMode,
    pub fill: bool,
}

/// The corner opposite `start` that the primitive tool uses for pointer `p`:
/// `p` itself, or, when drawing squares, the corner at the smaller of the two
/// distances, taken from `start` away from the pointer.
pub open spec fn primitive_corner(start: Point2<i32>, p: Point2<i32>, square: bool) -> (int, int) {
    if square {
        let dx = p.x - start.x;
        let dy = p.y - start.y;
        let m = min_int(abs_int(dx), abs_int(dy));
        (start.x - signum(dx) * m, start.y - signum(dy) * m)
    } else {
        (p.x as int, p.y as int)
    }
}

/// The rectangle that the primitive tool draws for pointer `p`.
pub open spec fn primitive_rect(start: Point2<i32>, p: Point2<i32>, square: bool) -> Rect<i32> {
    let (cx, cy) = primitive_corner(start, p, square);
    normalized(Point2 { x: cx as i32, y: cy as i32 }, start)
}

/// What the primitive tool draws into rectangle `r`.
pub open spec fn primitive_shape(mode: PrimitiveMode, fill: bool, r: Rect<i32>, c: u8) -> Seq<Command<i32, u8>> {
    match (fill, mode) {
        (true, PrimitiveMode::Rect) => spec_fill_rect(r, c),
        (false, PrimitiveMode::Rect) => spec_outline_rect(r, c),
        (_, PrimitiveMode::Ellipse) => seq![Command::Ellipse(r, fill, c)],
    }
}

/// The primitive tool can compute its shape for pointer `p` within `i32`.
pub open spec fn primitive_fits(start: Point2<i32>, p: Point2<i32>, square: bool, mode: PrimitiveMode, fill: bool) -> bool {
    let (cx, cy) = primitive_corner(start, p, square);
    &&& square ==> (abs_int(p.x - start.x) <= i32::MAX && abs_int(p.y - start.y) <= i32::MAX)
    &&& i32::MIN <= cx <= i32::MAX
    &&& i32::MIN <= cy <= i32::MAX
    &&& (mode == PrimitiveMode::Rect && !fill) ==> min_int(cy, start.y as int) < i32::MAX
}

impl Primitive<i32> {
    pub fn new() -> (t: Self)
        ensures
            t.start == (Point2 { x: 0i32, y: 0i32 }),
            t.last == (Point2 { x: 0i32, y: 0i32 }),
            !t.active,
            !t.square,
            t.mode == PrimitiveMode::Rect,
            t.fill,
    {
        Primitive {
            start: Point2 { x: 0, y: 0 },
            last: Point2 { x: 0, y: 0 },
            active: false,
            square: false,
            mode: PrimitiveMode::Rect,
            fill: true,
        }
    }

    /// Turns drawing squares (and circles) on or off.
    pub fn special(&mut self, on: bool)
        ensures
            *final(self) == (Primitive { square: on, ..*old(self) }),
    {
        self.square = on;
    }

    /// A press starts a shape at `p`.
    pub fn press(&mut self, p: Point2<i32>) -> (cmds: Vec<Command<i32, u8>>)
        ensures
            *final(self) == (Primitive { active: true, start: p, last: p, ..*old(self) }),
            cmds@ == seq![Command::<i32, u8>::Start],
    {
        self.active = true;
        self.start = p;
        self.last = p;
        let mut cmds = Vec::new();
        cmds.push(Command::Start);
        cmds
    }

    /// A release keeps the shape.
    pub fn release(&mut self, p: Point2<i32>) -> (cmds: Vec<Command<i32, u8>>)
        ensures
            *final(self) == (Primitive { active: false, ..*old(self) }),
            cmds@ == seq![Command::<i32, u8>::Commit],
    {
        self.active = false;
        let mut cmds = Vec::new();
        cmds.push(Command::Commit);
        cmds
    }

    /// Cancelling drops the shape.
    pub fn cancel(&mut self) -> (cmds: Vec<Command<i32, u8>>)
        ensures
            *final(self) == (Primitive { active: false, ..*old(self) }),
            cmds@ == seq![Command::<i32, u8>::Rollback],
    {
        self.active = false;
        let mut cmds = Vec::new();
        cmds.push(Command::Rollback);
        cmds
    }

    /// A move of the pointer to `p` redraws the shape between the press and
    /// `p` in `color`, the context's current color, on the canvas as it was
    /// when the shape started.
    pub fn movement(&mut self, p: Point2<i32>, color: u8) -> (cmds: Vec<Command<i32, u8>>)
        requires
            old(self).active ==> primitive_fits(old(self).start, p, old(self).square, old(self).mode, old(self).fill),
        ensures
            *final(self) == (Primitive { last: p, ..*old(self) }),
            cmds@ == if old(self).active {
                seq![Command::Sync] + primitive_shape(
                    old(self).mode,
                    old(self).fill,
                    primitive_rect(old(self).start, p, old(self).square),
                    color,
                )
            } else {
                Seq::empty()
            },
    {
        let mut cmds: Vec<Command<i32, u8>> = Vec::new();
        if self.active {
            cmds.push(Command::Sync);
            let corner = if self.square {
                let dx = p.x - self.start.x;
                let dy = p.y - self.start.y;
                let ax = if dx < 0 { -dx } else { dx };
                let ay = if dy < 0 { -dy } else { dy };
                let m = if ax < ay { ax } else { ay };
                let sx: i32 = if dx < 0 { -1 } else if dx > 0 { 1 } else { 0 };
                let sy: i32 = if dy < 0 { -1 } else if dy > 0 { 1 } else { 0 };
                assert(sx * m == signum(dx as int) * m);
                assert(sy * m == signum(dy as int) * m);
                Point2 { x: self.start.x - sx * m, y: self.start.y - sy * m }
            } else {
                p
            };
            let r = normalize(corner, self.start);
            match (self.fill, self.mode) {
                (true, PrimitiveMode::Rect) => {
                    let mut shape = fill_rect(r, color);
                    cmds.append(&mut shape);
                },
                (false, PrimitiveMode::Rect) => {
                    let mut shape = outline_rect(r, color);
                    cmds.append(&mut shape);
                },
                (fill, PrimitiveMode::Ellipse) => {
                    cmds.push(Command::Ellipse(r, fill, color));
                },
            }
        }
        self.last = p;
        cmds
    }
}

/// The rectangle tool: fills the rectangle between the press and the
/// pointer.
pub struct Rectangle<N, C> {
    pub start: Point2<N>,
    pub color: C,
    pub active: bool,
    pub square: bool,
}

/// The corner opposite `start` that the rectangle tool uses for pointer `p`:
/// `p` itself, or, when drawing squares, the corner at the smaller of the two
/// distances, taken from `start` towards the pointer.
pub open spec fn rectangle_corner(start: Point2<i16>, p: Point2<i16>, square: bool) -> (int, int) {
    if square {
        let dx = start.x - p.x;
        let dy = start.y - p.y;
        let d = min_int(abs_int(dx), abs_int(dy));
        (start.x - d * signum(dx), start.y - d * signum(dy))
    } else {
        (p.x as int, p.y as int)
    }
}

/// The rectangle with corners `(ax, ay)` and `b`, with `min` at its top left.
pub open spec fn normalized16(ax: int, ay: int, b: Point2<i16>) -> Rect<i16> {
    Rect {
        min: Point2 { x: min_int(ax, b.x as int) as i16, y: min_int(ay, b.y as int) as i16 },
        max: Point2 { x: max_int(ax, b.x as int) as i16, y: max_int(ay, b.y as int) as i16 },
    }
}

/// The state of the rectangle tool after `input`, and what it asks of the
/// context; `started` is the color that the context's `start` returns.
pub open spec fn rectangle_step(t: Rectangle<i16, u8>, input: Input<i16>, started: u8) -> (
    Rectangle<i16, u8>,
    Seq<Command<i16, u8>>,
) {
    match input {
        Input::Move(p) => if t.active {
            let (cx, cy) = rectangle_corner(t.start, p, t.square);
            (t, seq![Command::Sync, Command::FillRect(normalized16(cx, cy, t.start), t.color)])
        } else {
            (t, Seq::empty())
        },
        Input::Special(on) => (Rectangle { square: on, ..t }, Seq::empty()),
        Input::Press(p) => (Rectangle { active: true, color: started, start: p, ..t }, seq![Command::Start]),
        Input::Release(_) => (Rectangle { active: false, ..t }, seq![Command::Commit]),
        Input::Cancel => (Rectangle { active: false, ..t }, seq![Command::Rollback]),
    }
}

/// The rectangle tool accepts `input` in its state `t`: no press while a
/// rectangle is being drawn, and distances that fit in `i16`.
pub open spec fn rectangle_accepts(t: Rectangle<i16, u8>, input: Input<i16>) -> bool {
    match input {
        Input::Press(_) => !t.active,
        Input::Move(p) => t.active && t.square ==> (abs_int(t.start.x - p.x) <= i16::MAX && abs_int(
            t.start.y - p.y,
        ) <= i16::MAX),
        _ => true,
    }
}

impl Rectangle<i16, u8> {
    pub fn new() -> (t: Self)
        ensures
            t.start == (Point2 { x: 0i16, y: 0i16 }),
            t.color == 0,
            !t.active,
            !t.square,
    {
        Rectangle { start: Point2 { x: 0, y: 0 }, color: 0, active: false, square: false }
    }

    /// Handles one pointer input; `started` is the color that the context's
    /// `start` returns, which the tool takes on a press.
    pub fn run(&mut self, input: Input<i16>, started: u8) -> (cmds: Vec<Command<i16, u8>>)
        requires
            rectangle_accepts(*old(self), input),
        ensures
            (*final(self), cmds@) == rectangle_step(*old(self), input, started),
    {
        let mut cmds: Vec<Command<i16, u8>> = Vec::new();
        match input {
            Input::Move(p) => {
                if self.active {
                    cmds.push(Command::Sync);
                    let (cx, cy) = if self.square {
                        let dx = self.start.x - p.x;
                        let dy = self.start.y - p.y;
                        let ax = if dx < 0 { -dx } else { dx };
                        let ay = if dy < 0 { -dy } else { dy };
                        let d = if ax < ay { ax } else { ay };
                        let sx: i16 = if dx < 0 { -1 } else if dx > 0 { 1 } else { 0 };
                        let sy: i16 = if dy < 0 { -1 } else if dy > 0 { 1 } else { 0 };
                        assert(d * sx == d * signum(dx as int));
                        assert(d * sy == d * signum(dy as int));
                        (self.start.x - d * sx, self.start.y - d * sy)
                    } else {
                        (p.x, p.y)
                    };
                    let s = self.start;
                    let r = Rect {
                        min: Point2 { x: if cx < s.x { cx } else { s.x }, y: if cy < s.y { cy } else { s.y } },
                        max: Point2 { x: if cx < s.x { s.x } else { cx }, y: if cy < s.y { s.y } else { cy } },
                    };
                    cmds.push(Command::FillRect(r, self.color));
                }
            },
            Input::Special(on) => {
                self.square = on;
            },
            Input::Press(p) => {
                self.active = true;
                self.color = started;
                self.start = p;
                cmds.push(Command::Start);
            },
            Input::Release(_) => {
                self.active = false;
                cmds.push(Command::Commit);
            },
            Input::Cancel => {
                self.active = false;
                cmds.push(Command::Rollback);
            },
        }
        cmds
    }
}

/// The freehand tool: paints the brush along the pointer's path. In
/// "perfect" mode it keeps the last few points pending and drops corner points
/// that would make the stroke two pixels thick.
pub struct Freehand<N, C> {
    pub perfect: bool,
    pub line: bool,
    pub last: Point2<N>,
    pub pts: Vec<(Point2<N>, bool)>,
    pub color: C,
    pub active: bool,
}

/// A point whose four neighbours are within `i32`.
pub open spec fn inner(q: Point2<i32>) -> bool {
    i32::MIN < q.x < i32::MAX && i32::MIN < q.y < i32::MAX
}

/// `(x, y)` is one of the pending points.
pub open spec fn point_in(pts: Seq<(Point2<i32>, bool)>, x: int, y: int) -> bool {
    exists|i: int| 0 <= i < pts.len() && pts[i].0.x == x && pts[i].0.y == y
}

/// `(x, y)` is one of the pending points that will be painted.
pub open spec fn active_point_in(pts: Seq<(Point2<i32>, bool)>, x: int, y: int) -> bool {
    exists|i: int| 0 <= i < pts.len() && pts[i].1 && pts[i].0.x == x && pts[i].0.y == y
}

pub open spec fn as_int(b: bool) -> int {
    if b { 1 } else { 0 }
}

/// `q` is the corner of an L: exactly two of its neighbours are pending, and
/// two to be painted that meet at a right angle.
pub open spec fn is_corner(pts: Seq<(Point2<i32>, bool)>, q: Point2<i32>) -> bool {
    let n = active_point_in(pts, q.x as int, q.y - 1);
    let s = active_point_in(pts, q.x as int, q.y + 1);
    let w = active_point_in(pts, q.x - 1, q.y as int);
    let e = active_point_in(pts, q.x + 1, q.y as int);
    let count = as_int(point_in(pts, q.x as int, q.y - 1)) + as_int(point_in(pts, q.x as int, q.y + 1))
        + as_int(point_in(pts, q.x - 1, q.y as int)) + as_int(point_in(pts, q.x + 1, q.y as int));
    count == 2 && ((n && w) || (n && e) || (s && w) || (s && e))
}

/// The pending points with every corner point marked not to be painted, and
/// every other one marked to be.
pub open spec fn cleaned(pts: Seq<(Point2<i32>, bool)>) -> Seq<(Point2<i32>, bool)> {
    Seq::new(pts.len(), |i: int| (pts[i].0, !is_corner(pts, pts[i].0)))
}

/// The pending points with the points of `line` appended in order, each
/// unless it is pending already.
pub open spec fn add_line(pts: Seq<(Point2<i32>, bool)>, line: Seq<Point2<i32>>) -> Seq<(Point2<i32>, bool)>
    decreases line.len(),
{
    if line.len() == 0 {
        pts
    } else {
        let before = add_line(pts, line.drop_last());
        let q = line.last();
        if point_in(before, q.x as int, q.y as int) {
            before
        } else {
            before.push((q, true))
        }
    }
}

/// `pts` without its leading points that are not to be painted.
pub open spec fn skip_inactive(pts: Seq<(Point2<i32>, bool)>) -> Seq<(Point2<i32>, bool)>
    decreases pts.len(),
{
    if pts.len() > 0 && !pts[0].1 {
        skip_inactive(pts.drop_first())
    } else {
        pts
    }
}

/// Dropping the leading points not to be painted never lengthens the list,
/// and keeps only points that were in it.
pub proof fn lemma_skip_inactive(pts: Seq<(Point2<i32>, bool)>)
    ensures
        skip_inactive(pts).len() <= pts.len(),
        forall|i: int|
            0 <= i < skip_inactive(pts).len() ==> exists|j: int|
                0 <= j < pts.len() && pts[j] == #[trigger] skip_inactive(pts)[i],
    decreases pts.len(),
{
    if pts.len() > 0 && !pts[0].1 {
        lemma_skip_inactive(pts.drop_first());
        let r = skip_inactive(pts);
        assert forall|i: int| 0 <= i < r.len() implies exists|j: int|
            0 <= j < pts.len() && pts[j] == #[trigger] r[i] by {
            let j = choose|j: int| 0 <= j < pts.len() - 1 && pts.drop_first()[j] == r[i];
            assert(pts[j + 1] == r[i]);
        }
    }
}

/// Painting the first pending point (if it is to be painted) and dropping it,
/// with the points not to be painted that follow it, `limit` or fewer points
/// remain: what is painted, and what remains.
pub open spec fn flatten_down(pts: Seq<(Point2<i32>, bool)>, limit: nat, c: u8) -> (
    Seq<Command<i32, u8>>,
    Seq<(Point2<i32>, bool)>,
)
    decreases pts.len(),
{
    if pts.len() > limit {
        proof {
            lemma_skip_inactive(pts.drop_first());
        }
        let first: Seq<Command<i32, u8>> = if pts[0].1 {
            seq![Command::PaintBrush(pts[0].0, c)]
        } else {
            Seq::empty()
        };
        let (later, rest) = flatten_down(skip_inactive(pts.drop_first()), limit, c);
        (first + later, rest)
    } else {
        (Seq::empty(), pts)
    }
}

/// The brush painted at each point of `line`, in order.
pub open spec fn paint_line(line: Seq<Point2<i32>>, c: u8) -> Seq<Command<i32, u8>> {
    Seq::new(line.len(), |i: int| Command::PaintBrush(line[i], c))
}

/// The brush painted at each pending point that is to be painted, in order.
pub open spec fn paint_active(pts: Seq<(Point2<i32>, bool)>, c: u8) -> Seq<Command<i32, u8>>
    decreases pts.len(),
{
    if pts.len() == 0 {
        Seq::empty()
    } else {
        let before = paint_active(pts.drop_last(), c);
        if pts.last().1 {
            before.push(Command::PaintBrush(pts.last().0, c))
        } else {
            before
        }
    }
}

pub open spec fn all_inner(pts: Seq<(Point2<i32>, bool)>) -> bool {
    forall|i: int| 0 <= i < pts.len() ==> inner(#[trigger] pts[i].0)
}

pub open spec fn line_inner(line: Seq<Point2<i32>>) -> bool {
    forall|i: int| 0 <= i < line.len() ==> inner(#[trigger] line[i])
}

/// The perfect-mode step of the freehand tool for a move to `m` along
/// `line`: the new pending points and what is painted.
pub open spec fn perfect_step(pts: Seq<(Point2<i32>, bool)>, m: Point2<i32>, line: Seq<Point2<i32>>, c: u8) -> (
    Seq<Command<i32, u8>>,
    Seq<(Point2<i32>, bool)>,
) {
    if point_in(pts, m.x as int, m.y as int) {
        (Seq::empty(), pts)
    } else {
        flatten_down(cleaned(add_line(pts, line)), 4, c)
    }
}

impl Freehand<i32, u8> {
    pub open spec fn wf(&self) -> bool {
        all_inner(self.pts@)
    }

    pub fn new() -> (t: Self)
        ensures
            t.last == (Point2 { x: 0i32, y: 0i32 }),
            t.pts@.len() == 0,
            t.color == 0,
            !t.active,
            t.perfect,
            !t.line,
            t.wf(),
    {
        Freehand {
            last: Point2 { x: 0, y: 0 },
            pts: Vec::new(),
            color: 0,
            active: false,
            perfect: true,
            line: false,
        }
    }

    /// Whether `(x, y)` is one of the pending points.
    pub fn point_exists(&self, x: i32, y: i32) -> (b: bool)
        ensures
            b == point_in(self.pts@, x as int, y as int),
    {
        let mut i: usize = 0;
        while i < self.pts.len()
            invariant
                0 <= i <= self.pts.len(),
                forall|j: int| 0 <= j < i ==> !(self.pts@[j].0.x == x && self.pts@[j].0.y == y),
            decreases self.pts.len() - i,
        {
            let q = self.pts[i].0;
            if q.x == x && q.y == y {
                return true;
            }
            i += 1;
        }
        false
    }

    /// Whether `(x, y)` is one of the pending points to be painted.
    pub fn active_point_exists(&self, x: i32, y: i32) -> (b: bool)
        ensures
            b == active_point_in(self.pts@, x as int, y as int),
    {
        let mut i: usize = 0;
        while i < self.pts.len()
            invariant
                0 <= i <= self.pts.len(),
                forall|j: int| 0 <= j < i ==> !(self.pts@[j].1 && self.pts@[j].0.x == x && self.pts@[j].0.y == y),
            decreases self.pts.len() - i,
        {
            let (q, a) = self.pts[i];
            if a && q.x == x && q.y == y {
                return true;
            }
            i += 1;
        }
        false
    }

    /// Marks the corner points not to be painted and every other one to be.
    pub fn cleanup_points(&mut self)
        requires
            old(self).wf(),
        ensures
            final(self).pts@ == cleaned(old(self).pts@),
            final(self).wf(),
            final(self).perfect == old(self).perfect,
            final(self).line == old(self).line,
            final(self).last == old(self).last,
            final(self).color == old(self).color,
            final(self).active == old(self).active,
    {
        let mut cleaned_pts: Vec<(Point2<i32>, bool)> = Vec::new();
        let n = self.pts.len();
        let mut i: usize = 0;
        while i < n
            invariant
                0 <= i <= n,
                n == self.pts.len(),
                all_inner(self.pts@),
                cleaned_pts@.len() == i,
                forall|j: int| 0 <= j < i ==> #[trigger] cleaned_pts@[j] == cleaned(self.pts@)[j],
            decreases n - i,
        {
            let pt = self.pts[i].0;
            assert(inner(self.pts@[i as int].0));
            let n_ = self.active_point_exists(pt.x, pt.y - 1);
            let s_ = self.active_point_exists(pt.x, pt.y + 1);
            let w_ = self.active_point_exists(pt.x - 1, pt.y);
            let e_ = self.active_point_exists(pt.x + 1, pt.y);
            let count: usize = (if self.point_exists(pt.x, pt.y - 1) { 1 } else { 0 })
                + (if self.point_exists(pt.x, pt.y + 1) { 1 } else { 0 })
                + (if self.point_exists(pt.x - 1, pt.y) { 1 } else { 0 })
                + (if self.point_exists(pt.x + 1, pt.y) { 1 } else { 0 });
            let corner = count == 2 && ((n_ && w_) || (n_ && e_) || (s_ && w_) || (s_ && e_));
            cleaned_pts.push((pt, !corner));
            i += 1;
        }
        assert(cleaned_pts@ =~= cleaned(self.pts@));
        self.pts = cleaned_pts;
    }
}

proof fn lemma_skip_keeps_inner(pts: Seq<(Point2<i32>, bool)>)
    requires
        all_inner(pts),
        pts.len() > 0,
    ensures
        all_inner(skip_inactive(pts.drop_first())),
{
    let rest = pts.drop_first();
    lemma_skip_inactive(rest);
    let r = skip_inactive(rest);
    assert forall|i: int| 0 <= i < r.len() implies inner(#[trigger] r[i].0) by {
        let j = choose|j: int| 0 <= j < rest.len() && rest[j] == r[i];
        assert(rest[j] == pts[j + 1]);
    }
}

impl Freehand<i32, u8> {
    /// Paints the first pending point if it is to be painted, and drops it
    /// with the points not to be painted that follow it.
    fn flatten_first_point(&mut self) -> (cmds: Vec<Command<i32, u8>>)
        requires
            old(self).wf(),
            old(self).pts@.len() > 0,
        ensures
            cmds@ == (if old(self).pts@[0].1 {
                seq![Command::PaintBrush(old(self).pts@[0].0, old(self).color)]
            } else {
                Seq::<Command<i32, u8>>::empty()
            }),
            final(self).pts@ == skip_inactive(old(self).pts@.drop_first()),
            final(self).wf(),
            final(self).perfect == old(self).perfect,
            final(self).line == old(self).line,
            final(self).last == old(self).last,
            final(self).color == old(self).color,
            final(self).active == old(self).active,
    {
        proof {
            lemma_skip_keeps_inner(self.pts@);
        }
        let ghost rest = self.pts@.drop_first();
        let p = self.pts.remove(0);
        let mut cmds: Vec<Command<i32, u8>> = Vec::new();
        if p.1 {
            cmds.push(Command::PaintBrush(p.0, self.color));
        }
        while self.pts.len() > 0 && !self.pts[0].1
            invariant
                skip_inactive(self.pts@) == skip_inactive(rest),
                all_inner(skip_inactive(rest)),
                self.color == old(self).color,
                self.perfect == old(self).perfect,
                self.line == old(self).line,
                self.last == old(self).last,
                self.active == old(self).active,
            decreases self.pts.len(),
        {
            self.pts.remove(0);
        }
        cmds
    }

    /// Flattens pending points until `limit` or fewer remain.
    fn flatten_down_to(&mut self, limit: usize) -> (cmds: Vec<Command<i32, u8>>)
        requires
            old(self).wf(),
        ensures
            (cmds@, final(self).pts@) == flatten_down(old(self).pts@, limit as nat, old(self).color),
            final(self).wf(),
            final(self).perfect == old(self).perfect,
            final(self).line == old(self).line,
            final(self).last == old(self).last,
            final(self).color == old(self).color,
            final(self).active == old(self).active,
    {
        let ghost whole = flatten_down(self.pts@, limit as nat, self.color);
        let mut cmds: Vec<Command<i32, u8>> = Vec::new();
        while self.pts.len() > limit
            invariant
                self.wf(),
                self.color == old(self).color,
                self.perfect == old(self).perfect,
                self.line == old(self).line,
                self.last == old(self).last,
                self.active == old(self).active,
                whole == flatten_down(old(self).pts@, limit as nat, old(self).color),
                whole.0 == cmds@ + flatten_down(self.pts@, limit as nat, self.color).0,
                whole.1 == flatten_down(self.pts@, limit as nat, self.color).1,
            decreases self.pts.len(),
        {
            let ghost before = self.pts@;
            proof {
                lemma_skip_inactive(before.drop_first());
            }
            let mut first = self.flatten_first_point();
            cmds.append(&mut first);
            assert(whole.0 =~= cmds@ + flatten_down(self.pts@, limit as nat, self.color).0);
        }
        assert(cmds@ =~= whole.0);
        cmds
    }

    /// The perfect-mode move to `m` along `line`, the points of the line from
    /// the previous pointer position to `m`.
    pub fn update(&mut self, m: Point2<i32>, line: &Vec<Point2<i32>>) -> (cmds: Vec<Command<i32, u8>>)
        requires
            old(self).wf(),
            line_inner(line@),
        ensures
            (cmds@, final(self).pts@) == perfect_step(old(self).pts@, m, line@, old(self).color),
            final(self).wf(),
            final(self).perfect == old(self).perfect,
            final(self).line == old(self).line,
            final(self).last == old(self).last,
            final(self).color == old(self).color,
            final(self).active == old(self).active,
    {
        if self.point_exists(m.x, m.y) {
            return Vec::new();
        }
        let ghost start = self.pts@;
        let mut k: usize = 0;
        while k < line.len()
            invariant
                0 <= k <= line.len(),
                line_inner(line@),
                self.wf(),
                self.color == old(self).color,
                self.perfect == old(self).perfect,
                self.line == old(self).line,
                self.last == old(self).last,
                self.active == old(self).active,
                start == old(self).pts@,
                self.pts@ == add_line(start, line@.subrange(0, k as int)),
            decreases line.len() - k,
        {
            let q = line[k];
            assert(line@.subrange(0, k + 1).drop_last() =~= line@.subrange(0, k as int));
            if !self.point_exists(q.x, q.y) {
                self.pts.push((q, true));
            }
            k += 1;
        }
        assert(line@.subrange(0, line.len() as int) =~= line@);
        self.cleanup_points();
        self.flatten_down_to(4)
    }
}

/// The ends of the line that the freehand tool paints along for a move to
/// `p`, in the order in which it is drawn.
pub open spec fn spec_line_ends(line_mode: bool, perfect: bool, last: Point2<i32>, p: Point2<i32>) -> (
    Point2<i32>,
    Point2<i32>,
) {
    if line_mode || !perfect {
        (p, last)
    } else {
        (last, p)
    }
}

fn paint_points(cmds: &mut Vec<Command<i32, u8>>, line: &Vec<Point2<i32>>, c: u8)
    ensures
        final(cmds)@ == old(cmds)@ + paint_line(line@, c),
{
    let ghost start = cmds@;
    let mut k: usize = 0;
    while k < line.len()
        invariant
            0 <= k <= line.len(),
            cmds@ == start + paint_line(line@.subrange(0, k as int), c),
        decreases line.len() - k,
    {
        cmds.push(Command::PaintBrush(line[k], c));
        k += 1;
        assert(cmds@ =~= start + paint_line(line@.subrange(0, k as int), c));
    }
    assert(line@.subrange(0, line.len() as int) =~= line@);
}

impl Freehand<i32, u8> {
    /// The ends of the line, in order, that the caller draws for a move of
    /// the pointer to `p` and hands to `movement`.
    pub fn line_ends(&self, p: Point2<i32>) -> (r: (Point2<i32>, Point2<i32>))
        ensures
            r == spec_line_ends(self.line, self.perfect, self.last, p),
    {
        if self.line || !self.perfect {
            (p, self.last)
        } else {
            (self.last, p)
        }
    }

    /// Cancelling drops the stroke.
    pub fn cancel(&mut self) -> (cmds: Vec<Command<i32, u8>>)
        requires
            old(self).wf(),
        ensures
            cmds@ == seq![Command::<i32, u8>::Rollback],
            !final(self).active,
            final(self).pts@.len() == 0,
            final(self).wf(),
            final(self).perfect == old(self).perfect,
            final(self).line == old(self).line,
            final(self).last == old(self).last,
            final(self).color == old(self).color,
    {
        self.active = false;
        self.pts.clear();
        let mut cmds = Vec::new();
        cmds.push(Command::Rollback);
        cmds
    }

    /// A move of the pointer to `p`; `line` holds the points of the line
    /// between the ends that `line_ends` gives. In line mode the canvas goes
    /// back to where the edit started and the brush is painted along the
    /// line; while a stroke is drawn the brush is painted along it (in
    /// perfect mode through the pending points).
    pub fn movement(&mut self, p: Point2<i32>, line: &Vec<Point2<i32>>) -> (cmds: Vec<Command<i32, u8>>)
        requires
            old(self).wf(),
            !old(self).line && old(self).active && old(self).perfect ==> line_inner(line@),
        ensures
            final(self).wf(),
            final(self).perfect == old(self).perfect,
            final(self).line == old(self).line,
            final(self).color == old(self).color,
            final(self).active == old(self).active,
            old(self).line ==> {
                &&& cmds@ == seq![Command::Sync] + paint_line(line@, old(self).color)
                &&& final(self).pts@ == old(self).pts@
                &&& final(self).last == old(self).last
            },
            !old(self).line && old(self).active && old(self).perfect ==> {
                &&& (cmds@, final(self).pts@) == perfect_step(old(self).pts@, p, line@, old(self).color)
                &&& final(self).last == p
            },
            !old(self).line && old(self).active && !old(self).perfect ==> {
                &&& cmds@ == paint_line(line@, old(self).color)
                &&& final(self).pts@ == old(self).pts@
                &&& final(self).last == p
            },
            !old(self).line && !old(self).active ==> {
                &&& cmds@.len() == 0
                &&& final(self).pts@ == old(self).pts@
                &&& final(self).last == old(self).last
            },
    {
        let mut cmds: Vec<Command<i32, u8>> = Vec::new();
        if self.line {
            cmds.push(Command::Sync);
            paint_points(&mut cmds, line, self.color);
        } else if self.active {
            if self.perfect {
                cmds = self.update(p, line);
            } else {
                paint_points(&mut cmds, line, self.color);
            }
            self.last = p;
        }
        cmds
    }

    /// A press at `p`: in line mode it keeps the line drawn so far; otherwise
    /// it starts a stroke at `p` in `started`, the color that the context's
    /// `start` returns.
    pub fn press(&mut self, p: Point2<i32>, started: u8) -> (cmds: Vec<Command<i32, u8>>)
        requires
            old(self).wf(),
            !old(self).line ==> inner(p),
        ensures
            final(self).wf(),
            final(self).perfect == old(self).perfect,
            final(self).line == old(self).line,
            old(self).line ==> {
                &&& cmds@ == seq![Command::<i32, u8>::Commit]
                &&& final(self).pts@ == old(self).pts@
                &&& final(self).last == old(self).last
                &&& final(self).color == old(self).color
                &&& final(self).active == old(self).active
            },
            !old(self).line ==> {
                &&& cmds@ == seq![Command::Start, Command::PaintBrush(p, started)]
                &&& final(self).pts@ == old(self).pts@.push((p, true))
                &&& final(self).last == p
                &&& final(self).color == started
                &&& final(self).active
            },
    {
        let mut cmds: Vec<Command<i32, u8>> = Vec::new();
        if self.line {
            cmds.push(Command::Commit);
        } else {
            self.active = true;
            cmds.push(Command::Start);
            self.color = started;
            self.pts.push((p, true));
            self.last = p;
            cmds.push(Command::PaintBrush(p, started));
        }
        cmds
    }

    /// A release at `p` paints every pending point still to be painted and
    /// keeps the stroke.
    pub fn release(&mut self, p: Point2<i32>) -> (cmds: Vec<Command<i32, u8>>)
        requires
            old(self).wf(),
        ensures
            final(self).wf(),
            !final(self).active,
            final(self).last == p,
            final(self).perfect == old(self).perfect,
            final(self).line == old(self).line,
            final(self).color == old(self).color,
            old(self).active ==> {
                &&& cmds@ == flatten_down(old(self).pts@, 0, old(self).color).0.push(Command::Commit)
                &&& final(self).pts@ == flatten_down(old(self).pts@, 0, old(self).color).1
            },
            !old(self).active ==> {
                &&& cmds@.len() == 0
                &&& final(self).pts@ == old(self).pts@
            },
    {
        let mut cmds: Vec<Command<i32, u8>> = Vec::new();
        if self.active {
            cmds = self.flatten_down_to(0);
            cmds.push(Command::Commit);
        }
        self.active = false;
        self.last = p;
        cmds
    }

    /// Turns line mode on or off; when no stroke is drawn the canvas goes
    /// back to where the edit started and a new edit starts, in `started`,
    /// the color that the context's `start` returns.
    pub fn special(&mut self, on: bool, started: u8) -> (cmds: Vec<Command<i32, u8>>)
        requires
            old(self).wf(),
        ensures
            final(self).wf(),
            final(self).line == on,
            final(self).pts@ == old(self).pts@,
            final(self).perfect == old(self).perfect,
            final(self).last == old(self).last,
            final(self).active == old(self).active,
            !old(self).active ==> cmds@ == seq![Command::<i32, u8>::Sync, Command::Start] && final(self).color == started,
            old(self).active ==> cmds@.len() == 0 && final(self).color == old(self).color,
    {
        self.line = on;
        let mut cmds: Vec<Command<i32, u8>> = Vec::new();
        if !self.active {
            cmds.push(Command::Sync);
            cmds.push(Command::Start);
            self.color = started;
        }
        cmds
    }

    /// What to show under the pointer at `mouse`: the pending points of the
    /// stroke, or the brush at the pointer.
    pub fn preview(&self, mouse: Point2<i32>) -> (cmds: Vec<Command<i32, u8>>)
        ensures
            cmds@ == if self.active {
                paint_active(self.pts@, self.color)
            } else {
                seq![Command::PaintBrush(mouse, self.color)]
            },
    {
        let mut cmds: Vec<Command<i32, u8>> = Vec::new();
        if self.active {
            let mut k: usize = 0;
            while k < self.pts.len()
                invariant
                    0 <= k <= self.pts.len(),
                    cmds@ == paint_active(self.pts@.subrange(0, k as int), self.color),
                decreases self.pts.len() - k,
            {
                let (q, a) = self.pts[k];
                assert(self.pts@.subrange(0, k + 1).drop_last() =~= self.pts@.subrange(0, k as int));
                if a {
                    cmds.push(Command::PaintBrush(q, self.color));
                }
                k += 1;
            }
            assert(self.pts@.subrange(0, self.pts.len() as int) =~= self.pts@);
        } else {
            cmds.push(Command::PaintBrush(mouse, self.color));
        }
        cmds
    }
}

/// In square mode the rectangle tool fills a square: the rectangle it fills
/// is as wide as it is high.
pub proof fn lemma_rectangle_square(start: Point2<i16>, p: Point2<i16>)
    requires
        abs_int(start.x - p.x) <= i16::MAX,
        abs_int(start.y - p.y) <= i16::MAX,
    ensures
        ({
            let (cx, cy) = rectangle_corner(start, p, true);
            let r = normalized16(cx, cy, start);
            r.max.x - r.min.x == r.max.y - r.min.y
        }),
{
}

/// In square mode the primitive tool draws into a square: the rectangle is
/// as wide as it is high.
pub proof fn lemma_primitive_square(start: Point2<i32>, p: Point2<i32>)
    requires
        primitive_fits(start, p, true, PrimitiveMode::Ellipse, true),
    ensures
        ({
            let r = primitive_rect(start, p, true);
            r.max.x - r.min.x == r.max.y - r.min.y
        }),
{
}

/// The ellipse that the primitive tool draws when the pointer moves to `p`
/// after a press at `start` lies in the rectangle between `start` and a
/// corner. Outside square mode that corner is the pointer. In square mode it
/// is a square whose side is the smaller of the pointer's two distances from
/// `start`, placed on the far side of `start` from the pointer along each
/// axis: it ends at `start` where the pointer lies beyond `start`, and starts
/// at `start` otherwise.
pub proof fn lemma_primitive_ellipse_rect(start: Point2<i32>, p: Point2<i32>, square: bool, fill: bool, c: u8)
    requires
        ({
            let dx = p.x - start.x;
            let dy = p.y - start.y;
            let ax = if dx < 0 { -dx } else { dx };
            let ay = if dy < 0 { -dy } else { dy };
            let m = if ax < ay { ax } else { ay };
            square ==> (i32::MIN <= start.x - m && start.x + m <= i32::MAX && i32::MIN <= start.y - m
                && start.y + m <= i32::MAX)
        }),
    ensures
        ({
            let dx = p.x - start.x;
            let dy = p.y - start.y;
            let ax = if dx < 0 { -dx } else { dx };
            let ay = if dy < 0 { -dy } else { dy };
            let m = if ax < ay { ax } else { ay };
            let (x0, x1) = if square {
                if dx > 0 { (start.x - m, start.x as int) } else { (start.x as int, start.x + m) }
            } else {
                if p.x < start.x { (p.x as int, start.x as int) } else { (start.x as int, p.x as int) }
            };
            let (y0, y1) = if square {
                if dy > 0 { (start.y - m, start.y as int) } else { (start.y as int, start.y + m) }
            } else {
                if p.y < start.y { (p.y as int, start.y as int) } else { (start.y as int, p.y as int) }
            };
            primitive_shape(PrimitiveMode::Ellipse, fill, primitive_rect(start, p, square), c) == seq![
                Command::Ellipse(
                    Rect {
                        min: Point2 { x: x0 as i32, y: y0 as i32 },
                        max: Point2 { x: x1 as i32, y: y1 as i32 },
                    },
                    fill,
                    c,
                ),
            ]
        }),
{
}

/// The square that the rectangle tool fills when the pointer moves to `p`
/// after a press at `start`, in square mode: its side is the smaller of the
/// pointer's two distances from `start`, and it lies on the pointer's side of
/// `start` along each axis: it ends at `start` where the pointer lies before
/// `start`, and starts at `start` otherwise.
pub proof fn lemma_rectangle_square_side(t: Rectangle<i16, u8>, p: Point2<i16>, started: u8)
    requires
        t.active,
        t.square,
    ensures
        ({
            let dx = p.x - t.start.x;
            let dy = p.y - t.start.y;
            let ax = if dx < 0 { -dx } else { dx };
            let ay = if dy < 0 { -dy } else { dy };
            let m = if ax < ay { ax } else { ay };
            let (x0, x1) = if dx < 0 { (t.start.x - m, t.start.x as int) } else { (t.start.x as int, t.start.x + m) };
            let (y0, y1) = if dy < 0 { (t.start.y - m, t.start.y as int) } else { (t.start.y as int, t.start.y + m) };
            rectangle_step(t, Input::Move(p), started) == (
                t,
                seq![
                    Command::<i16, u8>::Sync,
                    Command::FillRect(
                        Rect {
                            min: Point2 { x: x0 as i16, y: y0 as i16 },
                            max: Point2 { x: x1 as i16, y: y1 as i16 },
                        },
                        t.color,
                    ),
                ],
            )
        }),
{
}

/// Flattening down to `limit` leaves at most `limit` pending points, unless
/// there were no more than that to start with, in which case they stay.
pub proof fn lemma_flatten_down_limit(pts: Seq<(Point2<i32>, bool)>, limit: nat, c: u8)
    ensures
        pts.len() <= limit ==> flatten_down(pts, limit, c) == (Seq::<Command<i32, u8>>::empty(), pts),
        flatten_down(pts, limit, c).1.len() <= limit || flatten_down(pts, limit, c).1 == pts,
        pts.len() > limit ==> flatten_down(pts, limit, c).1.len() <= limit,
    decreases pts.len(),
{
    if pts.len() > limit {
        lemma_skip_inactive(pts.drop_first());
        lemma_flatten_down_limit(skip_inactive(pts.drop_first()), limit, c);
    }
}

proof fn lemma_row_pixels(y: int, x0: int, x1: int, c: u8, px: i32, py: i32)
    requires
        i32::MIN <= y <= i32::MAX,
        i32::MIN <= x0,
        x1 - 1 <= i32::MAX,
    ensures
        row_cmds(y, x0, x1, c).contains(Command::SetPixel(px, py, c)) <==> (py == y && x0 <= px < x1),
    decreases x1 - x0,
{
    if x1 > x0 {
        lemma_row_pixels(y, x0, x1 - 1, c, px, py);
        let before = row_cmds(y, x0, x1 - 1, c);
        let last = Command::SetPixel((x1 - 1) as i32, y as i32, c);
        assert(row_cmds(y, x0, x1, c) == before.push(last));
        if before.push(last).contains(Command::SetPixel(px, py, c)) {
            let k = choose|k: int| 0 <= k < before.push(last).len() && before.push(last)[k] == Command::SetPixel(px, py, c);
            if k < before.len() {
                assert(before[k] == Command::SetPixel(px, py, c));
            }
        }
        if py == y && x0 <= px < x1 - 1 {
            let k = choose|k: int| 0 <= k < before.len() && before[k] == Command::SetPixel(px, py, c);
            assert(before.push(last)[k] == Command::SetPixel(px, py, c));
        }
        if py == y && px == x1 - 1 {
            assert(before.push(last)[before.len() as int] == Command::SetPixel(px, py, c));
        }
    }
}

proof fn lemma_fill_pixels(r: Rect<i32>, y1: int, c: u8, px: i32, py: i32)
    requires
        r.min.x <= r.max.x,
        y1 - 1 <= i32::MAX,
    ensures
        fill_cmds(r, y1, c).contains(Command::SetPixel(px, py, c)) <==> (r.min.y <= py < y1 && r.min.x <= px
            <= r.max.x),
    decreases y1 - r.min.y,
{
    if y1 > r.min.y {
        lemma_fill_pixels(r, y1 - 1, c, px, py);
        lemma_row_pixels(y1 - 1, r.min.x as int, r.max.x + 1, c, px, py);
        let a = fill_cmds(r, y1 - 1, c);
        let b = row_cmds(y1 - 1, r.min.x as int, r.max.x + 1, c);
        let e = Command::SetPixel(px, py, c);
        assert(fill_cmds(r, y1, c) == a + b);
        if (a + b).contains(e) {
            let k = choose|k: int| 0 <= k < (a + b).len() && (a + b)[k] == e;
            if k < a.len() {
                assert(a[k] == e);
            } else {
                assert(b[k - a.len()] == e);
            }
        }
        if a.contains(e) {
            let k = choose|k: int| 0 <= k < a.len() && a[k] == e;
            assert((a + b)[k] == e);
        }
        if b.contains(e) {
            let k = choose|k: int| 0 <= k < b.len() && b[k] == e;
            assert((a + b)[k + a.len()] == e);
        }
    }
}

/// A filled rectangle sets exactly the pixels of the rectangle, corners
/// included.
pub proof fn lemma_fill_rect_pixels(r: Rect<i32>, c: u8, px: i32, py: i32)
    requires
        r.min.x <= r.max.x,
        r.min.y <= r.max.y,
    ensures
        spec_fill_rect(r, c).contains(Command::SetPixel(px, py, c)) <==> (r.min.x <= px <= r.max.x && r.min.y
            <= py <= r.max.y),
{
    lemma_fill_pixels(r, r.max.y + 1, c, px, py);
}

proof fn lemma_contains_push2<A>(s: Seq<A>, a: A, b: A, e: A)
    ensures
        s.push(a).push(b).contains(e) <==> (s.contains(e) || e == a || e == b),
{
    let t = s.push(a).push(b);
    if t.contains(e) {
        let k = choose|k: int| 0 <= k < t.len() && t[k] == e;
        if k < s.len() {
            assert(s[k] == e);
        }
    }
    if s.contains(e) {
        let k = choose|k: int| 0 <= k < s.len() && s[k] == e;
        assert(t[k] == e);
    }
    if e == a {
        assert(t[s.len() as int] == e);
    }
    if e == b {
        assert(t[s.len() as int + 1] == e);
    }
}

proof fn lemma_contains_concat<A>(s: Seq<A>, t: Seq<A>, e: A)
    ensures
        (s + t).contains(e) <==> (s.contains(e) || t.contains(e)),
{
    if (s + t).contains(e) {
        let k = choose|k: int| 0 <= k < (s + t).len() && (s + t)[k] == e;
        if k < s.len() {
            assert(s[k] == e);
        } else {
            assert(t[k - s.len()] == e);
        }
    }
    if s.contains(e) {
        let k = choose|k: int| 0 <= k < s.len() && s[k] == e;
        assert((s + t)[k] == e);
    }
    if t.contains(e) {
        let k = choose|k: int| 0 <= k < t.len() && t[k] == e;
        assert((s + t)[k + s.len()] == e);
    }
}

proof fn lemma_edge_pixels(r: Rect<i32>, x1: int, c: u8, px: i32, py: i32)
    requires
        x1 - 1 <= i32::MAX,
    ensures
        edge_cmds(r, x1, c).contains(Command::SetPixel(px, py, c)) <==> (r.min.x <= px < x1 && (py == r.min.y
            || py == r.max.y)),
    decreases x1 - r.min.x,
{
    if x1 > r.min.x {
        lemma_edge_pixels(r, x1 - 1, c, px, py);
        lemma_contains_push2(
            edge_cmds(r, x1 - 1, c),
            Command::SetPixel((x1 - 1) as i32, r.min.y, c),
            Command::SetPixel((x1 - 1) as i32, r.max.y, c),
            Command::SetPixel(px, py, c),
        );
    }
}

proof fn lemma_side_pixels(r: Rect<i32>, y1: int, c: u8, px: i32, py: i32)
    requires
        y1 - 1 <= i32::MAX,
    ensures
        side_cmds(r, y1, c).contains(Command::SetPixel(px, py, c)) <==> (r.min.y + 1 <= py < y1 && (px == r.min.x
            || px == r.max.x)),
    decreases y1 - r.min.y,
{
    if y1 > r.min.y + 1 {
        lemma_side_pixels(r, y1 - 1, c, px, py);
        lemma_contains_push2(
            side_cmds(r, y1 - 1, c),
            Command::SetPixel(r.min.x, (y1 - 1) as i32, c),
            Command::SetPixel(r.max.x, (y1 - 1) as i32, c),
            Command::SetPixel(px, py, c),
        );
    }
}

/// A rectangle's outline sets exactly the pixels on its border: those of the
/// rectangle in its first or last column or row.
pub proof fn lemma_outline_rect_pixels(r: Rect<i32>, c: u8, px: i32, py: i32)
    requires
        r.min.x <= r.max.x,
        r.min.y <= r.max.y,
    ensures
        spec_outline_rect(r, c).contains(Command::SetPixel(px, py, c)) <==> (r.min.x <= px <= r.max.x && r.min.y
            <= py <= r.max.y && (px == r.min.x || px == r.max.x || py == r.min.y || py == r.max.y)),
{
    lemma_edge_pixels(r, r.max.x + 1, c, px, py);
    lemma_side_pixels(r, r.max.y as int, c, px, py);
    lemma_contains_concat(edge_cmds(r, r.max.x + 1, c), side_cmds(r, r.max.y as int, c), Command::SetPixel(px, py, c));
}

} // verus!
