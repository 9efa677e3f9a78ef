//! A flow layout: children placed one after another along an axis, with the
//! space left over (or missing) shared out among them by weight.
use vstd::prelude::*;
use crate::rpg::trunc_div;

verus! {

/// The direction in which a flow places its children.
#[derive(Clone, Copy, Debug, PartialEq, Eq, Structural)]
pub enum Axis {
    Horizontal,
    Vertical,
}

/// A point (or a size) in layout coordinates.
#[derive(Clone, Copy, Debug, PartialEq, Eq, Structural)]
pub struct Point {
    pub x: i32,
    pub y: i32,
}

/// A rectangle given by its two corners.
#[derive(Clone, Copy, Debug, PartialEq, Eq, Structural)]
pub struct Rect {
    pub min: Point,
    pub max: Point,
}

/// How a child of a flow takes part in sharing out space.
#[derive(Clone, Copy, Debug, PartialEq, Eq, Structural)]
pub struct FlowData {
    pub along_weight: i32,
    pub expand_along: bool,
    pub shrink_along: bool,
    pub expand_across: bool,
    pub shrink_across: bool,
}

/// What the flow knows of one child: its measured size and, if it has any,
/// its flow data.
#[derive(Clone, Copy, Debug, PartialEq, Eq, Structural)]
pub struct FlowChild {
    pub measured: Point,
    pub data: Option<FlowData>,
}

/// A flow of children inside `rect`, along `axis`.
pub struct Flow {
    pub widgets: Vec<FlowChild>,
    pub rect: Rect,
    pub measured: Point,
    pub axis: Axis,
}

impl Rect {
    pub open spec fn spec_dx(self) -> int {
        self.max.x - self.min.x
    }

    pub open spec fn spec_dy(self) -> int {
        self.max.y - self.min.y
    }
}

/// The coordinate of `p` along `axis`.
pub open spec fn along(axis: Axis, p: Point) -> int {
    match axis {
        Axis::Horizontal => p.x as int,
        Axis::Vertical => p.y as int,
    }
}

/// The coordinate of `p` across `axis`.
pub open spec fn across(axis: Axis, p: Point) -> int {
    match axis {
        Axis::Horizontal => p.y as int,
        Axis::Vertical => p.x as int,
    }
}

/// The extent of `r` along `axis`.
pub open spec fn rect_along(axis: Axis, r: Rect) -> int {
    match axis {
        Axis::Horizontal => r.spec_dx(),
        Axis::Vertical => r.spec_dy(),
    }
}

/// The extent of `r` across `axis`.
pub open spec fn rect_across(axis: Axis, r: Rect) -> int {
    match axis {
        Axis::Horizontal => r.spec_dy(),
        Axis::Vertical => r.spec_dx(),
    }
}

/// Sum of the measured sizes along `axis` of the first `i` children.
pub open spec fn sum_along(axis: Axis, cs: Seq<FlowChild>, i: int) -> int
    decreases i,
{
    if i <= 0 {
        0
    } else {
        sum_along(axis, cs, i - 1) + along(axis, cs[i - 1].measured)
    }
}

/// Largest measured size across `axis` of the first `i` children, and at
/// least zero.
pub open spec fn max_across(axis: Axis, cs: Seq<FlowChild>, i: int) -> int
    decreases i,
{
    if i <= 0 {
        0
    } else {
        let m = max_across(axis, cs, i - 1);
        let a = across(axis, cs[i - 1].measured);
        if a > m { a } else { m }
    }
}

/// Whether a child gets a share of the space when the flow expands
/// (`expand`) or shrinks (`shrink`) its children.
pub open spec fn takes_share(c: FlowChild, expand: bool, shrink: bool) -> bool {
    match c.data {
        Some(d) => d.along_weight > 0 && ((expand && d.expand_along) || (shrink && d.shrink_along)),
        None => false,
    }
}

pub open spec fn share_weight(c: FlowChild, expand: bool, shrink: bool) -> int {
    if takes_share(c, expand, shrink) {
        c.data.unwrap().along_weight as int
    } else {
        0
    }
}

/// Sum of the weights of the first `i` children that take a share.
pub open spec fn sum_shares(cs: Seq<FlowChild>, expand: bool, shrink: bool, i: int) -> int
    decreases i,
{
    if i <= 0 {
        0
    } else {
        sum_shares(cs, expand, shrink, i - 1) + share_weight(cs[i - 1], expand, shrink)
    }
}

/// The size a flow measures from its children: their sizes summed along the
/// axis, and the largest of them (at least zero) across it.
pub open spec fn spec_measure(axis: Axis, cs: Seq<FlowChild>) -> Point {
    let n = cs.len() as int;
    match axis {
        Axis::Horizontal => Point { x: sum_along(axis, cs, n) as i32, y: max_across(axis, cs, n) as i32 },
        Axis::Vertical => Point { x: max_across(axis, cs, n) as i32, y: sum_along(axis, cs, n) as i32 },
    }
}

pub open spec fn spec_stretch_across(child: int, parent: int, expand: bool, shrink: bool) -> int {
    if (expand && child < parent) || (shrink && child > parent) {
        parent
    } else {
        child
    }
}

/// A child size across the flow, stretched or shrunk to the parent's size
/// where the child asks for it.
pub fn stretch_across(child: i32, parent: i32, expand: bool, shrink: bool) -> (r: i32)
    ensures
        r == spec_stretch_across(child as int, parent as int, expand, shrink),
{
    if (expand && child < parent) || (shrink && child > parent) {
        parent
    } else {
        child
    }
}

/// The space along the axis left over once every child has its measured
/// size (negative where the children do not fit).
pub open spec fn initial_extra(axis: Axis, rect: Rect, cs: Seq<FlowChild>) -> int {
    rect_along(axis, rect) - sum_along(axis, cs, cs.len() as int)
}

/// Whether the children are grown to fill the left-over space.
pub open spec fn expands(axis: Axis, rect: Rect, cs: Seq<FlowChild>) -> bool {
    initial_extra(axis, rect, cs) > 0 && sum_shares(cs, true, false, cs.len() as int) != 0
}

/// Whether the children are shrunk to fit into the rectangle.
pub open spec fn shrinks(axis: Axis, rect: Rect, cs: Seq<FlowChild>) -> bool {
    initial_extra(axis, rect, cs) < 0 && sum_shares(cs, false, true, cs.len() as int) != 0
}

/// The state of the layout before child `i`: where along the axis it starts,
/// the space still to share out, and the weight still to share it among.
pub open spec fn flow_state(axis: Axis, rect: Rect, cs: Seq<FlowChild>, i: int) -> (int, int, int)
    decreases i,
{
    let expand = expands(axis, rect, cs);
    let shrink = shrinks(axis, rect, cs);
    if i <= 0 {
        (0, initial_extra(axis, rect, cs), sum_shares(cs, expand, shrink, cs.len() as int))
    } else {
        let (p, extra, weight) = flow_state(axis, rect, cs, i - 1);
        let c = cs[i - 1];
        let size = along(axis, c.measured);
        if takes_share(c, expand, shrink) {
            let w = c.data.unwrap().along_weight as int;
            let delta = trunc_div(extra * w, weight);
            let q = p + size + delta;
            (if q < p { p } else { q }, extra - delta, weight - w)
        } else {
            (p + size, extra, weight)
        }
    }
}

/// The size across the axis given to child `c` of a flow in `rect`.
pub open spec fn child_across(axis: Axis, rect: Rect, c: FlowChild) -> int {
    let m = across(axis, c.measured);
    match c.data {
        Some(d) => spec_stretch_across(m, rect_across(axis, rect), d.expand_across, d.shrink_across),
        None => m,
    }
}

/// The bounds that the layout gives child `i`: from where the previous child
/// ends to where this one ends along the axis, and from zero to its
/// (stretched) size across it.
pub open spec fn child_bounds_ok(axis: Axis, rect: Rect, cs: Seq<FlowChild>, i: int, r: Rect) -> bool {
    &&& along(axis, r.min) == flow_state(axis, rect, cs, i).0
    &&& across(axis, r.min) == 0
    &&& along(axis, r.max) == flow_state(axis, rect, cs, i + 1).0
    &&& across(axis, r.max) == child_across(axis, rect, cs[i])
}

/// `v` is a value of `i32`.
pub open spec fn fits_i32(v: int) -> bool {
    i32::MIN <= v <= i32::MAX
}

/// The space left along the axis once the first `i` children have their
/// measured sizes is a value of `i32`.
pub open spec fn prefix_fits(axis: Axis, rect: Rect, cs: Seq<FlowChild>, i: int) -> bool {
    fits_i32(rect_along(axis, rect) - sum_along(axis, cs, i))
}

/// The coordinates that the layout computes for child `i` are values of
/// `i32`: where it ends with its measured size, and, where it takes a share,
/// where it ends with that share added.
pub open spec fn step_fits(axis: Axis, rect: Rect, cs: Seq<FlowChild>, i: int) -> bool {
    let (p, extra, weight) = flow_state(axis, rect, cs, i);
    let c = cs[i];
    let size = along(axis, c.measured);
    &&& fits_i32(p + size)
    &&& takes_share(c, expands(axis, rect, cs), shrinks(axis, rect, cs)) ==> fits_i32(
        p + size + trunc_div(extra * c.data.unwrap().along_weight, weight),
    )
}

/// Every value that the layout of `cs` in `rect` computes is a value of
/// `i32`: the rectangle's extents, the space left after each child, the
/// summed weights, and each child's coordinates.
pub open spec fn flow_fits(axis: Axis, rect: Rect, cs: Seq<FlowChild>) -> bool {
    let n = cs.len() as int;
    &&& fits_i32(rect_along(axis, rect))
    &&& fits_i32(rect_across(axis, rect))
    &&& forall|i: int| 0 < i <= n ==> #[trigger] prefix_fits(axis, rect, cs, i)
    &&& sum_shares(cs, true, false, n) <= i32::MAX
    &&& sum_shares(cs, false, true, n) <= i32::MAX
    &&& forall|i: int| 0 <= i < n ==> #[trigger] step_fits(axis, rect, cs, i)
}

proof fn lemma_shares_mono(cs: Seq<FlowChild>, expand: bool, shrink: bool, i: int, j: int)
    requires
        0 <= i <= j,
    ensures
        0 <= sum_shares(cs, expand, shrink, i) <= sum_shares(cs, expand, shrink, j),
    decreases j,
{
    if j > 0 {
        if i < j {
            lemma_shares_mono(cs, expand, shrink, i, j - 1);
        } else {
            lemma_shares_mono(cs, expand, shrink, i - 1, j - 1);
        }
    }
}

proof fn lemma_no_shares(cs: Seq<FlowChild>, i: int)
    ensures
        sum_shares(cs, false, false, i) == 0,
    decreases i,
{
    if i > 0 {
        lemma_no_shares(cs, i - 1);
    }
}

proof fn lemma_share_of_extra(extra: int, w: int, weight: int)
    requires
        0 < w <= weight,
    ensures
        extra >= 0 ==> 0 <= trunc_div(extra * w, weight) <= extra,
        extra < 0 ==> extra <= trunc_div(extra * w, weight) <= 0,
{
    if extra >= 0 {
        assert(0 <= extra * w <= extra * weight) by (nonlinear_arith)
            requires 0 <= extra, 0 < w <= weight;
        assert((extra * w) / weight <= (extra * weight) / weight) by (nonlinear_arith)
            requires 0 <= extra * w <= extra * weight, 0 < weight;
        assert((extra * weight) / weight == extra) by (nonlinear_arith)
            requires 0 < weight;
        assert(0 <= (extra * w) / weight) by (nonlinear_arith)
            requires 0 <= extra * w, 0 < weight;
    } else {
        let e = -extra;
        assert(extra * w == -(e * w)) by (nonlinear_arith)
            requires e == -extra;
        assert(0 <= e * w <= e * weight) by (nonlinear_arith)
            requires 0 <= e, 0 < w <= weight;
        assert((e * w) / weight <= (e * weight) / weight) by (nonlinear_arith)
            requires 0 <= e * w <= e * weight, 0 < weight;
        assert((e * weight) / weight == e) by (nonlinear_arith)
            requires 0 < weight;
        assert(0 <= (e * w) / weight) by (nonlinear_arith)
            requires 0 <= e * w, 0 < weight;
    }
}

impl Flow {
    pub fn new(axis: Axis, rect: Rect) -> (f: Self)
        ensures
            f.widgets@.len() == 0,
            f.rect == rect,
            f.axis == axis,
            f.measured == (Point { x: 0, y: 0 }),
    {
        Flow { widgets: Vec::new(), rect, measured: Point { x: 0, y: 0 }, axis }
    }

    pub fn vertical(rect: Rect) -> (f: Self)
        ensures
            f.widgets@.len() == 0,
            f.rect == rect,
            f.axis == Axis::Vertical,
            f.measured == (Point { x: 0, y: 0 }),
    {
        Self::new(Axis::Vertical, rect)
    }

    pub fn horizontal(rect: Rect) -> (f: Self)
        ensures
            f.widgets@.len() == 0,
            f.rect == rect,
            f.axis == Axis::Horizontal,
            f.measured == (Point { x: 0, y: 0 }),
    {
        Self::new(Axis::Horizontal, rect)
    }

    /// Appends a child at the end of the flow.
    pub fn add(&mut self, w: FlowChild)
        ensures
            final(self).widgets@ == old(self).widgets@.push(w),
            final(self).rect == old(self).rect,
            final(self).axis == old(self).axis,
            final(self).measured == old(self).measured,
    {
        self.widgets.push(w);
    }

    /// Sets the measured size of the flow from the measured sizes of its
    /// children.
    pub fn measure(&mut self)
        requires
            forall|i: int|
                0 < i <= old(self).widgets@.len() ==> fits_i32(
                    #[trigger] sum_along(old(self).axis, old(self).widgets@, i),
                ),
        ensures
            final(self).measured == spec_measure(old(self).axis, old(self).widgets@),
            final(self).widgets@ == old(self).widgets@,
            final(self).rect == old(self).rect,
            final(self).axis == old(self).axis,
    {
        let axis = self.axis;
        let n = self.widgets.len();
        let mut sum: i32 = 0;
        let mut most: i32 = 0;
        let mut i: usize = 0;
        while i < n
            invariant
                n == self.widgets.len(),
                0 <= i <= n,
                self.axis == axis,
                sum == sum_along(axis, self.widgets@, i as int),
                most == max_across(axis, self.widgets@, i as int),
                forall|k: int| 0 < k <= n ==> fits_i32(#[trigger] sum_along(axis, self.widgets@, k)),
            decreases n - i,
        {
            let ms = self.widgets[i].measured;
            assert(fits_i32(sum_along(axis, self.widgets@, i as int + 1)));
            let (a, b) = match axis {
                Axis::Horizontal => (ms.x, ms.y),
                Axis::Vertical => (ms.y, ms.x),
            };
            sum = sum + a;
            most = if b > most { b } else { most };
            i += 1;
        }
        self.measured = match axis {
            Axis::Horizontal => Point { x: sum, y: most },
            Axis::Vertical => Point { x: most, y: sum },
        };
    }

    /// The bounds of every child, in order: the children are placed one after
    /// another along the axis from zero, each with its measured size, and the
    /// space left over (or missing) is shared out by weight among the children
    /// that ask to expand (or shrink).
    pub fn layout(&self) -> (bounds: Vec<Rect>)
        requires
            flow_fits(self.axis, self.rect, self.widgets@),
        ensures
            bounds.len() == self.widgets.len(),
            forall|i: int|
                0 <= i < bounds.len() ==> child_bounds_ok(
                    self.axis,
                    self.rect,
                    self.widgets@,
                    i,
                    #[trigger] bounds@[i],
                ),
    {
        let rect = self.rect;
        let axis = self.axis;
        let ghost cs = self.widgets@;
        let n = self.widgets.len();
        proof {
            lemma_shares_mono(cs, true, false, 0, n as int);
        }
        let mut extra: i32 = match axis {
            Axis::Horizontal => rect.max.x - rect.min.x,
            Axis::Vertical => rect.max.y - rect.min.y,
        };
        let across_dim: i32 = match axis {
            Axis::Horizontal => rect.max.y - rect.min.y,
            Axis::Vertical => rect.max.x - rect.min.x,
        };
        let mut total_expand: i32 = 0;
        let mut total_shrink: i32 = 0;
        let mut i: usize = 0;
        while i < n
            invariant
                0 <= i <= n,
                n == cs.len(),
                cs == self.widgets@,
                rect == self.rect,
                axis == self.axis,
                flow_fits(axis, rect, cs),
                extra == rect_along(axis, rect) - sum_along(axis, cs, i as int),
                total_expand == sum_shares(cs, true, false, i as int),
                total_shrink == sum_shares(cs, false, true, i as int),
            decreases n - i,
        {
            let c = self.widgets[i];
            proof {
                assert(prefix_fits(axis, rect, cs, i as int + 1));
                lemma_shares_mono(cs, true, false, i as int + 1, n as int);
                lemma_shares_mono(cs, false, true, i as int + 1, n as int);
            }
            match c.data {
                Some(d) => {
                    let aw = d.along_weight;
                    if aw > 0 {
                        if d.expand_along {
                            total_expand = total_expand + aw;
                        }
                        if d.shrink_along {
                            total_shrink = total_shrink + aw;
                        }
                    }
                },
                None => {},
            }
            let size = match axis {
                Axis::Horizontal => c.measured.x,
                Axis::Vertical => c.measured.y,
            };
            extra = extra - size;
            i += 1;
        }

        let expand = extra > 0 && total_expand != 0;
        let shrink = extra < 0 && total_shrink != 0;
        let mut weight: i32 = 0;
        if expand {
            weight = total_expand;
        }
        if shrink {
            weight = total_shrink;
        }
        proof {
            if !expand && !shrink {
                lemma_no_shares(cs, n as int);
            }
            lemma_shares_mono(cs, expand, shrink, 0, n as int);
        }

        let mut p: i32 = 0;
        let mut bounds: Vec<Rect> = Vec::new();
        let mut i: usize = 0;
        while i < n
            invariant
                0 <= i <= n,
                n == cs.len(),
                cs == self.widgets@,
                rect == self.rect,
                axis == self.axis,
                flow_fits(axis, rect, cs),
                across_dim == rect_across(axis, rect),
                expand == expands(axis, rect, cs),
                shrink == shrinks(axis, rect, cs),
                flow_state(axis, rect, cs, i as int) == (p as int, extra as int, weight as int),
                weight == sum_shares(cs, expand, shrink, n as int) - sum_shares(cs, expand, shrink, i as int),
                bounds.len() == i,
                forall|j: int|
                    0 <= j < i ==> child_bounds_ok(axis, rect, cs, j, #[trigger] bounds@[j]),
            decreases n - i,
        {
            let c = self.widgets[i];
            proof {
                lemma_shares_mono(cs, expand, shrink, i as int + 1, n as int);
                assert(step_fits(axis, rect, cs, i as int));
            }
            let (size, across_size) = match axis {
                Axis::Horizontal => (c.measured.x, c.measured.y),
                Axis::Vertical => (c.measured.y, c.measured.x),
            };
            let mut q = p + size;
            match c.data {
                Some(d) => {
                    if d.along_weight > 0 && ((expand && d.expand_along) || (shrink && d.shrink_along)) {
                        let w = d.along_weight;
                        assert(c == cs[i as int]);
                        assert(takes_share(c, expand, shrink));
                        assert(sum_shares(cs, expand, shrink, i as int + 1) == sum_shares(cs, expand, shrink, i as int) + w);
                        proof {
                            lemma_share_of_extra(extra as int, w as int, weight as int);
                            assert((extra as int) * (w as int) <= 0x4000_0000_0000_0000 && (extra as int) * (
                            w as int) >= -0x4000_0000_0000_0000) by (nonlinear_arith)
                                requires
                                    i32::MIN <= extra <= i32::MAX,
                                    0 < w <= i32::MAX,
                            ;
                        }
                        let prod: i64 = (extra as i64) * (w as i64);
                        let share: i64 = prod / (weight as i64);
                        assert(share == trunc_div(extra * w, weight as int));
                        let delta = share as i32;
                        extra = extra - delta;
                        weight = weight - w;
                        q = q + delta;
                        if q < p {
                            q = p;
                        }
                    }
                },
                None => {},
            }
            let across_size = match c.data {
                Some(d) => stretch_across(across_size, across_dim, d.expand_across, d.shrink_across),
                None => across_size,
            };
            let r = match axis {
                Axis::Horizontal => Rect { min: Point { x: p, y: 0 }, max: Point { x: q, y: across_size } },
                Axis::Vertical => Rect { min: Point { x: 0, y: p }, max: Point { x: across_size, y: q } },
            };
            bounds.push(r);
            p = q;
            i += 1;
        }
        bounds
    }
}

proof fn lemma_expanding_state(axis: Axis, rect: Rect, cs: Seq<FlowChild>, i: int)
    requires
        expands(axis, rect, cs),
        0 <= i <= cs.len(),
        forall|j: int| 0 <= j < cs.len() ==> along(axis, #[trigger] cs[j].measured) >= 0,
    ensures
        ({
            let (p, extra, weight) = flow_state(axis, rect, cs, i);
            let e0 = initial_extra(axis, rect, cs);
            &&& p == sum_along(axis, cs, i) + e0 - extra
            &&& 0 <= extra <= e0
            &&& weight == sum_shares(cs, true, false, cs.len() as int) - sum_shares(cs, true, false, i)
            &&& (weight > 0 || extra == 0)
        }),
    decreases i,
{
    let n = cs.len() as int;
    lemma_shares_mono(cs, true, false, 0, n);
    if i > 0 {
        lemma_expanding_state(axis, rect, cs, i - 1);
        lemma_shares_mono(cs, true, false, i, n);
        let (p, extra, weight) = flow_state(axis, rect, cs, i - 1);
        let c = cs[i - 1];
        assert(!shrinks(axis, rect, cs));
        if takes_share(c, true, false) {
            let w = c.data.unwrap().along_weight as int;
            lemma_share_of_extra(extra, w, weight);
            if weight == w {
                assert((extra * w) / w == extra) by (nonlinear_arith)
                    requires w > 0;
            }
        }
    }
}

/// When a flow expands its children and none has a negative size, they fill
/// the rectangle: the last one ends exactly where the rectangle does.
pub proof fn lemma_flow_fills(axis: Axis, rect: Rect, cs: Seq<FlowChild>)
    requires
        expands(axis, rect, cs),
        forall|j: int| 0 <= j < cs.len() ==> along(axis, #[trigger] cs[j].measured) >= 0,
    ensures
        flow_state(axis, rect, cs, cs.len() as int).0 == rect_along(axis, rect),
{
    let n = cs.len() as int;
    lemma_expanding_state(axis, rect, cs, n);
}

/// Each child starts along the axis exactly where the previous one ends, and
/// the first one starts at zero.
pub proof fn lemma_flow_contiguous(axis: Axis, rect: Rect, cs: Seq<FlowChild>, bounds: Seq<Rect>, i: int)
    requires
        bounds.len() == cs.len(),
        forall|j: int| 0 <= j < bounds.len() ==> child_bounds_ok(axis, rect, cs, j, #[trigger] bounds[j]),
        0 <= i < bounds.len(),
    ensures
        i == 0 ==> along(axis, bounds[i].min) == 0,
        i + 1 < bounds.len() ==> along(axis, bounds[i + 1].min) == along(axis, bounds[i].max),
{
    assert(child_bounds_ok(axis, rect, cs, i, bounds[i]));
    if i + 1 < bounds.len() {
        assert(child_bounds_ok(axis, rect, cs, i + 1, bounds[i + 1]));
    }
}

/// The layout of a flow that expands its children, none of negative size,
/// tiles the axis: the first child starts at zero, each one ends where the
/// next starts, none ends before it starts or is shorter than its measured
/// size, and the last one ends at the rectangle's extent along the axis.
pub proof fn lemma_flow_tiles(axis: Axis, rect: Rect, cs: Seq<FlowChild>, bounds: Seq<Rect>)
    requires
        bounds.len() == cs.len(),
        bounds.len() > 0,
        forall|j: int| 0 <= j < bounds.len() ==> child_bounds_ok(axis, rect, cs, j, #[trigger] bounds[j]),
        expands(axis, rect, cs),
        forall|j: int| 0 <= j < cs.len() ==> along(axis, #[trigger] cs[j].measured) >= 0,
    ensures
        along(axis, bounds[0].min) == 0,
        forall|i: int|
            0 <= i < bounds.len() - 1 ==> along(axis, #[trigger] bounds[i + 1].min) == along(axis, bounds[i].max),
        forall|i: int| 0 <= i < bounds.len() ==> along(axis, #[trigger] bounds[i].min) <= along(axis, bounds[i].max),
        forall|i: int|
            0 <= i < bounds.len() ==> along(axis, #[trigger] bounds[i].max) - along(axis, bounds[i].min) >= along(
                axis,
                cs[i].measured,
            ),
        along(axis, bounds[bounds.len() - 1].max) == rect_along(axis, rect),
{
    let n = bounds.len() as int;
    lemma_flow_contiguous(axis, rect, cs, bounds, 0);
    assert forall|i: int| 0 <= i < bounds.len() - 1 implies along(axis, #[trigger] bounds[i + 1].min) == along(
        axis,
        bounds[i].max,
    ) by {
        lemma_flow_contiguous(axis, rect, cs, bounds, i);
    }
    assert forall|i: int| 0 <= i < bounds.len() implies along(axis, #[trigger] bounds[i].min) <= along(
        axis,
        bounds[i].max,
    ) by {
        assert(child_bounds_ok(axis, rect, cs, i, bounds[i]));
        assert(along(axis, cs[i].measured) >= 0);
        lemma_expanding_state(axis, rect, cs, i);
    }
    assert forall|i: int| 0 <= i < bounds.len() implies along(axis, #[trigger] bounds[i].max) - along(
        axis,
        bounds[i].min,
    ) >= along(axis, cs[i].measured) by {
        assert(child_bounds_ok(axis, rect, cs, i, bounds[i]));
        lemma_expanding_state(axis, rect, cs, i);
        let (p, extra, weight) = flow_state(axis, rect, cs, i);
        let c = cs[i];
        if takes_share(c, true, false) {
            lemma_shares_mono(cs, true, false, i + 1, cs.len() as int);
            lemma_share_of_extra(extra, c.data.unwrap().along_weight as int, weight);
        }
    }
    lemma_flow_fills(axis, rect, cs);
    assert(child_bounds_ok(axis, rect, cs, n - 1, bounds[n - 1]));
}

} // verus!
