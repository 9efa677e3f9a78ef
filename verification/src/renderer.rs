//! The order in which a renderer walks the cells of a rectangle, and the
//! painter it draws grid lines with.
use vstd::prelude::*;

verus! {

/// Where drawing starts and which way it goes.
#[derive(Clone, Copy, Debug, PartialEq, Eq, Structural)]
pub enum DrawOrder {
    RightUp,
    LeftDown,
    LeftUp,
    RightDown,
}

/// A cell position.
#[derive(Clone, Copy, Debug, PartialEq, Eq, Structural)]
pub struct Point {
    pub x: isize,
    pub y: isize,
}

/// A rectangle of cells given by two corners, both included.
#[derive(Clone, Copy, Debug, PartialEq, Eq, Structural)]
pub struct Rect {
    pub min: Point,
    pub max: Point,
}

/// Something that draws the lines of a grid.
pub trait Painter {
    fn line(&mut self, x1: isize, y1: isize, x2: isize, y2: isize);

    fn set_dash_offset(&mut self, offset: isize);

    fn set_grid_pen(&mut self);
}

/// The walk of `order` over `r`: the first column, the step between columns,
/// the first row, the step between rows, and the corner the walk goes to,
/// after the corners are swapped to the side the walk starts from.
pub open spec fn walk(order: DrawOrder, r: Rect) -> (int, int, int, int, int, int) {
    match order {
        DrawOrder::RightDown => (r.min.x as int, 1, r.min.y as int, 1, r.max.x as int, r.max.y as int),
        DrawOrder::RightUp => (r.min.x as int, 1, r.max.y as int, -1, r.max.x as int, r.min.y as int),
        DrawOrder::LeftDown => (r.max.x as int, -1, r.min.y as int, 1, r.min.x as int, r.max.y as int),
        DrawOrder::LeftUp => (r.max.x as int, -1, r.max.y as int, -1, r.min.x as int, r.min.y as int),
    }
}

/// `k` steps of `step` (which is 1 or -1).
pub open spec fn steps(step: int, k: int) -> int {
    if step > 0 { k } else { -k }
}

/// The number of steps of `step` from `from` to `to`.
pub open spec fn count(from: int, step: int, to: int) -> int {
    if step > 0 { to - from } else { from - to }
}

/// The cells of one row `y` of a walk: `n` columns from `x0` by `ix`.
pub open spec fn walk_row(x0: int, ix: int, n: int, y: int) -> Seq<(isize, isize)>
    decreases n,
{
    if n <= 0 {
        Seq::empty()
    } else {
        walk_row(x0, ix, n - 1, y).push(((x0 + steps(ix, n - 1)) as isize, y as isize))
    }
}

/// The cells of the first `m` rows of a walk: rows from `y0` by `iy`, each
/// of `n` columns from `x0` by `ix`.
pub open spec fn walk_rows(x0: int, ix: int, n: int, y0: int, iy: int, m: int) -> Seq<(isize, isize)>
    decreases m,
{
    if m <= 0 {
        Seq::empty()
    } else {
        walk_rows(x0, ix, n, y0, iy, m - 1) + walk_row(x0, ix, n, y0 + steps(iy, m - 1))
    }
}

/// The cells that `order` visits in `r`, in order. The rows of the walk
/// start at the walk's first column coordinate, as the drawing loop has it,
/// and run to one past the last row.
pub open spec fn spec_run(order: DrawOrder, r: Rect) -> Seq<(isize, isize)> {
    let (x0, ix, _y, iy, x1, y1) = walk(order, r);
    let y0 = x0;
    walk_rows(x0, ix, count(x0, ix, x1 + ix), y0, iy, count(y0, iy, y1 + iy))
}

/// The walk of `order` over `r` ends: the rows run towards their end, and, if
/// there are any, so do the columns; and the corner past the end is an
/// `isize`.
pub open spec fn run_ends(order: DrawOrder, r: Rect) -> bool {
    let (x0, ix, _y, iy, x1, y1) = walk(order, r);
    let rows = count(x0, iy, y1 + iy);
    &&& isize::MIN <= x1 + ix <= isize::MAX
    &&& isize::MIN <= y1 + iy <= isize::MAX
    &&& rows >= 0
    &&& rows > 0 ==> count(x0, ix, x1 + ix) >= 0
}

impl DrawOrder {
    /// The cells of `r` in the order in which they are drawn.
    pub fn run(self, r: Rect) -> (cells: Vec<(isize, isize)>)
        requires
            run_ends(self, r),
        ensures
            cells@ == spec_run(self, r),
    {
        let mut min = r.min;
        let mut max = r.max;
        let (ix, iy): (isize, isize) = match self {
            DrawOrder::RightDown => (1, 1),
            DrawOrder::RightUp => {
                let t = min.y;
                min.y = max.y;
                max.y = t;
                (1, -1)
            },
            DrawOrder::LeftDown => {
                let t = min.x;
                min.x = max.x;
                max.x = t;
                (-1, 1)
            },
            DrawOrder::LeftUp => {
                let t = min.x;
                min.x = max.x;
                max.x = t;
                let t = min.y;
                min.y = max.y;
                max.y = t;
                (-1, -1)
            },
        };
        max.x = max.x + ix;
        max.y = max.y + iy;

        let ghost x0 = min.x as int;
        let ghost n = count(x0, ix as int, max.x as int);
        let ghost m = count(x0, iy as int, max.y as int);
        let mut cells: Vec<(isize, isize)> = Vec::new();
        let mut y = min.x;
        let ghost mut j: int = 0;
        while y != max.y
            invariant
                ix == 1 || ix == -1,
                iy == 1 || iy == -1,
                x0 == min.x,
                n == count(x0, ix as int, max.x as int),
                m == count(x0, iy as int, max.y as int),
                m >= 0,
                m > 0 ==> n >= 0,
                0 <= j <= m,
                y == x0 + steps(iy as int, j),
                cells@ == walk_rows(x0, ix as int, n, x0, iy as int, j),
            decreases m - j,
        {
            assert(n >= 0);
            let ghost row_start = cells@;
            let mut x = min.x;
            let ghost mut i: int = 0;
            while x != max.x
                invariant
                    ix == 1 || ix == -1,
                    x0 == min.x,
                    n == count(x0, ix as int, max.x as int),
                    n >= 0,
                    0 <= i <= n,
                    x == x0 + steps(ix as int, i),
                    cells@ == row_start + walk_row(x0, ix as int, i, y as int),
                decreases n - i,
            {
                cells.push((x, y));
                proof {
                    assert(cells@ =~= row_start + walk_row(x0, ix as int, i + 1, y as int));
                    i = i + 1;
                }
                x = x + ix;
            }
            proof {
                assert(cells@ =~= walk_rows(x0, ix as int, n, x0, iy as int, j + 1));
                j = j + 1;
            }
            y = y + iy;
        }
        cells
    }
}

proof fn lemma_walk_row_len(x0: int, ix: int, n: int, y: int)
    requires
        n >= 0,
    ensures
        walk_row(x0, ix, n, y).len() == n,
        forall|i: int|
            0 <= i < n ==> #[trigger] walk_row(x0, ix, n, y)[i] == ((x0 + steps(ix, i)) as isize, y as isize),
    decreases n,
{
    if n > 0 {
        lemma_walk_row_len(x0, ix, n - 1, y);
    }
}

/// A walk of `m` rows of `n` columns visits `m * n` cells, row after row:
/// cell `j * n + i` is column `i` of row `j`.
pub proof fn lemma_walk_cells(x0: int, ix: int, n: int, y0: int, iy: int, m: int)
    requires
        n >= 0,
        m >= 0,
    ensures
        walk_rows(x0, ix, n, y0, iy, m).len() == m * n,
        forall|j: int, i: int|
            0 <= j < m && 0 <= i < n ==> #[trigger] walk_rows(x0, ix, n, y0, iy, m)[j * n + i] == (
                (x0 + steps(ix, i)) as isize,
                (y0 + steps(iy, j)) as isize,
            ),
    decreases m,
{
    if m > 0 {
        lemma_walk_cells(x0, ix, n, y0, iy, m - 1);
        lemma_walk_row_len(x0, ix, n, y0 + steps(iy, m - 1));
        let before = walk_rows(x0, ix, n, y0, iy, m - 1);
        let row = walk_row(x0, ix, n, y0 + steps(iy, m - 1));
        assert((m - 1) * n + n == m * n) by (nonlinear_arith);
        assert forall|j: int, i: int| 0 <= j < m && 0 <= i < n implies #[trigger] walk_rows(
            x0,
            ix,
            n,
            y0,
            iy,
            m,
        )[j * n + i] == ((x0 + steps(ix, i)) as isize, (y0 + steps(iy, j)) as isize) by {
            if j < m - 1 {
                assert(j * n + i < (m - 1) * n) by (nonlinear_arith)
                    requires 0 <= j < m - 1, 0 <= i < n;
                assert(0 <= j * n + i) by (nonlinear_arith)
                    requires 0 <= j, 0 <= i, n >= 0;
            } else {
                assert(j * n + i - (m - 1) * n == i) by (nonlinear_arith)
                    requires j == m - 1;
                assert(j * n + i >= (m - 1) * n) by (nonlinear_arith)
                    requires j == m - 1, 0 <= i;
            }
        }
        assert(walk_rows(x0, ix, n, y0, iy, m) == before + row);
    } else {
        assert(m * n == 0) by (nonlinear_arith)
            requires m == 0;
    }
}

} // verus!
