//! Search over all positions of a rectangle.
use crate::cost::{codable, compute_mv_rd_cost, rd_cost};
use crate::geometry::PlaneOffset;
use crate::mv::MotionVector;
use crate::num::{fits_i16, truncate_i16, wrap16};
use crate::plane::{block_sad, searchable, Pixel, Plane};
use vstd::prelude::*;

verus! {

/// The positions from (`x_lo`, `y_lo`) up to (`x_hi`, `y_hi`) at distances of `step`,
/// row by row.
pub struct Grid {
    pub x_lo: isize,
    pub x_hi: isize,
    pub y_lo: isize,
    pub y_hi: isize,
    pub step: usize,
}

impl Grid {
    /// There is a position.
    pub open spec fn wf(self) -> bool {
        self.x_lo <= self.x_hi && self.y_lo <= self.y_hi && self.step > 0
    }

    /// The number of positions in a row.
    pub open spec fn columns(self) -> int {
        (self.x_hi - self.x_lo) / self.step as int + 1
    }

    /// The number of rows.
    pub open spec fn rows(self) -> int {
        (self.y_hi - self.y_lo) / self.step as int + 1
    }

    /// The last column: `x_hi`, or less than a step before it.
    pub open spec fn x_last(self) -> int {
        self.x_lo + (self.columns() - 1) * self.step
    }

    /// The last row: `y_hi`, or less than a step before it.
    pub open spec fn y_last(self) -> int {
        self.y_lo + (self.rows() - 1) * self.step
    }

    /// The number of positions.
    pub open spec fn len(self) -> nat {
        (self.columns() * self.rows()) as nat
    }

    /// The column of position `k`.
    pub open spec fn x(self, k: int) -> int {
        self.x_lo + (k % self.columns()) * self.step
    }

    /// The row of position `k`.
    pub open spec fn y(self, k: int) -> int {
        self.y_lo + (k / self.columns()) * self.step
    }
}

/// What the cost of a position depends on, besides the position.
pub struct FullSearchParams<T: Pixel> {
    pub p_org: Plane<T>,
    pub p_ref: Plane<T>,
    /// The position of the block being coded.
    pub po: PlaneOffset,
    pub blk_w: usize,
    pub blk_h: usize,
    pub lambda: u32,
    pub pmv: [MotionVector; 2],
    pub allow_high_precision_mv: bool,
}

/// Whether two positions are as far apart as their low 16 bits.
pub open spec fn same_window(a: int, b: int) -> bool {
    wrap16(a) - wrap16(b) == a - b
}

/// The vector that moves `po` to the position (`x`, `y`). Positions count by their
/// low 16 bits.
pub open spec fn position_mv(po: PlaneOffset, x: int, y: int) -> MotionVector {
    MotionVector {
        row: (8 * (wrap16(y) - wrap16(po.y as int))) as i16,
        col: (8 * (wrap16(x) - wrap16(po.x as int))) as i16,
    }
}

/// Whether that vector fits in 16 bits.
pub open spec fn position_in_reach(po: PlaneOffset, x: int, y: int) -> bool {
    fits_i16(8 * (wrap16(y) - wrap16(po.y as int))) && fits_i16(
        8 * (wrap16(x) - wrap16(po.x as int)),
    )
}

impl<T: Pixel> FullSearchParams<T> {
    /// The cost of the position (`x`, `y`).
    pub open spec fn cost(self, x: int, y: int) -> u64 {
        rd_cost(
            block_sad(
                self.p_org.pixels_from(self.po.x as int, self.po.y as int),
                self.p_ref.pixels_from(x, y),
                self.blk_w as nat,
                self.blk_h as nat,
            ),
            position_mv(self.po, x, y),
            self.pmv,
            self.lambda,
            self.allow_high_precision_mv,
        ) as u64
    }

    /// Whether that cost is defined: the block lies within the reference plane, and
    /// its vector can be coded.
    pub open spec fn defined(self, x: int, y: int) -> bool {
        &&& position_in_reach(self.po, x, y)
        &&& codable(position_mv(self.po, x, y), self.pmv, self.allow_high_precision_mv)
        &&& self.p_org.holds_block(
            self.po.x as int,
            self.po.y as int,
            self.blk_w as int,
            self.blk_h as int,
        )
        &&& self.p_ref.holds_block(x, y, self.blk_w as int, self.blk_h as int)
    }

    /// The cost of position `k` of the grid.
    pub open spec fn grid_cost(self, grid: Grid) -> spec_fn(int) -> u64 {
        |k: int| self.cost(grid.x(k), grid.y(k))
    }

    /// Whether the cost of each position of the grid is defined.
    pub open spec fn grid_defined(self, grid: Grid) -> bool {
        forall|k: int|
            0 <= k < grid.len() ==> self.defined(#[trigger] grid.x(k), #[trigger] grid.y(k))
    }

    /// The outcome of the search: the first of the cheapest positions.
    pub open spec fn outcome(self, grid: Grid) -> (MotionVector, u64) {
        let k = first_min(grid.len(), self.grid_cost(grid));
        (position_mv(self.po, grid.x(k), grid.y(k)), self.grid_cost(grid)(k))
    }
}

impl<T: Pixel> FullSearchParams<T> {
    /// The search has seen the first `k` positions, `first` telling whether there is
    /// none yet, and `best` is the cheapest.
    spec fn visited(self, grid: Grid, k: int, first: bool, best: (MotionVector, u64)) -> bool {
        let m = first_min(k as nat, self.grid_cost(grid));
        &&& first == (k == 0)
        &&& k > 0 ==> {
            &&& best.0 == position_mv(self.po, grid.x(m), grid.y(m))
            &&& best.1 == self.grid_cost(grid)(m)
            &&& best.1 < u64::MAX
        }
    }

    /// What one more position changes.
    proof fn lemma_visit(
        self,
        grid: Grid,
        k: int,
        first: bool,
        best: (MotionVector, u64),
        next: (MotionVector, u64),
    )
        requires
            k >= 0,
            self.visited(grid, k, first, best),
            next.0 == position_mv(self.po, grid.x(k), grid.y(k)),
            next.1 == self.cost(grid.x(k), grid.y(k)),
            next.1 < u64::MAX,
        ensures
            self.visited(
                grid,
                k + 1,
                false,
                if first || next.1 < best.1 {
                    next
                } else {
                    best
                },
            ),
    {
        let f = self.grid_cost(grid);
        assert(f(k) == next.1);
        assert(first_min((k + 1) as nat, f) == if k == 0 || f(k) < f(first_min(k as nat, f)) {
            k
        } else {
            first_min(k as nat, f)
        });
    }
}

/// The first of the numbers below `n` at which `f` is least.
pub open spec fn first_min(n: nat, f: spec_fn(int) -> u64) -> int
    decreases n,
{
    if n <= 1 {
        0
    } else {
        let earlier = first_min((n - 1) as nat, f);
        if f(n - 1) < f(earlier) {
            n - 1
        } else {
            earlier
        }
    }
}

/// The first least value of a function comes before all equal ones.
pub proof fn lemma_first_min(n: nat, f: spec_fn(int) -> u64)
    requires
        n > 0,
    ensures
        0 <= first_min(n, f) < n,
        forall|k: int| 0 <= k < n ==> f(first_min(n, f)) <= #[trigger] f(k),
        forall|k: int| 0 <= k < first_min(n, f) ==> f(first_min(n, f)) < #[trigger] f(k),
    decreases n,
{
    if n > 1 {
        lemma_first_min((n - 1) as nat, f);
    }
}

/// The `i`-th number from `lo` on in steps, when it is at most `hi`.
proof fn lemma_step_count(lo: int, hi: int, step: int, i: int)
    requires
        step > 0,
        0 <= i,
        lo + i * step <= hi,
    ensures
        i <= (hi - lo) / step,
        lo <= lo + i * step,
        hi - (lo + i * step) < step ==> i == (hi - lo) / step,
        hi - (lo + i * step) >= step ==> i + 1 <= (hi - lo) / step && lo + (i + 1) * step == lo + i
            * step + step,
{
    let q = (hi - lo) / step;
    assert(hi - lo == step * q + (hi - lo) % step && 0 <= (hi - lo) % step < step) by {
        vstd::arithmetic::div_mod::lemma_fundamental_div_mod(hi - lo, step);
        vstd::arithmetic::div_mod::lemma_mod_bound(hi - lo, step);
    }
    assert((i + 1) * step == i * step + step) by (nonlinear_arith);
    assert(i * step >= 0) by (nonlinear_arith)
        requires
            i >= 0,
            step > 0,
    ;
    assert(i <= q) by (nonlinear_arith)
        requires
            i * step <= step * q + (hi - lo) % step,
            (hi - lo) % step < step,
            step > 0,
    ;
    if hi - (lo + i * step) < step {
        assert(i >= q) by (nonlinear_arith)
            requires
                step * q < i * step + step,
                step > 0,
        ;
    } else {
        assert(i + 1 <= q) by (nonlinear_arith)
            requires
                (i + 1) * step <= step * q + (hi - lo) % step,
                (hi - lo) % step < step,
                step > 0,
        ;
    }
}

/// The last number in steps from `lo` on is at most `hi`.
proof fn lemma_step_bound(lo: int, hi: int, step: int, i: int)
    requires
        step > 0,
        0 <= i <= (hi - lo) / step,
    ensures
        lo <= lo + i * step <= hi,
{
    let q = (hi - lo) / step;
    vstd::arithmetic::div_mod::lemma_fundamental_div_mod(hi - lo, step);
    vstd::arithmetic::div_mod::lemma_mod_bound(hi - lo, step);
    assert(0 <= i * step <= step * q) by (nonlinear_arith)
        requires
            0 <= i <= q,
            step > 0,
    ;
}

/// The positions of a grid lie within its corners.
pub proof fn lemma_grid_inside(grid: Grid, k: int)
    requires
        grid.wf(),
        0 <= k < grid.len(),
    ensures
        grid.x_lo <= grid.x(k) <= grid.x_last() <= grid.x_hi,
        grid.y_lo <= grid.y(k) <= grid.y_last() <= grid.y_hi,
{
    let n = grid.columns();
    lemma_step_count(grid.x_lo as int, grid.x_hi as int, grid.step as int, 0);
    lemma_step_count(grid.y_lo as int, grid.y_hi as int, grid.step as int, 0);
    vstd::arithmetic::div_mod::lemma_fundamental_div_mod(k, n);
    vstd::arithmetic::div_mod::lemma_mod_bound(k, n);
    assert(0 <= k / n < grid.rows()) by (nonlinear_arith)
        requires
            k == n * (k / n) + k % n,
            0 <= k % n < n,
            0 <= k < n * grid.rows(),
            n > 0,
    ;
    let step = grid.step as int;
    lemma_step_bound(grid.x_lo as int, grid.x_hi as int, step, k % n);
    lemma_step_bound(grid.y_lo as int, grid.y_hi as int, step, k / n);
    lemma_step_bound(grid.x_lo as int, grid.x_hi as int, step, n - 1);
    lemma_step_bound(grid.y_lo as int, grid.y_hi as int, step, grid.rows() - 1);
    vstd::arithmetic::mul::lemma_mul_inequality(k % n, n - 1, step);
    vstd::arithmetic::mul::lemma_mul_inequality(k / n, grid.rows() - 1, step);
}

/// The first and the last position of a grid are its corners.
pub proof fn lemma_grid_corners(grid: Grid)
    requires
        grid.wf(),
    ensures
        grid.len() > 0,
        grid.x(0) == grid.x_lo && grid.y(0) == grid.y_lo,
        grid.x(grid.len() - 1) == grid.x_last() && grid.y(grid.len() - 1) == grid.y_last(),
{
    let n = grid.columns();
    let rows = grid.rows();
    lemma_grid_not_empty(grid);
    lemma_step_count(grid.x_lo as int, grid.x_hi as int, grid.step as int, 0);
    lemma_step_count(grid.y_lo as int, grid.y_hi as int, grid.step as int, 0);
    lemma_grid_position(grid, 0, 0);
    lemma_grid_position(grid, n - 1, rows - 1);
    assert((rows - 1) * n + (n - 1) == n * rows - 1) by (nonlinear_arith);
}

/// A grid has a position.
pub proof fn lemma_grid_not_empty(grid: Grid)
    requires
        grid.wf(),
    ensures
        grid.len() > 0,
{
    lemma_step_count(grid.x_lo as int, grid.x_hi as int, grid.step as int, 0);
    lemma_step_count(grid.y_lo as int, grid.y_hi as int, grid.step as int, 0);
    assert(grid.columns() * grid.rows() > 0) by (nonlinear_arith)
        requires
            grid.columns() >= 1,
            grid.rows() >= 1,
    ;
}

/// The position in column `ix` of row `iy`.
proof fn lemma_grid_position(grid: Grid, ix: int, iy: int)
    requires
        grid.wf(),
        0 <= ix < grid.columns(),
        0 <= iy < grid.rows(),
    ensures
        0 <= iy * grid.columns() + ix < grid.len(),
        grid.x(iy * grid.columns() + ix) == grid.x_lo + ix * grid.step,
        grid.y(iy * grid.columns() + ix) == grid.y_lo + iy * grid.step,
{
    let n = grid.columns();
    let k = iy * n + ix;
    vstd::arithmetic::div_mod::lemma_fundamental_div_mod_converse(k, n, iy, ix);
    assert(0 <= k) by (nonlinear_arith)
        requires
            k == iy * n + ix,
            iy >= 0,
            ix >= 0,
            n > 0,
    ;
    assert(k < n * grid.rows()) by (nonlinear_arith)
        requires
            k == iy * n + ix,
            iy + 1 <= grid.rows(),
            ix < n,
            n > 0,
    ;
}

/// Whether (`x`, `y`) is a position of the grid: within the rectangle, whole steps from its
/// first position.
pub open spec fn on_grid(grid: Grid, x: int, y: int) -> bool {
    &&& grid.x_lo <= x <= grid.x_hi && (x - grid.x_lo) % grid.step as int == 0
    &&& grid.y_lo <= y <= grid.y_hi && (y - grid.y_lo) % grid.step as int == 0
}

/// The place of a position in the order of the grid, row by row.
pub open spec fn grid_place(grid: Grid, x: int, y: int) -> int {
    let step = grid.step as int;
    ((y - grid.y_lo) / step) * grid.columns() + (x - grid.x_lo) / step
}

/// A position of the rectangle has its place in the order of the grid.
pub proof fn lemma_grid_has_position(grid: Grid, x: int, y: int) -> (k: int)
    requires
        grid.wf(),
        on_grid(grid, x, y),
    ensures
        0 <= k < grid.len(),
        grid.x(k) == x && grid.y(k) == y,
        k == grid_place(grid, x, y),
{
    let step = grid.step as int;
    let i = (x - grid.x_lo) / step;
    let j = (y - grid.y_lo) / step;
    vstd::arithmetic::div_mod::lemma_fundamental_div_mod(x - grid.x_lo, step);
    vstd::arithmetic::div_mod::lemma_fundamental_div_mod(y - grid.y_lo, step);
    vstd::arithmetic::div_mod::lemma_div_pos_is_pos(x - grid.x_lo, step);
    vstd::arithmetic::div_mod::lemma_div_pos_is_pos(y - grid.y_lo, step);
    assert(step * i == i * step && step * j == j * step) by (nonlinear_arith);
    lemma_step_count(grid.x_lo as int, grid.x_hi as int, step, i);
    lemma_step_count(grid.y_lo as int, grid.y_hi as int, step, j);
    lemma_grid_position(grid, i, j);
    j * grid.columns() + i
}

/// A position of the order of the grid is one of the rectangle.
pub proof fn lemma_grid_position_on_grid(grid: Grid, k: int)
    requires
        grid.wf(),
        0 <= k < grid.len(),
    ensures
        on_grid(grid, grid.x(k), grid.y(k)),
        k == grid_place(grid, grid.x(k), grid.y(k)),
{
    let n = grid.columns();
    let step = grid.step as int;
    lemma_grid_inside(grid, k);
    lemma_step_count(grid.x_lo as int, grid.x_hi as int, step, 0);
    vstd::arithmetic::div_mod::lemma_fundamental_div_mod(k, n);
    vstd::arithmetic::div_mod::lemma_mod_multiples_basic(k % n, step);
    vstd::arithmetic::div_mod::lemma_mod_multiples_basic(k / n, step);
    vstd::arithmetic::div_mod::lemma_div_by_multiple(k % n, step);
    vstd::arithmetic::div_mod::lemma_div_by_multiple(k / n, step);
    assert(n * (k / n) == (k / n) * n) by (nonlinear_arith);
}

/// Of two positions of the rectangle, the one in a higher row, or further left in the same row,
/// comes first in the order of the grid.
pub proof fn lemma_grid_order(grid: Grid, x: int, y: int, p: int, q: int)
    requires
        grid.wf(),
        on_grid(grid, x, y),
        on_grid(grid, p, q),
        q < y || (q == y && p < x),
    ensures
        grid_place(grid, p, q) < grid_place(grid, x, y),
{
    let step = grid.step as int;
    let n = grid.columns();
    let i = (x - grid.x_lo) / step;
    let j = (y - grid.y_lo) / step;
    let a = (p - grid.x_lo) / step;
    let b = (q - grid.y_lo) / step;
    vstd::arithmetic::div_mod::lemma_fundamental_div_mod(x - grid.x_lo, step);
    vstd::arithmetic::div_mod::lemma_fundamental_div_mod(y - grid.y_lo, step);
    vstd::arithmetic::div_mod::lemma_fundamental_div_mod(p - grid.x_lo, step);
    vstd::arithmetic::div_mod::lemma_fundamental_div_mod(q - grid.y_lo, step);
    vstd::arithmetic::div_mod::lemma_div_pos_is_pos(x - grid.x_lo, step);
    vstd::arithmetic::div_mod::lemma_div_pos_is_pos(p - grid.x_lo, step);
    assert(step * a == a * step) by (nonlinear_arith);
    lemma_step_count(grid.x_lo as int, grid.x_hi as int, step, a);
    if q < y {
        assert(b < j) by (nonlinear_arith)
            requires
                step * b < step * j,
                step > 0,
        ;
        assert((b + 1) * n <= j * n) by (nonlinear_arith)
            requires
                b + 1 <= j,
                n > 0,
        ;
        assert((b + 1) * n == b * n + n) by (nonlinear_arith);
    } else {
        assert(a < i) by (nonlinear_arith)
            requires
                step * a < step * i,
                step > 0,
        ;
    }
}

/// Finds the first of the cheapest positions, row by row, and writes its vector and
/// cost over whatever was there.
pub fn full_search<T: Pixel>(
    x_lo: isize,
    x_hi: isize,
    y_lo: isize,
    y_hi: isize,
    blk_h: usize,
    blk_w: usize,
    p_org: &Plane<T>,
    p_ref: &Plane<T>,
    best_mv: &mut MotionVector,
    lowest_cost: &mut u64,
    po: PlaneOffset,
    step: usize,
    lambda: u32,
    pmv: [MotionVector; 2],
    allow_high_precision_mv: bool,
)
    requires
        searchable(blk_w, blk_h),
        (Grid { x_lo, x_hi, y_lo, y_hi, step }).wf(),
        (FullSearchParams {
            p_org: *p_org,
            p_ref: *p_ref,
            po,
            blk_w,
            blk_h,
            lambda,
            pmv,
            allow_high_precision_mv,
        }).grid_defined((Grid { x_lo, x_hi, y_lo, y_hi, step })),
    ensures
        (*final(best_mv), *final(lowest_cost)) == (FullSearchParams {
            p_org: *p_org,
            p_ref: *p_ref,
            po,
            blk_w,
            blk_h,
            lambda,
            pmv,
            allow_high_precision_mv,
        }).outcome((Grid { x_lo, x_hi, y_lo, y_hi, step })),
        *final(lowest_cost) < u64::MAX,
{
    let ghost grid = Grid { x_lo, x_hi, y_lo, y_hi, step };
    let ghost params = FullSearchParams {
        p_org: *p_org,
        p_ref: *p_ref,
        po,
        blk_w,
        blk_h,
        lambda,
        pmv,
        allow_high_precision_mv,
    };
    let ghost columns = grid.columns();
    let ghost mut iy: int = 0;
    let mut first: bool = true;
    let mut y: isize = y_lo;
    proof {
        lemma_step_count(x_lo as int, x_hi as int, step as int, 0);
        lemma_step_count(y_lo as int, y_hi as int, step as int, 0);
    }
    loop
        invariant_except_break
            0 <= iy < grid.rows(),
            y == y_lo + iy * step,
            params.visited(grid, iy * columns, first, (*best_mv, *lowest_cost)),
        invariant
            grid == (Grid { x_lo, x_hi, y_lo, y_hi, step }),
            grid.wf(),
            columns == grid.columns(),
            columns >= 1,
            params == (FullSearchParams {
                p_org: *p_org,
                p_ref: *p_ref,
                po,
                blk_w,
                blk_h,
                lambda,
                pmv,
                allow_high_precision_mv,
            }),
            searchable(blk_w, blk_h),
            params.grid_defined(grid),
        ensures
            params.visited(grid, grid.len() as int, first, (*best_mv, *lowest_cost)),
        decreases grid.rows() - iy,
    {
        let ghost mut ix: int = 0;
        let mut x: isize = x_lo;
        loop
            invariant_except_break
                0 <= ix < columns,
                x == x_lo + ix * step,
                params.visited(grid, iy * columns + ix, first, (*best_mv, *lowest_cost)),
            invariant
                0 <= iy < grid.rows(),
                y == y_lo + iy * step,
                grid == (Grid { x_lo, x_hi, y_lo, y_hi, step }),
                grid.wf(),
                columns == grid.columns(),
                params == (FullSearchParams {
                    p_org: *p_org,
                    p_ref: *p_ref,
                    po,
                    blk_w,
                    blk_h,
                    lambda,
                    pmv,
                    allow_high_precision_mv,
                }),
                searchable(blk_w, blk_h),
                params.grid_defined(grid),
            ensures
                params.visited(grid, iy * columns + columns, first, (*best_mv, *lowest_cost)),
            decreases columns - ix,
        {
            let ghost k = iy * columns + ix;
            proof {
                lemma_grid_position(grid, ix, iy);
                assert(params.defined(grid.x(k), grid.y(k)));
                lemma_step_bound(x_lo as int, x_hi as int, step as int, ix);
                lemma_step_count(x_lo as int, x_hi as int, step as int, ix);
            }
            let plane_org = p_org.region(po.x, po.y);
            let plane_ref = p_ref.region(x, y);
            let mv = MotionVector {
                row: 8 * (truncate_i16(y) - truncate_i16(po.y)),
                col: 8 * (truncate_i16(x) - truncate_i16(po.x)),
            };
            let cost: u64 = compute_mv_rd_cost(
                allow_high_precision_mv,
                pmv,
                lambda,
                blk_w,
                blk_h,
                mv,
                &plane_org,
                &plane_ref,
            );
            proof {
                params.lemma_visit(grid, k, first, (*best_mv, *lowest_cost), (mv, cost));
            }
            if first || cost < *lowest_cost {
                *lowest_cost = cost;
                *best_mv = mv;
                first = false;
            }
            if (x_hi as i128) - (x as i128) < step as i128 {
                break;
            }
            x = ((x as i128) + (step as i128)) as isize;
            proof {
                ix = ix + 1;
            }
        }
        proof {
            lemma_step_bound(y_lo as int, y_hi as int, step as int, iy);
            lemma_step_count(y_lo as int, y_hi as int, step as int, iy);
            assert((iy + 1) * columns == iy * columns + columns) by (nonlinear_arith);
            assert(grid.rows() * columns == columns * grid.rows()) by (nonlinear_arith);
        }
        if (y_hi as i128) - (y as i128) < step as i128 {
            break;
        }
        y = ((y as i128) + (step as i128)) as isize;
        proof {
            iy = iy + 1;
        }
    }
    proof {
        lemma_grid_not_empty(grid);
    }
}

} // verus!
