//! What the single searches find: which vectors and positions their outcome is compared with,
//! in plain components, and which of several equal ones it is.
use crate::cost::rd_cost;
use crate::full::{
    lemma_grid_has_position, lemma_grid_order, lemma_grid_position_on_grid, on_grid, position_mv,
    FullSearchParams, Grid,
};
use crate::geometry::MvRange;
use crate::laws::{
    law_full_search_finds_first_minimum, law_improve_finds_first_cheapest, lemma_rd_cost_bounds,
    lemma_sad_bounds,
};
use crate::me::from_last;
use crate::mv::{zero_mv, MotionVector};
use crate::plane::{block_sad, searchable, Pixel};
use crate::refine::{ring, telescopic_search, telescopic_steps};
use crate::search::{
    cheapest, diamond_corners, diamond_search, diamond_walk, improve, last_in_range,
};
use vstd::prelude::*;

verus! {

/// A vector `rows` below and `cols` to the right of another.
spec fn beside(mv: MotionVector, rows: int, cols: int) -> MotionVector {
    MotionVector { row: (mv.row + rows) as i16, col: (mv.col + cols) as i16 }
}

/// No vector at a distance of `radius` below, above, to the right or to the left costs less than
/// `limit`.
spec fn none_cheaper_beside(
    center: MotionVector,
    radius: int,
    limit: u64,
    cost: spec_fn(MotionVector) -> u64,
) -> bool {
    &&& limit <= cost(beside(center, radius, 0))
    &&& limit <= cost(beside(center, -radius, 0))
    &&& limit <= cost(beside(center, 0, radius))
    &&& limit <= cost(beside(center, 0, -radius))
}

/// What the cheapest of the corners of a diamond is.
proof fn lemma_cheapest_corner(
    center: MotionVector,
    radius: int,
    cost: spec_fn(MotionVector) -> u64,
)
    ensures
        ({
            let corner = cheapest(diamond_corners(center, radius), cost);
            let below = beside(center, radius, 0);
            let right = beside(center, 0, radius);
            let above = beside(center, -radius, 0);
            let left = beside(center, 0, -radius);
            &&& none_cheaper_beside(center, radius, corner.1, cost)
            &&& corner.1 < u64::MAX ==> {
                &&& corner.1 == cost(corner.0)
                &&& corner.0 == below || corner.0 == right || corner.0 == above || corner.0 == left
                &&& cost(below) <= corner.1 ==> corner.0 == below
                &&& cost(below) > corner.1 && cost(right) <= corner.1 ==> corner.0 == right
                &&& cost(below) > corner.1 && cost(right) > corner.1 && cost(above) <= corner.1
                    ==> corner.0 == above
            }
        }),
{
    let corners = diamond_corners(center, radius);
    law_improve_finds_first_cheapest((zero_mv(), u64::MAX), corners, cost);
    assert(corners[0] == beside(center, radius, 0));
    assert(corners[1] == beside(center, 0, radius));
    assert(corners[2] == beside(center, -radius, 0));
    assert(corners[3] == beside(center, 0, -radius));
    let corner = cheapest(corners, cost);
    assert(corner.1 <= cost(corners[0]) && corner.1 <= cost(corners[1]));
    assert(corner.1 <= cost(corners[2]) && corner.1 <= cost(corners[3]));
}

/// A walk stops with no cheaper vector beside its end, at each radius on the way.
proof fn lemma_walk_stops_at_each_radius(
    center: (MotionVector, u64),
    radius: nat,
    radius_end: nat,
    cost: spec_fn(MotionVector) -> u64,
    r: int,
) -> (c: MotionVector)
    requires
        center.1 == cost(center.0),
        radius_end > 0,
        radius == radius_end || radius == 2 * radius_end || radius == 4 * radius_end,
        r >= radius_end,
        radius == r || radius == 2 * r || radius == 4 * r,
    ensures
        ({
            let end = diamond_walk(center, radius, radius_end, cost);
            &&& end.1 <= cost(c) <= center.1
            &&& end.1 == cost(end.0)
            &&& none_cheaper_beside(c, r, cost(c), cost)
            &&& r == radius_end ==> c == end.0
        }),
    decreases center.1, radius,
{
    lemma_cheapest_corner(center.0, radius as int, cost);
    let corner = cheapest(diamond_corners(center.0, radius as int), cost);
    if corner.1 < center.1 {
        lemma_walk_stops_at_each_radius(corner, radius, radius_end, cost, r)
    } else if radius <= radius_end {
        center.0
    } else if r == radius {
        lemma_walk_stops_at_each_radius(center, radius / 2, radius_end, cost, r / 2);
        center.0
    } else {
        lemma_walk_stops_at_each_radius(center, radius / 2, radius_end, cost, r)
    }
}

/// No vector one pixel below, above, to the right or to the left of what a diamond search over
/// whole pixels finds is cheaper. Where fractions of pixels are searched, the same holds of the
/// vectors a quarter of a pixel away, or an eighth with high precision.
pub proof fn law_diamond_search_leaves_nothing_cheaper_beside(
    subpixel: bool,
    allow_high_precision_mv: bool,
    predictors: Seq<MotionVector>,
    cost: spec_fn(MotionVector) -> u64,
)
    ensures
        ({
            let end = diamond_search(subpixel, allow_high_precision_mv, predictors, cost);
            let row = end.0.row;
            let col = end.0.col;
            let r: int = if !subpixel {
                8
            } else if allow_high_precision_mv {
                1
            } else {
                2
            };
            &&& end.1 <= cost(MotionVector { row: (row + r) as i16, col })
            &&& end.1 <= cost(MotionVector { row: (row - r) as i16, col })
            &&& end.1 <= cost(MotionVector { row, col: (col + r) as i16 })
            &&& end.1 <= cost(MotionVector { row, col: (col - r) as i16 })
        }),
{
    crate::laws::law_diamond_search_ends_at_local_minimum(
        subpixel,
        allow_high_precision_mv,
        predictors,
        cost,
    );
    let end = diamond_search(subpixel, allow_high_precision_mv, predictors, cost);
    let r: int = if !subpixel {
        8
    } else if allow_high_precision_mv {
        1
    } else {
        2
    };
    let corners = diamond_corners(end.0, r);
    assert(corners[0] == MotionVector { row: (end.0.row + r) as i16, col: end.0.col });
    assert(corners[1] == MotionVector { row: end.0.row, col: (end.0.col + r) as i16 });
    assert(corners[2] == MotionVector { row: (end.0.row - r) as i16, col: end.0.col });
    assert(corners[3] == MotionVector { row: end.0.row, col: (end.0.col - r) as i16 });
}

/// A diamond search looks at each distance in turn: two pixels and one over whole pixels, a
/// half, a quarter and, with high precision, an eighth over fractions. At each of them it has
/// been at a vector, no dearer than any predictor and no cheaper than its end, beside which
/// none at that distance is cheaper.
pub proof fn law_diamond_search_stops_at_each_distance(
    subpixel: bool,
    allow_high_precision_mv: bool,
    predictors: Seq<MotionVector>,
    cost: spec_fn(MotionVector) -> u64,
    k: int,
    r: int,
)
    requires
        0 <= k < predictors.len(),
        cost(predictors[k]) < u64::MAX,
        !subpixel ==> r == 16 || r == 8,
        subpixel ==> r == 4 || r == 2 || (allow_high_precision_mv && r == 1),
    ensures
        exists|c: MotionVector|
            {
                let end = diamond_search(subpixel, allow_high_precision_mv, predictors, cost);
                &&& end.1 <= #[trigger] cost(c)
                &&& forall|m: int|
                    0 <= m < predictors.len() ==> cost(c) <= cost(#[trigger] predictors[m])
                &&& cost(c) <= cost(MotionVector { row: (c.row + r) as i16, col: c.col })
                &&& cost(c) <= cost(MotionVector { row: (c.row - r) as i16, col: c.col })
                &&& cost(c) <= cost(MotionVector { row: c.row, col: (c.col + r) as i16 })
                &&& cost(c) <= cost(MotionVector { row: c.row, col: (c.col - r) as i16 })
            },
{
    law_improve_finds_first_cheapest((zero_mv(), u64::MAX), predictors, cost);
    let best = cheapest(predictors, cost);
    let start: nat = if subpixel {
        4
    } else {
        16
    };
    let last: nat = if !subpixel {
        8
    } else if allow_high_precision_mv {
        1
    } else {
        2
    };
    assert(diamond_search(subpixel, allow_high_precision_mv, predictors, cost) == diamond_walk(
        best,
        start,
        last,
        cost,
    ));
    let c = lemma_walk_stops_at_each_radius(best, start, last, cost, r);
    assert(beside(c, r, 0) == MotionVector { row: (c.row + r) as i16, col: c.col });
    assert(beside(c, -r, 0) == MotionVector { row: (c.row - r) as i16, col: c.col });
    assert(beside(c, 0, r) == MotionVector { row: c.row, col: (c.col + r) as i16 });
    assert(beside(c, 0, -r) == MotionVector { row: c.row, col: (c.col - r) as i16 });
    assert(cost(c) <= cost(c));
}

/// How a walk goes on. It is as if it had started from the cheapest of the four vectors beside
/// its start, the first of them in the order below, right, above, left, if that is cheaper;
/// otherwise it is as if it had started with half the radius, or is over at the last radius.
pub proof fn law_diamond_walk_goes_on_from_the_cheapest(
    center: (MotionVector, u64),
    radius: nat,
    radius_end: nat,
    cost: spec_fn(MotionVector) -> u64,
)
    ensures
        ({
            let row = center.0.row;
            let col = center.0.col;
            let below = MotionVector { row: (row + radius) as i16, col };
            let right = MotionVector { row, col: (col + radius) as i16 };
            let above = MotionVector { row: (row - radius) as i16, col };
            let left = MotionVector { row, col: (col - radius) as i16 };
            let from = |mv: MotionVector| diamond_walk((mv, cost(mv)), radius, radius_end, cost);
            let end = diamond_walk(center, radius, radius_end, cost);
            &&& cost(below) < center.1 && cost(below) <= cost(right) && cost(below) <= cost(above)
                && cost(below) <= cost(left) ==> end == from(below)
            &&& cost(right) < center.1 && cost(right) < cost(below) && cost(right) <= cost(above)
                && cost(right) <= cost(left) ==> end == from(right)
            &&& cost(above) < center.1 && cost(above) < cost(below) && cost(above) < cost(right)
                && cost(above) <= cost(left) ==> end == from(above)
            &&& cost(left) < center.1 && cost(left) < cost(below) && cost(left) < cost(right)
                && cost(left) < cost(above) ==> end == from(left)
            &&& center.1 <= cost(below) && center.1 <= cost(right) && center.1 <= cost(above)
                && center.1 <= cost(left) ==> end == if radius <= radius_end {
                center
            } else {
                diamond_walk(center, radius / 2, radius_end, cost)
            }
        }),
{
    lemma_cheapest_corner(center.0, radius as int, cost);
    let r = radius as int;
    assert(beside(center.0, r, 0) == MotionVector {
        row: (center.0.row + r) as i16,
        col: center.0.col,
    });
    assert(beside(center.0, 0, r) == MotionVector {
        row: center.0.row,
        col: (center.0.col + r) as i16,
    });
    assert(beside(center.0, -r, 0) == MotionVector {
        row: (center.0.row - r) as i16,
        col: center.0.col,
    });
    assert(beside(center.0, 0, -r) == MotionVector {
        row: center.0.row,
        col: (center.0.col - r) as i16,
    });
    let corners = diamond_corners(center.0, r);
    let corner = cheapest(corners, cost);
    law_improve_finds_first_cheapest((zero_mv(), u64::MAX), corners, cost);
    if corner.1 >= center.1 {
        assert(corner.1 <= cost(corners[0]) && corner.1 <= cost(corners[1]));
        assert(corner.1 <= cost(corners[2]) && corner.1 <= cost(corners[3]));
    }
}

/// A diamond search is a walk from the first of the cheapest predictors: two pixels wide at
/// first and one at last over whole pixels, half a pixel wide at first and as fine as vectors
/// are coded at last over fractions.
pub proof fn law_diamond_search_walks_from_the_first_cheapest(
    subpixel: bool,
    allow_high_precision_mv: bool,
    predictors: Seq<MotionVector>,
    cost: spec_fn(MotionVector) -> u64,
    k: int,
)
    requires
        0 <= k < predictors.len(),
        cost(predictors[k]) < u64::MAX,
        forall|m: int|
            0 <= m < predictors.len() ==> cost(predictors[k]) <= cost(#[trigger] predictors[m]),
        forall|m: int| 0 <= m < k ==> cost(predictors[k]) < cost(#[trigger] predictors[m]),
    ensures
        diamond_search(subpixel, allow_high_precision_mv, predictors, cost) == diamond_walk(
            (predictors[k], cost(predictors[k])),
            if subpixel {
                4
            } else {
                16
            },
            if !subpixel {
                8
            } else if allow_high_precision_mv {
                1
            } else {
                2
            },
            cost,
        ),
{
    law_improve_finds_first_cheapest((zero_mv(), u64::MAX), predictors, cost);
    let best = cheapest(predictors, cost);
    assert(best.1 <= cost(predictors[k]));
    assert(best != (zero_mv(), u64::MAX));
    let n = choose|n: int|
        {
            &&& 0 <= n < predictors.len()
            &&& best == (#[trigger] predictors[n], cost(predictors[n]))
            &&& cost(predictors[n]) < u64::MAX
            &&& forall|m: int| 0 <= m < n ==> cost(predictors[n]) < cost(#[trigger] predictors[m])
        };
    assert(cost(predictors[k]) <= cost(predictors[n]));
    assert(n == k);
}

/// Of the candidates, the last that lies within the bounds.
pub proof fn law_last_in_range(candidates: Seq<MotionVector>, range: MvRange, k: int)
    requires
        0 <= k <= candidates.len(),
        forall|m: int| k <= m < candidates.len() ==> !range.contains(#[trigger] candidates[m]),
    ensures
        k > 0 && range.contains(candidates[k - 1]) ==> last_in_range(candidates, range) == Some(
            candidates[k - 1],
        ),
        k == 0 ==> last_in_range(candidates, range) is None,
    decreases candidates.len(),
{
    if k < candidates.len() {
        let shorter = candidates.drop_last();
        assert(!range.contains(candidates[candidates.len() - 1]));
        assert forall|m: int| k <= m < shorter.len() implies !range.contains(
            #[trigger] shorter[m],
        ) by {
            assert(shorter[m] == candidates[m]);
        }
        law_last_in_range(shorter, range, k);
    }
}

/// The last of the vectors that is there is the one that counts.
pub proof fn law_last_vector_counts<A>(
    start: A,
    mvs: Seq<Option<MotionVector>>,
    f: spec_fn(MotionVector) -> A,
    k: int,
)
    requires
        0 <= k <= mvs.len(),
        forall|m: int| k <= m < mvs.len() ==> (#[trigger] mvs[m]) is None,
    ensures
        k > 0 ==> (mvs[k - 1] matches Some(mv) ==> from_last(start, mvs, f) == f(mv)),
        k == 0 ==> from_last(start, mvs, f) == start,
    decreases mvs.len(),
{
    if k < mvs.len() {
        let shorter = mvs.drop_last();
        assert(mvs[mvs.len() - 1] is None);
        assert forall|m: int| k <= m < shorter.len() implies (#[trigger] shorter[m]) is None by {
            assert(shorter[m] == mvs[m]);
        }
        law_last_vector_counts(start, shorter, f, k);
    }
}

/// The ring around a vector: the row above it from left to right, the vectors to its left and
/// right, and the row below it.
pub proof fn law_ring_vectors(center: MotionVector, step: int)
    ensures
        ({
            let row = center.row;
            let col = center.col;
            let above = (row - step) as i16;
            let below = (row + step) as i16;
            let left = (col - step) as i16;
            let right = (col + step) as i16;
            &&& ring(center, step).len() == 8
            &&& ring(center, step)[0] == MotionVector { row: above, col: left }
            &&& ring(center, step)[1] == MotionVector { row: above, col }
            &&& ring(center, step)[2] == MotionVector { row: above, col: right }
            &&& ring(center, step)[3] == MotionVector { row, col: left }
            &&& ring(center, step)[4] == MotionVector { row, col: right }
            &&& ring(center, step)[5] == MotionVector { row: below, col: left }
            &&& ring(center, step)[6] == MotionVector { row: below, col }
            &&& ring(center, step)[7] == MotionVector { row: below, col: right }
        }),
{
}

/// A refinement looks around with steps of a pixel, a half and a quarter, and an eighth with
/// high precision, each time from where the step before has led.
pub proof fn law_refinement_takes_each_step(
    best: (MotionVector, u64),
    cost: spec_fn(MotionVector) -> u64,
)
    ensures
        ({
            let pixel = improve(best, ring(best.0, 8), cost);
            let half = improve(pixel, ring(pixel.0, 4), cost);
            let quarter = improve(half, ring(half.0, 2), cost);
            let eighth = improve(quarter, ring(quarter.0, 1), cost);
            &&& telescopic_search(best, telescopic_steps(false), cost) == quarter
            &&& telescopic_search(best, telescopic_steps(true), cost) == eighth
        }),
{
    let coarse = telescopic_steps(false);
    let fine = telescopic_steps(true);
    assert(coarse =~= seq![8int, 4, 2]);
    assert(fine =~= seq![8int, 4, 2, 1]);
    assert(coarse.skip(1) =~= seq![4int, 2]);
    assert(coarse.skip(1).skip(1) =~= seq![2int]);
    assert(coarse.skip(1).skip(1).skip(1) =~= seq![]);
    assert(fine.skip(1) =~= seq![4int, 2, 1]);
    assert(fine.skip(1).skip(1) =~= seq![2int, 1]);
    assert(fine.skip(1).skip(1).skip(1) =~= seq![1int]);
    assert(fine.skip(1).skip(1).skip(1).skip(1) =~= seq![]);
    reveal_with_fuel(telescopic_search, 5);
}

/// A step of the refinement ends no dearer than it started and than each of the eight vectors
/// around its start, at its start or at one of them.
proof fn lemma_refinement_step(
    best: (MotionVector, u64),
    step: int,
    cost: spec_fn(MotionVector) -> u64,
)
    ensures
        ({
            let next = improve(best, ring(best.0, step), cost);
            &&& next.1 <= best.1
            &&& next == best || next.1 == cost(next.0)
            &&& next.1 <= cost(beside(best.0, -step, -step))
            &&& next.1 <= cost(beside(best.0, -step, 0))
            &&& next.1 <= cost(beside(best.0, -step, step))
            &&& next.1 <= cost(beside(best.0, 0, -step))
            &&& next.1 <= cost(beside(best.0, 0, step))
            &&& next.1 <= cost(beside(best.0, step, -step))
            &&& next.1 <= cost(beside(best.0, step, 0))
            &&& next.1 <= cost(beside(best.0, step, step))
        }),
{
    let candidates = ring(best.0, step);
    law_improve_finds_first_cheapest(best, candidates, cost);
    assert(candidates[0] == beside(best.0, -step, -step));
    assert(candidates[1] == beside(best.0, -step, 0));
    assert(candidates[2] == beside(best.0, -step, step));
    assert(candidates[3] == beside(best.0, 0, -step));
    assert(candidates[4] == beside(best.0, 0, step));
    assert(candidates[5] == beside(best.0, step, -step));
    assert(candidates[6] == beside(best.0, step, 0));
    assert(candidates[7] == beside(best.0, step, step));
}

/// A refinement passes through vectors at which it looks around: from its start with a step of
/// eight eighths of a pixel, then of four, of two and, with high precision, of one. After each
/// step it is no dearer than any of the eight vectors so far from where it was.
pub proof fn law_refinement_leaves_nothing_cheaper_around(
    best: (MotionVector, u64),
    allow_high_precision_mv: bool,
    cost: spec_fn(MotionVector) -> u64,
)
    ensures
        ({
            let none_cheaper_around = |c: MotionVector, step: int, limit: u64|
                {
                    let above = (c.row - step) as i16;
                    let below = (c.row + step) as i16;
                    let left = (c.col - step) as i16;
                    let right = (c.col + step) as i16;
                    &&& limit <= cost(MotionVector { row: above, col: left })
                    &&& limit <= cost(MotionVector { row: above, col: c.col })
                    &&& limit <= cost(MotionVector { row: above, col: right })
                    &&& limit <= cost(MotionVector { row: c.row, col: left })
                    &&& limit <= cost(MotionVector { row: c.row, col: right })
                    &&& limit <= cost(MotionVector { row: below, col: left })
                    &&& limit <= cost(MotionVector { row: below, col: c.col })
                    &&& limit <= cost(MotionVector { row: below, col: right })
                };
            let end = telescopic_search(best, telescopic_steps(allow_high_precision_mv), cost);
            exists|a: (MotionVector, u64), b: (MotionVector, u64), c: (MotionVector, u64)|
                {
                    &&& #[trigger] cost(a.0) == a.1 || a == best
                    &&& #[trigger] cost(b.0) == b.1 || b == a
                    &&& #[trigger] cost(c.0) == c.1 || c == b
                    &&& end.1 <= c.1 <= b.1 <= a.1 <= best.1
                    &&& none_cheaper_around(best.0, 8, a.1)
                    &&& none_cheaper_around(a.0, 4, b.1)
                    &&& none_cheaper_around(b.0, 2, c.1)
                    &&& allow_high_precision_mv ==> none_cheaper_around(c.0, 1, end.1)
                    &&& !allow_high_precision_mv ==> end == c
                }
        }),
{
    law_refinement_takes_each_step(best, cost);
    let a = improve(best, ring(best.0, 8), cost);
    let b = improve(a, ring(a.0, 4), cost);
    let c = improve(b, ring(b.0, 2), cost);
    lemma_refinement_step(best, 8, cost);
    lemma_refinement_step(a, 4, cost);
    lemma_refinement_step(b, 2, cost);
    lemma_refinement_step(c, 1, cost);
    assert(cost(a.0) == a.1 || a == best);
    assert(cost(b.0) == b.1 || b == a);
    assert(cost(c.0) == c.1 || c == b);
}

/// What a full search finds costs no more than any position of the rectangle that lies whole
/// steps from its first one, and it is one of these positions, the first of the cheapest: those
/// in a row above, and those further left in the same row, cost more.
pub proof fn law_full_search_finds_the_first_best_position<T: Pixel>(
    params: FullSearchParams<T>,
    x_lo: isize,
    x_hi: isize,
    y_lo: isize,
    y_hi: isize,
    step: usize,
)
    requires
        x_lo <= x_hi && y_lo <= y_hi && step > 0,
    ensures
        ({
            let found = params.outcome(Grid { x_lo, x_hi, y_lo, y_hi, step });
            exists|x: int, y: int|
                {
                    &&& x_lo <= x <= x_hi && (x - x_lo) % step as int == 0
                    &&& y_lo <= y <= y_hi && (y - y_lo) % step as int == 0
                    &&& found == (position_mv(params.po, x, y), #[trigger] params.cost(x, y))
                    &&& forall|p: int, q: int|
                        x_lo <= p <= x_hi && (p - x_lo) % step as int == 0 && y_lo <= q <= y_hi
                            && (q - y_lo) % step as int == 0 ==> {
                            &&& found.1 <= #[trigger] params.cost(p, q)
                            &&& q < y || (q == y && p < x) ==> found.1 < params.cost(p, q)
                        }
                }
        }),
{
    let grid = Grid { x_lo, x_hi, y_lo, y_hi, step };
    let found = params.outcome(grid);
    law_full_search_finds_first_minimum(params, grid);
    let k = choose|k: int|
        {
            &&& 0 <= k < grid.len()
            &&& found == (
                position_mv(params.po, #[trigger] grid.x(k), grid.y(k)),
                params.cost(grid.x(k), grid.y(k)),
            )
            &&& forall|m: int|
                0 <= m < grid.len() ==> found.1 <= params.cost(#[trigger] grid.x(m), grid.y(m))
            &&& forall|m: int|
                0 <= m < k ==> found.1 < params.cost(#[trigger] grid.x(m), grid.y(m))
        };
    let x = grid.x(k);
    let y = grid.y(k);
    lemma_grid_position_on_grid(grid, k);
    assert forall|p: int, q: int|
        x_lo <= p <= x_hi && (p - x_lo) % step as int == 0 && y_lo <= q <= y_hi && (q - y_lo)
            % step as int == 0 implies {
        &&& found.1 <= #[trigger] params.cost(p, q)
        &&& q < y || (q == y && p < x) ==> found.1 < params.cost(p, q)
    } by {
        assert(on_grid(grid, p, q));
        let m = lemma_grid_has_position(grid, p, q);
        assert(found.1 <= params.cost(grid.x(m), grid.y(m)));
        if q < y || (q == y && p < x) {
            lemma_grid_order(grid, x, y, p, q);
            assert(found.1 < params.cost(grid.x(m), grid.y(m)));
        }
    }
    assert(found == (position_mv(params.po, x, y), params.cost(x, y)));
}

/// The cost of a position is that of the vector to it, by the distance of the block being coded
/// from the block at the position.
pub proof fn law_cost_of_a_position<T: Pixel>(params: FullSearchParams<T>, x: int, y: int)
    requires
        searchable(params.blk_w, params.blk_h),
        params.defined(x, y),
    ensures
        params.cost(x, y) == rd_cost(
            block_sad(
                params.p_org.pixels_from(params.po.x as int, params.po.y as int),
                params.p_ref.pixels_from(x, y),
                params.blk_w as nat,
                params.blk_h as nat,
            ),
            position_mv(params.po, x, y),
            params.pmv,
            params.lambda,
            params.allow_high_precision_mv,
        ),
        params.cost(x, y) < u64::MAX,
{
    let a = params.p_org.pixels_from(params.po.x as int, params.po.y as int);
    let b = params.p_ref.pixels_from(x, y);
    assert forall|i: int, j: int| 0 <= i < params.blk_w && 0 <= j < params.blk_h implies 0
        <= #[trigger] a(i, j) <= 65535 by {
        params.p_org.lemma_pixel_range(params.po.x + i, params.po.y + j);
    }
    assert forall|i: int, j: int| 0 <= i < params.blk_w && 0 <= j < params.blk_h implies 0
        <= #[trigger] b(i, j) <= 65535 by {
        params.p_ref.lemma_pixel_range(x + i, y + j);
    }
    lemma_sad_bounds(a, b, params.blk_w, params.blk_h);
    lemma_rd_cost_bounds(
        block_sad(a, b, params.blk_w as nat, params.blk_h as nat),
        position_mv(params.po, x, y),
        params.pmv,
        params.lambda,
        params.allow_high_precision_mv,
    );
}

} // verus!
