//! What holds of the searches as a whole.
use crate::cost::{
    codable, codable_range, full_pixel_cost, full_pixel_defined, full_pixel_target,
    lemma_codable_in_range, mv_cost, mv_cost_defined, rd_cost, sub_pixel_cost, CostParams,
};
use crate::frame::{
    scaled_lambda, InterPredictor, ReferenceFrame, TileMotionVectors, WholePixelPredictor,
};
use crate::full::{
    first_min, lemma_first_min, lemma_grid_corners, lemma_grid_inside, lemma_grid_not_empty,
    position_mv, same_window, FullSearchParams, Grid,
};
use crate::geometry::{
    adjusted, mv_axis_defined, mv_border, mv_high, mv_low, BlockOffset, MvRange, PlaneOffset,
    RefType,
};
use crate::mv::{component_rate, mv_rate, zero_mv, MotionVector};
use crate::num::{
    abs_int, bit_length, lemma_bit_length_monotonic, min_int, trunc_div, wrap16,
};
use crate::plane::{block_sad, lemma_sum_bounds, row_sad, searchable, Pixel, Plane};
use crate::predictors::{
    frame_block_offset, lemma_non_zero, mean_mv, only_if, spatial_neighbours, subset_predictors,
    temporal_neighbours,
};
use crate::refine::{ring, telescopic_search};
use crate::search::{
    can_move, cheapest, diamond_corners, diamond_radius_end, diamond_radius_start, diamond_search,
    diamond_search_defined, diamond_walk, diamond_walk_defined, improve, room_in_range,
};
use vstd::prelude::*;

verus! {

/// A block that is moved into an area it fits in lies entirely within the area, and a
/// block that does so already is not moved.
pub proof fn law_adjusted_block_is_inside(pos: int, len: int, blk: int)
    requires
        0 <= pos,
        0 <= blk,
        blk / 4 <= len,
    ensures
        0 <= adjusted(pos, len, blk) <= pos,
        adjusted(pos, len, blk) + blk / 4 <= len,
        pos + blk / 4 <= len ==> adjusted(pos, len, blk) == pos,
        adjusted(adjusted(pos, len, blk), len, blk) == adjusted(pos, len, blk),
{
}

/// A component within its bounds moves a block by no more than the border beyond the
/// frame on either side, the bounds move it exactly so far, and a block may always stay.
/// Positions are in blocks, vectors in eighths of pixels.
pub proof fn law_range_keeps_block_near_frame(len: int, pos: int, blk: int, mv: int)
    requires
        0 <= pos,
        0 <= blk,
        mv_axis_defined(len, pos, blk),
        mv_low(pos, blk) <= mv <= mv_high(len, pos, blk),
    ensures
        -mv_border(blk) <= 32 * pos + mv,
        32 * (pos + blk / 4) + mv <= 32 * len + mv_border(blk),
        32 * pos + mv_low(pos, blk) == -mv_border(blk),
        32 * (pos + blk / 4) + mv_high(len, pos, blk) == 32 * len + mv_border(blk),
        mv_low(pos, blk) <= 0 <= mv_high(len, pos, blk),
{
}

/// A vector costs no bits after the same vector. With high precision, no other vector
/// does, and the order does not matter.
pub proof fn law_rate_of_equal_vectors(a: MotionVector, b: MotionVector, hp: bool)
    ensures
        mv_rate(a, a, hp) == 0,
        mv_rate(a, b, true) == 0 <==> a == b,
        mv_rate(a, b, true) == mv_rate(b, a, true),
        mv_rate(a, b, hp) >= 0,
{
    assert(bit_length(0) == 0);
    assert(abs_int(a.row - b.row) == abs_int(b.row - a.row));
    assert(abs_int(a.col - b.col) == abs_int(b.col - a.col));
}

/// A difference of larger magnitude, to the same side, costs at least as many bits.
pub proof fn law_rate_grows_with_difference(d: int, e: int, hp: bool)
    requires
        0 <= d <= e || e <= d <= 0,
    ensures
        component_rate(d, hp) <= component_rate(e, hp),
{
    let d2 = if hp {
        d
    } else {
        d / 2
    };
    let e2 = if hp {
        e
    } else {
        e / 2
    };
    lemma_bit_length_monotonic(abs_int(d2) as nat, abs_int(e2) as nat);
}

/// A vector between 16-bit components costs at most 64 bits.
proof fn lemma_rate_bound(a: MotionVector, b: MotionVector, hp: bool)
    requires
        crate::mv::codable_mv(a, b, hp),
    ensures
        0 <= mv_rate(a, b, hp) <= 64,
{
    lemma_component_rate_bound(a.row - b.row, hp);
    lemma_component_rate_bound(a.col - b.col, hp);
}

proof fn lemma_component_rate_bound(diff: int, hp: bool)
    requires
        crate::mv::codable_diff(diff, hp),
    ensures
        0 <= component_rate(diff, hp) <= 32,
{
    let d = if hp {
        diff
    } else {
        diff / 2
    };
    lemma_bit_length_monotonic(abs_int(d) as nat, 32767);
    crate::num::lemma_bit_length_u16(32767);
}

/// A block has no distance from a block of the same pixels.
pub proof fn law_sad_of_equal_blocks(
    a: spec_fn(int, int) -> int,
    b: spec_fn(int, int) -> int,
    w: nat,
    h: nat,
)
    requires
        forall|i: int, j: int| 0 <= i < w && 0 <= j < h ==> #[trigger] a(i, j) == b(i, j),
    ensures
        block_sad(a, b, w, h) == 0,
{
    let rows = |j: int| row_sad(a, b, w, j);
    assert forall|j: int| 0 <= j < h implies 0 <= #[trigger] rows(j) <= 0 by {
        let terms = |i: int| abs_int(a(i, j) - b(i, j));
        assert forall|i: int| 0 <= i < w implies 0 <= #[trigger] terms(i) <= 0 by {
            assert(a(i, j) == b(i, j));
        }
        lemma_sum_bounds(w, terms, 0);
        assert(w * 0 == 0) by (nonlinear_arith);
    }
    lemma_sum_bounds(h, rows, 0);
    assert(h * 0 == 0) by (nonlinear_arith);
}

/// Blocks of pixels have a distance between zero and the largest that 32 bits hold.
pub proof fn lemma_sad_bounds(
    a: spec_fn(int, int) -> int,
    b: spec_fn(int, int) -> int,
    w: usize,
    h: usize,
)
    requires
        searchable(w, h),
        forall|i: int, j: int| 0 <= i < w && 0 <= j < h ==> 0 <= #[trigger] a(i, j) <= 65535,
        forall|i: int, j: int| 0 <= i < w && 0 <= j < h ==> 0 <= #[trigger] b(i, j) <= 65535,
    ensures
        0 <= block_sad(a, b, w as nat, h as nat) <= u32::MAX,
{
    let rows = |j: int| row_sad(a, b, w as nat, j);
    assert forall|j: int| 0 <= j < h implies 0 <= #[trigger] rows(j) <= w * 65535 by {
        let terms = |i: int| abs_int(a(i, j) - b(i, j));
        assert forall|i: int| 0 <= i < w implies 0 <= #[trigger] terms(i) <= 65535 by {
            assert(0 <= a(i, j) <= 65535 && 0 <= b(i, j) <= 65535);
        }
        lemma_sum_bounds(w as nat, terms, 65535);
    }
    lemma_sum_bounds(h as nat, rows, w * 65535);
    assert(h * (w * 65535) <= u32::MAX) by (nonlinear_arith)
        requires
            w * h <= 65537,
    ;
}

/// The cost of a codable vector under which the blocks differ by at most 32 bits is less
/// than the largest number.
pub proof fn lemma_rd_cost_bounds(
    sad: int,
    mv: MotionVector,
    pmv: [MotionVector; 2],
    lambda: u32,
    hp: bool,
)
    requires
        0 <= sad <= u32::MAX,
        codable(mv, pmv, hp),
    ensures
        256 * sad <= rd_cost(sad, mv, pmv, lambda, hp) < u64::MAX,
{
    lemma_rate_bound(mv, pmv[0], hp);
    lemma_rate_bound(mv, pmv[1], hp);
    let rate = min_int(mv_rate(mv, pmv[0], hp), mv_rate(mv, pmv[1], hp) + 1);
    assert(0 <= rate * lambda <= 65 * 0xffff_ffff) by (nonlinear_arith)
        requires
            0 <= rate <= 65,
            0 <= lambda <= 0xffff_ffff,
    ;
}

/// A vector has less than the largest cost if and only if it is in range; then its cost
/// is 256 times the distance of the blocks plus its rate, weighed by lambda.
pub proof fn law_cost_tells_range<T: Pixel, I: InterPredictor<T>>(
    subpixel: bool,
    params: CostParams,
    p_org: Plane<T>,
    p_ref: Plane<T>,
    predictor: I,
    ref_frame: RefType,
    po: PlaneOffset,
    mv: MotionVector,
)
    requires
        searchable(params.blk_w, params.blk_h),
        mv_cost_defined(subpixel, params, p_org, p_ref, predictor, ref_frame, po)(mv),
    ensures
        mv_cost(subpixel, params, p_org, p_ref, predictor, ref_frame, po)(mv) < u64::MAX
            <==> params.range.contains(mv),
        params.range.contains(mv) ==> mv_cost(
            subpixel,
            params,
            p_org,
            p_ref,
            predictor,
            ref_frame,
            po,
        )(mv) == rd_cost(
            block_sad(
                p_org.pixels_from(po.x as int, po.y as int),
                if subpixel {
                    predictor.predicted(ref_frame, po, params.blk_w, params.blk_h, mv)
                } else {
                    p_ref.pixels_from(full_pixel_target(po, mv).0, full_pixel_target(po, mv).1)
                },
                params.blk_w as nat,
                params.blk_h as nat,
            ),
            mv,
            params.pmv,
            params.lambda,
            params.allow_high_precision_mv,
        ),
{
    if params.range.contains(mv) {
        let a = p_org.pixels_from(po.x as int, po.y as int);
        let target = full_pixel_target(po, mv);
        let b = if subpixel {
            predictor.predicted(ref_frame, po, params.blk_w, params.blk_h, mv)
        } else {
            p_ref.pixels_from(target.0, target.1)
        };
        assert forall|i: int, j: int| 0 <= i < params.blk_w && 0 <= j < params.blk_h implies 0
            <= #[trigger] a(i, j) <= 65535 by {
            p_org.lemma_pixel_range(po.x + i, po.y + j);
        }
        assert forall|i: int, j: int| 0 <= i < params.blk_w && 0 <= j < params.blk_h implies 0
            <= #[trigger] b(i, j) <= 65535 by {
            if subpixel {
                predictor.lemma_predicted_range(
                    ref_frame,
                    po,
                    params.blk_w,
                    params.blk_h,
                    mv,
                    i,
                    j,
                );
            } else {
                p_ref.lemma_pixel_range(target.0 + i, target.1 + j);
            }
        }
        lemma_sad_bounds(a, b, params.blk_w, params.blk_h);
        lemma_rd_cost_bounds(
            block_sad(a, b, params.blk_w as nat, params.blk_h as nat),
            mv,
            params.pmv,
            params.lambda,
            params.allow_high_precision_mv,
        );
    }
}

/// The outcome of a comparison is no dearer than what it started from and than each
/// candidate. It is what it started from if no candidate is cheaper; otherwise it is the
/// first of the cheapest candidates.
pub proof fn law_improve_finds_first_cheapest(
    best: (MotionVector, u64),
    candidates: Seq<MotionVector>,
    cost: spec_fn(MotionVector) -> u64,
)
    ensures
        improve(best, candidates, cost).1 <= best.1,
        forall|k: int|
            0 <= k < candidates.len() ==> improve(best, candidates, cost).1 <= cost(
                #[trigger] candidates[k],
            ),
        (forall|k: int| 0 <= k < candidates.len() ==> best.1 <= cost(#[trigger] candidates[k]))
            ==> improve(best, candidates, cost) == best,
        improve(best, candidates, cost) == best || exists|k: int|
            {
                &&& 0 <= k < candidates.len()
                &&& improve(best, candidates, cost) == (
                    #[trigger] candidates[k],
                    cost(candidates[k]),
                )
                &&& cost(candidates[k]) < best.1
                &&& forall|m: int|
                    0 <= m < k ==> cost(candidates[k]) < cost(#[trigger] candidates[m])
            },
    decreases candidates.len(),
{
    if candidates.len() > 0 {
        let shorter = candidates.drop_last();
        law_improve_finds_first_cheapest(best, shorter, cost);
        let earlier = improve(best, shorter, cost);
        assert forall|k: int| 0 <= k < candidates.len() implies improve(best, candidates, cost).1
            <= cost(#[trigger] candidates[k]) by {
            if k < candidates.len() - 1 {
                assert(shorter[k] == candidates[k]);
            }
        }
        if forall|k: int| 0 <= k < candidates.len() ==> best.1 <= cost(#[trigger] candidates[k]) {
            assert forall|k: int| 0 <= k < shorter.len() implies best.1 <= cost(
                #[trigger] shorter[k],
            ) by {
                assert(shorter[k] == candidates[k]);
            }
        }
        if cost(candidates.last()) < earlier.1 {
            let k = candidates.len() - 1;
            assert forall|m: int| 0 <= m < k implies cost(candidates[k]) < cost(
                #[trigger] candidates[m],
            ) by {
                assert(shorter[m] == candidates[m]);
            }
            assert(improve(best, candidates, cost) == (candidates[k], cost(candidates[k])));
        } else if earlier != best {
            let k = choose|k: int|
                {
                    &&& 0 <= k < shorter.len()
                    &&& earlier == (#[trigger] shorter[k], cost(shorter[k]))
                    &&& cost(shorter[k]) < best.1
                    &&& forall|m: int|
                        0 <= m < k ==> cost(shorter[k]) < cost(#[trigger] shorter[m])
                };
            assert(candidates[k] == shorter[k]);
            assert forall|m: int| 0 <= m < k implies cost(candidates[k]) < cost(
                #[trigger] candidates[m],
            ) by {
                assert(shorter[m] == candidates[m]);
            }
        }
    }
}

/// A walk ends no dearer than it started, with the cost of the vector at which it ends,
/// and no corner of the last diamond is cheaper.
proof fn lemma_diamond_walk(
    center: (MotionVector, u64),
    radius: nat,
    radius_end: nat,
    cost: spec_fn(MotionVector) -> u64,
)
    requires
        radius_end > 0,
        radius == radius_end || radius == 2 * radius_end || radius == 4 * radius_end,
        center.1 < u64::MAX ==> center.1 == cost(center.0),
    ensures
        ({
            let end = diamond_walk(center, radius, radius_end, cost);
            &&& end.1 <= center.1
            &&& end.1 < u64::MAX ==> end.1 == cost(end.0)
            &&& forall|k: int|
                0 <= k < 4 ==> end.1 <= cost(
                    #[trigger] diamond_corners(end.0, radius_end as int)[k],
                )
        }),
    decreases center.1, radius,
{
    let corners = diamond_corners(center.0, radius as int);
    let corner = cheapest(corners, cost);
    law_improve_finds_first_cheapest((zero_mv(), u64::MAX), corners, cost);
    if corner.1 < center.1 {
        lemma_diamond_walk(corner, radius, radius_end, cost);
    } else if radius > radius_end {
        lemma_diamond_walk(center, radius / 2, radius_end, cost);
    }
}

/// A diamond search ends at a vector no dearer than any predictor, with its cost, and no
/// corner of the smallest diamond around it is cheaper.
pub proof fn law_diamond_search_ends_at_local_minimum(
    subpixel: bool,
    allow_high_precision_mv: bool,
    predictors: Seq<MotionVector>,
    cost: spec_fn(MotionVector) -> u64,
)
    ensures
        ({
            let end = diamond_search(subpixel, allow_high_precision_mv, predictors, cost);
            let radius = diamond_radius_end(subpixel, allow_high_precision_mv) as int;
            &&& forall|k: int| 0 <= k < predictors.len() ==> end.1 <= cost(#[trigger] predictors[k])
            &&& end.1 < u64::MAX ==> end.1 == cost(end.0)
            &&& forall|k: int|
                0 <= k < 4 ==> end.1 <= cost(#[trigger] diamond_corners(end.0, radius)[k])
        }),
{
    law_improve_finds_first_cheapest((zero_mv(), u64::MAX), predictors, cost);
    lemma_diamond_walk(
        cheapest(predictors, cost),
        diamond_radius_start(subpixel),
        diamond_radius_end(subpixel, allow_high_precision_mv),
        cost,
    );
}

/// A diamond search that finds a vector finds one in range.
pub proof fn law_diamond_search_stays_in_range<T: Pixel, I: InterPredictor<T>>(
    subpixel: bool,
    params: CostParams,
    p_org: Plane<T>,
    p_ref: Plane<T>,
    predictor: I,
    ref_frame: RefType,
    po: PlaneOffset,
    predictors: Seq<MotionVector>,
)
    ensures
        ({
            let end = diamond_search(
                subpixel,
                params.allow_high_precision_mv,
                predictors,
                mv_cost(subpixel, params, p_org, p_ref, predictor, ref_frame, po),
            );
            end.1 < u64::MAX ==> params.range.contains(end.0)
        }),
{
    law_diamond_search_ends_at_local_minimum(
        subpixel,
        params.allow_high_precision_mv,
        predictors,
        mv_cost(subpixel, params, p_org, p_ref, predictor, ref_frame, po),
    );
}

/// A walk among vectors all of which have a defined cost, in a range that leaves room for
/// the diamond, is defined.
proof fn lemma_diamond_walk_defined(
    center: (MotionVector, u64),
    radius: nat,
    radius_end: nat,
    cost: spec_fn(MotionVector) -> u64,
    defined: spec_fn(MotionVector) -> bool,
    range: MvRange,
)
    requires
        room_in_range(range, radius as int),
        range.contains(center.0) && center.1 < u64::MAX,
        forall|mv: MotionVector| #[trigger] defined(mv),
        forall|mv: MotionVector| !range.contains(mv) ==> #[trigger] cost(mv) == u64::MAX,
    ensures
        diamond_walk_defined(center, radius, radius_end, cost, defined),
        diamond_walk(center, radius, radius_end, cost).1 < u64::MAX,
    decreases center.1, radius,
{
    let corners = diamond_corners(center.0, radius as int);
    let corner = cheapest(corners, cost);
    law_improve_finds_first_cheapest((zero_mv(), u64::MAX), corners, cost);
    if corner.1 < center.1 {
        assert(corner.1 == cost(corner.0));
        lemma_diamond_walk_defined(corner, radius, radius_end, cost, defined, range);
    } else if radius > radius_end {
        lemma_diamond_walk_defined(center, radius / 2, radius_end, cost, defined, range);
    }
}

/// A diamond search is defined where the costs of all vectors are, one of the predictors
/// is in range, and the range leaves room for the first step within 16 bits.
pub proof fn law_diamond_search_defined_within_bounds(
    subpixel: bool,
    allow_high_precision_mv: bool,
    predictors: Seq<MotionVector>,
    cost: spec_fn(MotionVector) -> u64,
    defined: spec_fn(MotionVector) -> bool,
    range: MvRange,
    k: int,
)
    requires
        room_in_range(range, diamond_radius_start(subpixel) as int),
        forall|mv: MotionVector| #[trigger] defined(mv),
        forall|mv: MotionVector| cost(mv) < u64::MAX <==> #[trigger] range.contains(mv),
        0 <= k < predictors.len(),
        range.contains(predictors[k]),
    ensures
        diamond_search_defined(subpixel, allow_high_precision_mv, predictors, cost, defined),
{
    law_improve_finds_first_cheapest((zero_mv(), u64::MAX), predictors, cost);
    let best = cheapest(predictors, cost);
    assert(cost(predictors[k]) < u64::MAX);
    assert(best.1 == cost(best.0));
    assert forall|mv: MotionVector| !range.contains(mv) implies #[trigger] cost(mv) == u64::MAX by {
        assert(!range.contains(mv));
    }
    lemma_diamond_walk_defined(
        best,
        diamond_radius_start(subpixel),
        diamond_radius_end(subpixel, allow_high_precision_mv),
        cost,
        defined,
        range,
    );
}

/// Truncating division keeps the order.
proof fn lemma_trunc_div_monotonic(a: int, b: int)
    requires
        a <= b,
    ensures
        trunc_div(a, 8) <= trunc_div(b, 8),
{
}

/// The cost of every vector of whole pixels is defined where the reference plane holds
/// the blocks at both ends of the range, and the range is not too far from the predicted
/// vectors to be coded.
pub proof fn law_full_pixel_defined_within_plane<T: Pixel>(
    params: CostParams,
    p_org: Plane<T>,
    p_ref: Plane<T>,
    po: PlaneOffset,
    mv: MotionVector,
)
    requires
        p_org.holds_block(po.x as int, po.y as int, params.blk_w as int, params.blk_h as int),
        p_ref.holds_block(
            po.x + trunc_div(params.range.x_min as int, 8),
            po.y + trunc_div(params.range.y_min as int, 8),
            params.blk_w as int,
            params.blk_h as int,
        ),
        p_ref.holds_block(
            po.x + trunc_div(params.range.x_max as int, 8),
            po.y + trunc_div(params.range.y_max as int, 8),
            params.blk_w as int,
            params.blk_h as int,
        ),
        codable_range(params.range, params.pmv, params.allow_high_precision_mv),
    ensures
        full_pixel_defined(params, p_org, p_ref, po)(mv),
{
    if params.range.contains(mv) {
        lemma_codable_in_range(params.range, params.pmv, params.allow_high_precision_mv, mv);
        lemma_trunc_div_monotonic(params.range.x_min as int, mv.col as int);
        lemma_trunc_div_monotonic(mv.col as int, params.range.x_max as int);
        lemma_trunc_div_monotonic(params.range.y_min as int, mv.row as int);
        lemma_trunc_div_monotonic(mv.row as int, params.range.y_max as int);
    }
}

/// A full search finds the first position, row by row, at which the cost is least.
pub proof fn law_full_search_finds_first_minimum<T: Pixel>(params: FullSearchParams<T>, grid: Grid)
    requires
        grid.wf(),
    ensures
        exists|k: int|
            {
                &&& 0 <= k < grid.len()
                &&& params.outcome(grid) == (
                    position_mv(params.po, #[trigger] grid.x(k), grid.y(k)),
                    params.cost(grid.x(k), grid.y(k)),
                )
                &&& forall|m: int|
                    0 <= m < grid.len() ==> params.outcome(grid).1 <= params.cost(
                        #[trigger] grid.x(m),
                        grid.y(m),
                    )
                &&& forall|m: int|
                    0 <= m < k ==> params.outcome(grid).1 < params.cost(
                        #[trigger] grid.x(m),
                        grid.y(m),
                    )
            },
{
    let f = params.grid_cost(grid);
    lemma_grid_not_empty(grid);
    lemma_first_min(grid.len(), f);
    let k = first_min(grid.len(), f);
    assert forall|m: int| 0 <= m < grid.len() implies params.outcome(grid).1 <= params.cost(
        #[trigger] grid.x(m),
        grid.y(m),
    ) by {
        assert(f(k) <= f(m));
    }
    assert forall|m: int| 0 <= m < k implies params.outcome(grid).1 < params.cost(
        #[trigger] grid.x(m),
        grid.y(m),
    ) by {
        assert(f(k) < f(m));
    }
    assert(params.outcome(grid) == (
        position_mv(params.po, grid.x(k), grid.y(k)),
        params.cost(grid.x(k), grid.y(k)),
    ));
}

/// Positions not too far apart have the difference that their low 16 bits have, if that is
/// small.
pub proof fn lemma_wrapped_difference(a: int, b: int)
    requires
        -4096 <= wrap16(a) - wrap16(b) <= 4096,
        -60000 <= a - b <= 60000,
    ensures
        wrap16(a) - wrap16(b) == a - b,
{
    let d = (a - b) - (wrap16(a) - wrap16(b));
    vstd::arithmetic::div_mod::lemma_fundamental_div_mod(a + 32768, 65536);
    vstd::arithmetic::div_mod::lemma_fundamental_div_mod(b + 32768, 65536);
    assert(d == 65536 * ((a + 32768) / 65536 - (b + 32768) / 65536));
}

/// A refinement ends no dearer than it started. It ends at another vector only if that is
/// cheaper, and then with the cost of that vector.
pub proof fn law_refinement_never_raises_cost(
    best: (MotionVector, u64),
    steps: Seq<int>,
    cost: spec_fn(MotionVector) -> u64,
)
    ensures
        ({
            let end = telescopic_search(best, steps, cost);
            &&& end.1 <= best.1
            &&& end == best || (end.1 == cost(end.0) && end.1 < best.1)
            &&& steps.len() > 0 ==> forall|k: int|
                0 <= k < 8 ==> end.1 <= cost(#[trigger] ring(best.0, steps[0])[k])
        }),
    decreases steps.len(),
{
    if steps.len() > 0 {
        let next = improve(best, ring(best.0, steps[0]), cost);
        law_improve_finds_first_cheapest(best, ring(best.0, steps[0]), cost);
        law_refinement_never_raises_cost(next, steps.skip(1), cost);
    }
}

/// The ring around a vector leaves the vector itself out, which was looked at before.
pub proof fn law_ring_leaves_center_out(center: MotionVector, step: int)
    requires
        step > 0,
        can_move(center, step),
    ensures
        ring(center, step).len() == 8,
        forall|k: int| 0 <= k < 8 ==> #[trigger] ring(center, step)[k] != center,
{
}

/// Where lambda is the fraction `n / d`, its value in units of 1/128, rounded down, gives
/// the weights of all stages as exactly as the fraction itself would: 128, 8 and 2 times
/// lambda, rounded down, as far as 32 bits hold them.
pub proof fn law_fixed_point_lambda_is_exact(n: nat, d: nat)
    requires
        d > 0,
        (128 * n) as int / d as int <= u64::MAX,
    ensures
        ({
            let me_lambda = ((128 * n) as int / d as int) as u64;
            &&& scaled_lambda(me_lambda, 1) == min_int((128 * n) as int / d as int, u32::MAX as int)
            &&& scaled_lambda(me_lambda, 16) == min_int((8 * n) as int / d as int, u32::MAX as int)
            &&& scaled_lambda(me_lambda, 64) == min_int((2 * n) as int / d as int, u32::MAX as int)
        }),
{
    let a = 128 * n as int;
    let d = d as int;
    vstd::arithmetic::div_mod::lemma_div_pos_is_pos(a, d);
    lemma_div_in_either_order(8 * n as int, 16, d);
    lemma_div_in_either_order(2 * n as int, 64, d);
}

/// A multiple of `m` divided by `d`, and by `m` then, is what it is a multiple of, divided by
/// `d`.
proof fn lemma_div_in_either_order(a: int, m: int, d: int)
    requires
        a >= 0,
        m > 0,
        d > 0,
    ensures
        (m * a) / d / m == a / d,
        a / d >= 0,
{
    vstd::arithmetic::div_mod::lemma_div_denominator(m * a, d, m);
    vstd::arithmetic::div_mod::lemma_div_denominator(m * a, m, d);
    vstd::arithmetic::div_mod::lemma_div_multiples_vanish(a, m);
    vstd::arithmetic::mul::lemma_mul_is_commutative(d, m);
    vstd::arithmetic::div_mod::lemma_div_pos_is_pos(a, d);
}

/// The first vector from which a search starts is zero, the second is the coarse vector in
/// whole pixels, no other is zero, and there are at most eleven, of which at most three are
/// those of the neighbours in the tile.
pub proof fn law_subset_predictors_shape<T: Pixel>(
    tile_bo: BlockOffset,
    cmv: MotionVector,
    tile_mvs: TileMotionVectors<'_>,
    frame_ref_opt: Option<&ReferenceFrame<T>>,
    ref_frame_id: usize,
)
    ensures
        ({
            let mvs = subset_predictors(tile_bo, cmv, tile_mvs, frame_ref_opt, ref_frame_id);
            &&& 2 <= mvs.len() <= 11
            &&& mvs[0] == zero_mv()
            &&& mvs[1] == cmv.fullpel()
            &&& forall|k: int| 2 <= k < mvs.len() ==> #[trigger] mvs[k] != zero_mv()
            &&& spatial_neighbours(tile_bo, tile_mvs).len() <= 3
        }),
{
    let neighbours = spatial_neighbours(tile_bo, tile_mvs);
    let mean = only_if(neighbours.len() > 0, mean_mv(neighbours).fullpel());
    lemma_non_zero(neighbours);
    lemma_non_zero(mean);
    if let Some(frame_ref) = frame_ref_opt {
        lemma_non_zero(
            temporal_neighbours(
                frame_block_offset(tile_bo, tile_mvs),
                frame_ref.frame_mvs@[ref_frame_id as int],
            ),
        );
    }
}

/// For vectors of whole pixels it makes no difference whether blocks are predicted without
/// interpolation or taken from the same plane.
pub proof fn law_whole_pixel_prediction_agrees<T: Pixel>(
    params: CostParams,
    p_org: Plane<T>,
    predictor: WholePixelPredictor<T>,
    ref_frame: RefType,
    po: PlaneOffset,
    mv: MotionVector,
)
    requires
        mv.row as int % 8 == 0 && mv.col as int % 8 == 0,
    ensures
        sub_pixel_cost(params, p_org, predictor, ref_frame, po)(mv) == full_pixel_cost(
            params,
            p_org,
            predictor.reference,
            po,
        )(mv),
{
    assert(mv.row as int / 8 == trunc_div(mv.row as int, 8));
    assert(mv.col as int / 8 == trunc_div(mv.col as int, 8));
}

/// A diamond search over whole pixels is defined where the reference plane holds the blocks
/// at both ends of the range, the range is not too far from the predicted vectors to be
/// coded and leaves room for the first step within 16 bits, and one of the vectors to start
/// from is in range.
pub proof fn law_diamond_search_defined_within_plane<T: Pixel, I: InterPredictor<T>>(
    params: CostParams,
    p_org: Plane<T>,
    p_ref: Plane<T>,
    predictor: I,
    ref_frame: RefType,
    po: PlaneOffset,
    predictors: Seq<MotionVector>,
    k: int,
)
    requires
        searchable(params.blk_w, params.blk_h),
        p_org.holds_block(po.x as int, po.y as int, params.blk_w as int, params.blk_h as int),
        p_ref.holds_block(
            po.x + trunc_div(params.range.x_min as int, 8),
            po.y + trunc_div(params.range.y_min as int, 8),
            params.blk_w as int,
            params.blk_h as int,
        ),
        p_ref.holds_block(
            po.x + trunc_div(params.range.x_max as int, 8),
            po.y + trunc_div(params.range.y_max as int, 8),
            params.blk_w as int,
            params.blk_h as int,
        ),
        room_in_range(params.range, diamond_radius_start(false) as int),
        codable_range(params.range, params.pmv, params.allow_high_precision_mv),
        0 <= k < predictors.len(),
        params.range.contains(predictors[k]),
    ensures
        diamond_search_defined(
            false,
            params.allow_high_precision_mv,
            predictors,
            mv_cost(false, params, p_org, p_ref, predictor, ref_frame, po),
            mv_cost_defined(false, params, p_org, p_ref, predictor, ref_frame, po),
        ),
{
    let cost = mv_cost(false, params, p_org, p_ref, predictor, ref_frame, po);
    let defined = mv_cost_defined(false, params, p_org, p_ref, predictor, ref_frame, po);
    assert forall|mv: MotionVector| #[trigger] defined(mv) by {
        law_full_pixel_defined_within_plane(params, p_org, p_ref, po, mv);
    }
    assert forall|mv: MotionVector| cost(mv) < u64::MAX <==> #[trigger] params.range.contains(
        mv,
    ) by {
        assert(defined(mv));
        law_cost_tells_range(false, params, p_org, p_ref, predictor, ref_frame, po, mv);
    }
    law_diamond_search_defined_within_bounds(
        false,
        params.allow_high_precision_mv,
        predictors,
        cost,
        defined,
        params.range,
        k,
    );
}

/// A position between two that are as far apart as their low 16 bits is as far from them as
/// its low 16 bits.
proof fn lemma_same_window_between(low: int, high: int, x: int)
    requires
        low <= x <= high,
        same_window(low, high),
    ensures
        same_window(x, low),
{
}

/// A full search over a grid that is as wide and high as the low 16 bits of its positions is
/// defined if and only if the costs of the first and the last position are.
pub proof fn law_full_search_defined_at_corners<T: Pixel>(params: FullSearchParams<T>, grid: Grid)
    requires
        grid.wf(),
        same_window(grid.x_lo as int, grid.x_last()),
        same_window(grid.y_lo as int, grid.y_last()),
    ensures
        params.grid_defined(grid) <==> params.defined(grid.x_lo as int, grid.y_lo as int)
            && params.defined(grid.x_last(), grid.y_last()),
{
    lemma_grid_corners(grid);
    if params.grid_defined(grid) {
        assert(params.defined(grid.x(0), grid.y(0)));
        assert(params.defined(grid.x(grid.len() - 1), grid.y(grid.len() - 1)));
    }
    if params.defined(grid.x_lo as int, grid.y_lo as int) && params.defined(
        grid.x_last(),
        grid.y_last(),
    ) {
        let first = params.pmv[0];
        let second = params.pmv[1];
        assert forall|k: int| 0 <= k < grid.len() implies params.defined(
            #[trigger] grid.x(k),
            #[trigger] grid.y(k),
        ) by {
            lemma_grid_inside(grid, k);
            lemma_same_window_between(grid.x_lo as int, grid.x_last(), grid.x(k));
            lemma_same_window_between(grid.y_lo as int, grid.y_last(), grid.y(k));
        }
    }
}

} // verus!
