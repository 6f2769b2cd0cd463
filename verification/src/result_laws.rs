//! What the functions of this library return or leave behind, said of any call of them: how good
//! a vector is that a search has found, compared with the vectors and positions that it owes a
//! look.
use crate::coarse::{block_in_tile, estimate_motion_ss4, ss4_defined, ss4_outcome};
use crate::cost::{compute_mv_rd_cost, get_mv_rd_cost, mv_cost, rd_cost, CostParams};
use crate::diamond::DiamondSearch;
use crate::exhaustive::{bounded_pixels, FullSearch};
use crate::frame::{
    scaled_lambda, FrameInvariants, FrameMotionVectors, InterPredictor, ReferenceFrame,
    TileMotionVectors, TileState,
};
use crate::full::{full_search, position_mv, FullSearchParams, Grid};
use crate::geometry::{
    adjust_bo, adjusted_bo, get_mv_range, BlockOffset, BlockSize, MvRange, PlaneOffset, RefType,
};
use crate::laws::{law_diamond_search_ends_at_local_minimum, law_improve_finds_first_cheapest};
use crate::me::{block_range, can_scale, scaled_mv, MotionEstimation, MotionSearch};
use crate::measure_laws::{
    law_block_range_in_numbers, law_cost_in_numbers, law_rate_counts_digits,
    law_rate_of_both_components, law_scaling,
};
use crate::mv::{component_rate, get_mv_rate, zero_mv, MotionVector};
use crate::num::{abs_int, trunc_div};
use crate::plane::{block_sad, get_sad, Pixel, Plane, PlaneRegion};
use crate::predictors::{get_subset_predictors, halved_mv, subset_predictors, Predictors};
use crate::refine::{telescopic_search, telescopic_steps, telescopic_subpel_search};
use crate::search::{cheapest, diamond_me_search, get_best_predictor};
use crate::search_laws::{
    law_diamond_search_leaves_nothing_cheaper_beside, law_diamond_search_stops_at_each_distance,
    law_full_search_finds_the_first_best_position, law_refinement_leaves_nothing_cheaper_around,
};
use crate::stage_laws::{
    law_all_predictors, law_diamond_half_stage_beats_its_starts,
    law_diamond_stage_beats_its_starts, law_diamond_stage_refines,
    law_full_search_half_stage_finds_the_best_displacement,
    law_full_search_stage_finds_the_best_displacement, law_full_search_stage_refines,
    law_half_stage_without_vectors, law_ss4_finds_the_best_displacement,
};
use vstd::arithmetic::power2::pow2;
use vstd::prelude::*;

verus! {

/// A diamond search leaves a vector in range with its cost. It is no dearer than any predictor.
/// Neither is any vector cheaper that lies beside it, above, below, to the left or to the right:
/// one pixel away over whole pixels, a quarter or, with high precision, an eighth of a pixel over
/// fractions.
pub proof fn law_diamond_me_search_result<T: Pixel, I: InterPredictor<T>>(
    fi: &FrameInvariants<T, I>,
    po: PlaneOffset,
    p_org: &Plane<T>,
    p_ref: &Plane<T>,
    predictors: &[MotionVector],
    pmv: [MotionVector; 2],
    lambda: u32,
    mvx_min: isize,
    mvx_max: isize,
    mvy_min: isize,
    mvy_max: isize,
    blk_w: usize,
    blk_h: usize,
    center_mv: &mut MotionVector,
    center_mv_cost: &mut u64,
    subpixel: bool,
    ref_frame: RefType,
)
    requires
        call_ensures(
            diamond_me_search::<T, I>,
            (
                fi,
                po,
                p_org,
                p_ref,
                predictors,
                pmv,
                lambda,
                mvx_min,
                mvx_max,
                mvy_min,
                mvy_max,
                blk_w,
                blk_h,
                center_mv,
                center_mv_cost,
                subpixel,
                ref_frame,
            ),
            (),
        ),
    ensures
        ({
            let cost = mv_cost(
                subpixel,
                CostParams {
                    pmv,
                    lambda,
                    allow_high_precision_mv: fi.allow_high_precision_mv,
                    range: MvRange {
                        x_min: mvx_min,
                        x_max: mvx_max,
                        y_min: mvy_min,
                        y_max: mvy_max,
                    },
                    blk_w,
                    blk_h,
                },
                *p_org,
                *p_ref,
                fi.predictor,
                ref_frame,
                po,
            );
            let row = final(center_mv).row;
            let col = final(center_mv).col;
            let found = *final(center_mv_cost);
            let r: int = if !subpixel {
                8
            } else if fi.allow_high_precision_mv {
                1
            } else {
                2
            };
            &&& found == cost(*final(center_mv)) && found < u64::MAX
            &&& mvx_min <= col && col <= mvx_max && mvy_min <= row && row <= mvy_max
            &&& forall|k: int|
                0 <= k < predictors@.len() ==> found <= cost(#[trigger] predictors@[k])
            &&& found <= cost(MotionVector { row: (row + r) as i16, col })
            &&& found <= cost(MotionVector { row: (row - r) as i16, col })
            &&& found <= cost(MotionVector { row, col: (col + r) as i16 })
            &&& found <= cost(MotionVector { row, col: (col - r) as i16 })
        }),
{
    let params = CostParams {
        pmv,
        lambda,
        allow_high_precision_mv: fi.allow_high_precision_mv,
        range: MvRange { x_min: mvx_min, x_max: mvx_max, y_min: mvy_min, y_max: mvy_max },
        blk_w,
        blk_h,
    };
    let cost = mv_cost(subpixel, params, *p_org, *p_ref, fi.predictor, ref_frame, po);
    let hp = fi.allow_high_precision_mv;
    law_diamond_search_ends_at_local_minimum(subpixel, hp, predictors@, cost);
    law_diamond_search_leaves_nothing_cheaper_beside(subpixel, hp, predictors@, cost);
}

/// A diamond search with a predictor in range has been, for each distance at which it looks, at
/// a vector no dearer than any predictor and no cheaper than its end, beside which none at that
/// distance is cheaper. The distances are two pixels and one over whole pixels; a half, a quarter
/// and, with high precision, an eighth of a pixel over fractions.
pub proof fn law_diamond_me_search_looks_at_each_distance<T: Pixel, I: InterPredictor<T>>(
    fi: &FrameInvariants<T, I>,
    po: PlaneOffset,
    p_org: &Plane<T>,
    p_ref: &Plane<T>,
    predictors: &[MotionVector],
    pmv: [MotionVector; 2],
    lambda: u32,
    mvx_min: isize,
    mvx_max: isize,
    mvy_min: isize,
    mvy_max: isize,
    blk_w: usize,
    blk_h: usize,
    center_mv: &mut MotionVector,
    center_mv_cost: &mut u64,
    subpixel: bool,
    ref_frame: RefType,
    k: int,
    r: int,
)
    requires
        call_ensures(
            diamond_me_search::<T, I>,
            (
                fi,
                po,
                p_org,
                p_ref,
                predictors,
                pmv,
                lambda,
                mvx_min,
                mvx_max,
                mvy_min,
                mvy_max,
                blk_w,
                blk_h,
                center_mv,
                center_mv_cost,
                subpixel,
                ref_frame,
            ),
            (),
        ),
        0 <= k < predictors@.len(),
        mv_cost(
            subpixel,
            CostParams {
                pmv,
                lambda,
                allow_high_precision_mv: fi.allow_high_precision_mv,
                range: MvRange { x_min: mvx_min, x_max: mvx_max, y_min: mvy_min, y_max: mvy_max },
                blk_w,
                blk_h,
            },
            *p_org,
            *p_ref,
            fi.predictor,
            ref_frame,
            po,
        )(predictors@[k]) < u64::MAX,
        !subpixel ==> r == 16 || r == 8,
        subpixel ==> r == 4 || r == 2 || (fi.allow_high_precision_mv && r == 1),
    ensures
        ({
            let cost = mv_cost(
                subpixel,
                CostParams {
                    pmv,
                    lambda,
                    allow_high_precision_mv: fi.allow_high_precision_mv,
                    range: MvRange {
                        x_min: mvx_min,
                        x_max: mvx_max,
                        y_min: mvy_min,
                        y_max: mvy_max,
                    },
                    blk_w,
                    blk_h,
                },
                *p_org,
                *p_ref,
                fi.predictor,
                ref_frame,
                po,
            );
            exists|c: MotionVector|
                {
                    &&& *final(center_mv_cost) <= #[trigger] cost(c)
                    &&& forall|m: int|
                        0 <= m < predictors@.len() ==> cost(c) <= cost(#[trigger] predictors@[m])
                    &&& cost(c) <= cost(MotionVector { row: (c.row + r) as i16, col: c.col })
                    &&& cost(c) <= cost(MotionVector { row: (c.row - r) as i16, col: c.col })
                    &&& cost(c) <= cost(MotionVector { row: c.row, col: (c.col + r) as i16 })
                    &&& cost(c) <= cost(MotionVector { row: c.row, col: (c.col - r) as i16 })
                }
        }),
{
    let params = CostParams {
        pmv,
        lambda,
        allow_high_precision_mv: fi.allow_high_precision_mv,
        range: MvRange { x_min: mvx_min, x_max: mvx_max, y_min: mvy_min, y_max: mvy_max },
        blk_w,
        blk_h,
    };
    let cost = mv_cost(subpixel, params, *p_org, *p_ref, fi.predictor, ref_frame, po);
    law_diamond_search_stops_at_each_distance(
        subpixel,
        fi.allow_high_precision_mv,
        predictors@,
        cost,
        k,
        r,
    );
}

/// The best predictor is the first of the cheapest; without one in range it is zero, at the
/// largest cost.
pub proof fn law_get_best_predictor_result<T: Pixel, I: InterPredictor<T>>(
    fi: &FrameInvariants<T, I>,
    po: PlaneOffset,
    p_org: &Plane<T>,
    p_ref: &Plane<T>,
    predictors: &[MotionVector],
    pmv: [MotionVector; 2],
    lambda: u32,
    mvx_min: isize,
    mvx_max: isize,
    mvy_min: isize,
    mvy_max: isize,
    blk_w: usize,
    blk_h: usize,
    center_mv: &mut MotionVector,
    center_mv_cost: &mut u64,
    tmp_plane_opt: &mut Option<Plane<T>>,
    ref_frame: RefType,
)
    requires
        call_ensures(
            get_best_predictor::<T, I>,
            (
                fi,
                po,
                p_org,
                p_ref,
                predictors,
                pmv,
                lambda,
                mvx_min,
                mvx_max,
                mvy_min,
                mvy_max,
                blk_w,
                blk_h,
                center_mv,
                center_mv_cost,
                tmp_plane_opt,
                ref_frame,
            ),
            (),
        ),
    ensures
        ({
            let cost = mv_cost(
                *old(tmp_plane_opt) is Some,
                CostParams {
                    pmv,
                    lambda,
                    allow_high_precision_mv: fi.allow_high_precision_mv,
                    range: MvRange {
                        x_min: mvx_min,
                        x_max: mvx_max,
                        y_min: mvy_min,
                        y_max: mvy_max,
                    },
                    blk_w,
                    blk_h,
                },
                *p_org,
                *p_ref,
                fi.predictor,
                ref_frame,
                po,
            );
            let found = *final(center_mv_cost);
            &&& forall|k: int|
                0 <= k < predictors@.len() ==> found <= cost(#[trigger] predictors@[k])
            &&& found == u64::MAX ==> final(center_mv).row == 0 && final(center_mv).col == 0
            &&& found < u64::MAX ==> exists|k: int|
                {
                    &&& 0 <= k < predictors@.len()
                    &&& *final(center_mv) == #[trigger] predictors@[k]
                    &&& found == cost(predictors@[k])
                    &&& forall|m: int| 0 <= m < k ==> found < cost(#[trigger] predictors@[m])
                }
        }),
{
    let params = CostParams {
        pmv,
        lambda,
        allow_high_precision_mv: fi.allow_high_precision_mv,
        range: MvRange { x_min: mvx_min, x_max: mvx_max, y_min: mvy_min, y_max: mvy_max },
        blk_w,
        blk_h,
    };
    let cost = mv_cost(
        *old(tmp_plane_opt) is Some,
        params,
        *p_org,
        *p_ref,
        fi.predictor,
        ref_frame,
        po,
    );
    law_improve_finds_first_cheapest((zero_mv(), u64::MAX), predictors@, cost);
    assert((*final(center_mv), *final(center_mv_cost)) == cheapest(predictors@, cost));
}

/// The cost of a vector in range: 256 times the distance of the block at `po` from the block to
/// which the vector points, or from the prediction where there is a scratch plane, plus lambda
/// times its bits. The scratch plane then holds the prediction. Out of range it is as it was, and
/// the cost is the largest number.
pub proof fn law_get_mv_rd_cost_result<T: Pixel, I: InterPredictor<T>>(
    fi: &FrameInvariants<T, I>,
    po: PlaneOffset,
    p_org: &Plane<T>,
    p_ref: &Plane<T>,
    pmv: [MotionVector; 2],
    lambda: u32,
    mvx_min: isize,
    mvx_max: isize,
    mvy_min: isize,
    mvy_max: isize,
    blk_w: usize,
    blk_h: usize,
    cand_mv: MotionVector,
    tmp_plane_opt: &mut Option<Plane<T>>,
    ref_frame: RefType,
    r: u64,
)
    requires
        call_ensures(
            get_mv_rd_cost::<T, I>,
            (
                fi,
                po,
                p_org,
                p_ref,
                pmv,
                lambda,
                mvx_min,
                mvx_max,
                mvy_min,
                mvy_max,
                blk_w,
                blk_h,
                cand_mv,
                tmp_plane_opt,
                ref_frame,
            ),
            r,
        ),
    ensures
        ({
            let org = p_org.pixels_from(po.x as int, po.y as int);
            let predicted = fi.predictor.predicted(ref_frame, po, blk_w, blk_h, cand_mv);
            let other = if *old(tmp_plane_opt) is Some {
                predicted
            } else {
                p_ref.pixels_from(
                    po.x + trunc_div(cand_mv.col as int, 8),
                    po.y + trunc_div(cand_mv.row as int, 8),
                )
            };
            let hp = fi.allow_high_precision_mv;
            if mvx_min <= cand_mv.col && cand_mv.col <= mvx_max && mvy_min <= cand_mv.row
                && cand_mv.row <= mvy_max {
                &&& r < u64::MAX
                &&& r == rd_cost(
                    block_sad(org, other, blk_w as nat, blk_h as nat),
                    cand_mv,
                    pmv,
                    lambda,
                    hp,
                ) as u64
                &&& *old(tmp_plane_opt) is None ==> *final(tmp_plane_opt) is None
                &&& *old(tmp_plane_opt) is Some ==> match *final(tmp_plane_opt) {
                    Some(plane) => forall|i: int, j: int|
                        0 <= i < blk_w && 0 <= j < blk_h ==> #[trigger] plane.pixel(i, j)
                            == predicted(i, j),
                    None => false,
                }
            } else {
                r == u64::MAX && *final(tmp_plane_opt) == *old(tmp_plane_opt)
            }
        }),
{
}

/// A full search leaves the first of the cheapest positions of the rectangle that lie whole steps
/// from its first one: none of them costs less, and those in a row above, or further left in the
/// same row, cost more. The cost is that of the vector to the position, by the distance of the
/// block being coded from the block at the position.
pub proof fn law_full_search_result<T: Pixel>(
    x_lo: isize,
    x_hi: isize,
    y_lo: isize,
    y_hi: isize,
    blk_h: usize,
    blk_w: usize,
    p_org: &Plane<T>,
    p_ref: &Plane<T>,
    best_mv: &mut MotionVector,
    lowest_cost: &mut u64,
    po: PlaneOffset,
    step: usize,
    lambda: u32,
    pmv: [MotionVector; 2],
    allow_high_precision_mv: bool,
)
    requires
        call_ensures(
            full_search::<T>,
            (
                x_lo,
                x_hi,
                y_lo,
                y_hi,
                blk_h,
                blk_w,
                p_org,
                p_ref,
                best_mv,
                lowest_cost,
                po,
                step,
                lambda,
                pmv,
                allow_high_precision_mv,
            ),
            (),
        ),
        x_lo <= x_hi && y_lo <= y_hi && step > 0,
    ensures
        ({
            let cost = |x: int, y: int|
                rd_cost(
                    block_sad(
                        p_org.pixels_from(po.x as int, po.y as int),
                        p_ref.pixels_from(x, y),
                        blk_w as nat,
                        blk_h as nat,
                    ),
                    position_mv(po, x, y),
                    pmv,
                    lambda,
                    allow_high_precision_mv,
                ) as u64;
            let found = *final(lowest_cost);
            exists|x: int, y: int|
                {
                    &&& x_lo <= x <= x_hi && (x - x_lo) % step as int == 0
                    &&& y_lo <= y <= y_hi && (y - y_lo) % step as int == 0
                    &&& *final(best_mv) == position_mv(po, x, y)
                    &&& found == #[trigger] cost(x, y)
                    &&& forall|p: int, q: int|
                        x_lo <= p <= x_hi && (p - x_lo) % step as int == 0 && y_lo <= q <= y_hi
                            && (q - y_lo) % step as int == 0 ==> {
                            &&& found <= #[trigger] cost(p, q)
                            &&& q < y || (q == y && p < x) ==> found < cost(p, q)
                        }
                }
        }),
{
    let params = FullSearchParams {
        p_org: *p_org,
        p_ref: *p_ref,
        po,
        blk_w,
        blk_h,
        lambda,
        pmv,
        allow_high_precision_mv,
    };
    let cost = |x: int, y: int|
        rd_cost(
            block_sad(
                p_org.pixels_from(po.x as int, po.y as int),
                p_ref.pixels_from(x, y),
                blk_w as nat,
                blk_h as nat,
            ),
            position_mv(po, x, y),
            pmv,
            lambda,
            allow_high_precision_mv,
        ) as u64;
    assert forall|x: int, y: int| #[trigger] cost(x, y) == params.cost(x, y) by {}
    law_full_search_finds_the_first_best_position(params, x_lo, x_hi, y_lo, y_hi, step);
    let found = params.outcome(Grid { x_lo, x_hi, y_lo, y_hi, step });
    let (x, y) = choose|x: int, y: int|
        {
            &&& x_lo <= x <= x_hi && (x - x_lo) % step as int == 0
            &&& y_lo <= y <= y_hi && (y - y_lo) % step as int == 0
            &&& found == (position_mv(params.po, x, y), #[trigger] params.cost(x, y))
            &&& forall|p: int, q: int|
                x_lo <= p <= x_hi && (p - x_lo) % step as int == 0 && y_lo <= q <= y_hi && (q
                    - y_lo) % step as int == 0 ==> {
                    &&& found.1 <= #[trigger] params.cost(p, q)
                    &&& q < y || (q == y && p < x) ==> found.1 < params.cost(p, q)
                }
        };
    assert(cost(x, y) == found.1);
    assert forall|p: int, q: int|
        x_lo <= p <= x_hi && (p - x_lo) % step as int == 0 && y_lo <= q <= y_hi && (q - y_lo)
            % step as int == 0 implies {
        &&& found.1 <= #[trigger] cost(p, q)
        &&& q < y || (q == y && p < x) ==> found.1 < cost(p, q)
    } by {
        assert(found.1 <= params.cost(p, q));
    }
}

/// A refinement looks around with steps of eight, four and two eighths of a pixel, and of one
/// with high precision. After each step it is no dearer than it was and than any of the eight
/// vectors so far from where it was, and after the last step it is what is left.
pub proof fn law_telescopic_subpel_search_result<T: Pixel, I: InterPredictor<T>>(
    fi: &FrameInvariants<T, I>,
    ts: &TileState<'_, T>,
    po: PlaneOffset,
    lambda: u32,
    ref_frame: RefType,
    pmv: [MotionVector; 2],
    mvx_min: isize,
    mvx_max: isize,
    mvy_min: isize,
    mvy_max: isize,
    blk_w: usize,
    blk_h: usize,
    best_mv: &mut MotionVector,
    lowest_cost: &mut u64,
)
    requires
        call_ensures(
            telescopic_subpel_search::<T, I>,
            (
                fi,
                ts,
                po,
                lambda,
                ref_frame,
                pmv,
                mvx_min,
                mvx_max,
                mvy_min,
                mvy_max,
                blk_w,
                blk_h,
                best_mv,
                lowest_cost,
            ),
            (),
        ),
    ensures
        ({
            let cost = mv_cost(
                true,
                CostParams {
                    pmv,
                    lambda,
                    allow_high_precision_mv: fi.allow_high_precision_mv,
                    range: MvRange {
                        x_min: mvx_min,
                        x_max: mvx_max,
                        y_min: mvy_min,
                        y_max: mvy_max,
                    },
                    blk_w,
                    blk_h,
                },
                *ts.input,
                *ts.input,
                fi.predictor,
                ref_frame,
                po,
            );
            let none_cheaper_around = |c: MotionVector, step: int, limit: u64|
                {
                    let above = (c.row - step) as i16;
                    let below = (c.row + step) as i16;
                    let left = (c.col - step) as i16;
                    let right = (c.col + step) as i16;
                    &&& limit <= cost(MotionVector { row: above, col: left })
                    &&& limit <= cost(MotionVector { row: above, col: c.col })
                    &&& limit <= cost(MotionVector { row: above, col: right })
                    &&& limit <= cost(MotionVector { row: c.row, col: left })
                    &&& limit <= cost(MotionVector { row: c.row, col: right })
                    &&& limit <= cost(MotionVector { row: below, col: left })
                    &&& limit <= cost(MotionVector { row: below, col: c.col })
                    &&& limit <= cost(MotionVector { row: below, col: right })
                };
            let start = (*old(best_mv), *old(lowest_cost));
            let end = (*final(best_mv), *final(lowest_cost));
            exists|a: (MotionVector, u64), b: (MotionVector, u64), c: (MotionVector, u64)|
                {
                    &&& #[trigger] cost(a.0) == a.1 || a == start
                    &&& #[trigger] cost(b.0) == b.1 || b == a
                    &&& #[trigger] cost(c.0) == c.1 || c == b
                    &&& end.1 <= c.1 <= b.1 <= a.1 <= start.1
                    &&& none_cheaper_around(start.0, 8, a.1)
                    &&& none_cheaper_around(a.0, 4, b.1)
                    &&& none_cheaper_around(b.0, 2, c.1)
                    &&& fi.allow_high_precision_mv ==> none_cheaper_around(c.0, 1, end.1)
                    &&& !fi.allow_high_precision_mv ==> end == c
                }
        }),
{
    let params = CostParams {
        pmv,
        lambda,
        allow_high_precision_mv: fi.allow_high_precision_mv,
        range: MvRange { x_min: mvx_min, x_max: mvx_max, y_min: mvy_min, y_max: mvy_max },
        blk_w,
        blk_h,
    };
    let cost = mv_cost(true, params, *ts.input, *ts.input, fi.predictor, ref_frame, po);
    law_refinement_leaves_nothing_cheaper_around(
        (*old(best_mv), *old(lowest_cost)),
        fi.allow_high_precision_mv,
        cost,
    );
}

/// The coarsest estimate, where there is a reference frame, is a displacement that costs no more
/// than any other of up to 192 pixels to the left or right and 64 up or down, times the scale, in
/// steps of four pixels within the bounds on vectors. Of equal ones it is the highest, and of
/// these the leftmost. The block is moved into the tile first.
#[verifier::spinoff_prover]
#[verifier::rlimit(60)]
pub proof fn law_estimate_motion_ss4_result<T: Pixel, I: InterPredictor<T>>(
    fi: &FrameInvariants<T, I>,
    ts: &TileState<'_, T>,
    bsize: BlockSize,
    ref_idx: usize,
    tile_bo: BlockOffset,
    r: Option<MotionVector>,
    rec: ReferenceFrame<T>,
    dx: int,
    dy: int,
)
    requires
        call_ensures(estimate_motion_ss4::<T, I>, (fi, ts, bsize, ref_idx, tile_bo), r),
        fi.slot(ref_idx as int) == Some(&rec),
        ss4_defined(*fi, *ts, rec, bsize, block_in_tile(*ts, tile_bo, bsize)),
        -(192 * fi.me_range_scale) <= 4 * dx <= 192 * fi.me_range_scale,
        -(64 * fi.me_range_scale) <= 4 * dy <= 64 * fi.me_range_scale,
        ({
            let bo = adjusted_bo(
                tile_bo,
                ts.mi_width,
                ts.mi_height,
                bsize.dimensions().0,
                bsize.dimensions().1,
            );
            let x = ts.origin.x + bo.x;
            let y = ts.origin.y + bo.y;
            let w = bsize.dimensions().0 as int;
            let h = bsize.dimensions().1 as int;
            &&& -(32 * x) - (128 + 8 * w) <= 32 * dx
            &&& 32 * dx <= 32 * (fi.w_in_b - x - w / 4) + (128 + 8 * w)
            &&& -(32 * y) - (128 + 8 * h) <= 32 * dy
            &&& 32 * dy <= 32 * (fi.h_in_b - y - h / 4) + (128 + 8 * h)
        }),
    ensures
        r is Some,
        ({
            let bo = adjusted_bo(
                tile_bo,
                ts.mi_width,
                ts.mi_height,
                bsize.dimensions().0,
                bsize.dimensions().1,
            );
            let x = ts.origin.x + bo.x;
            let y = ts.origin.y + bo.y;
            let cost = |right: int, down: int|
                rd_cost(
                    block_sad(
                        ts.input_qres.pixels_from(x, y),
                        rec.input_qres.pixels_from(x + right, y + down),
                        (bsize.dimensions().0 / 4) as nat,
                        (bsize.dimensions().1 / 4) as nat,
                    ),
                    MotionVector { row: (8 * down) as i16, col: (8 * right) as i16 },
                    [MotionVector { row: 0, col: 0 }, MotionVector { row: 0, col: 0 }],
                    scaled_lambda(fi.me_lambda, 64),
                    fi.allow_high_precision_mv,
                );
            let right = r->0.col as int / 32;
            let down = r->0.row as int / 32;
            &&& r->0.col == 32 * right && r->0.row == 32 * down
            &&& -(192 * fi.me_range_scale) <= 4 * right <= 192 * fi.me_range_scale
            &&& -(64 * fi.me_range_scale) <= 4 * down <= 64 * fi.me_range_scale
            &&& cost(right, down) <= cost(dx, dy)
            &&& dy < down || (dy == down && dx < right) ==> cost(right, down) < cost(dx, dy)
        }),
{
    let bo = block_in_tile(*ts, tile_bo, bsize);
    assert(bo == adjusted_bo(
        tile_bo,
        ts.mi_width,
        ts.mi_height,
        bsize.dimensions().0,
        bsize.dimensions().1,
    ));
    let range = block_range(*fi, *ts, bo, bsize);
    assert({
        &&& range.x_min <= 8 * (4 * dx) <= range.x_max
        &&& range.y_min <= 8 * (4 * dy) <= range.y_max
    }) by {
        law_block_range_in_numbers(*fi, *ts, bo, bsize);
    }
    law_ss4_finds_the_best_displacement(*fi, *ts, rec, bsize, bo, dx, dy);
    let mv = ss4_outcome(*fi, *ts, rec, bsize, bo);
    let right = mv.col as int / 8;
    let down = mv.row as int / 8;
    assert(r == Some(scaled_mv(mv, 4)));
    law_scaling(mv, 4);
    assert(r->0.col == 32 * right && r->0.row == 32 * down);
}

/// Without a reference frame there is no coarse estimate, and the vector of a block is zero.
pub proof fn law_no_reference_no_estimate<T: Pixel, I: InterPredictor<T>>(
    fi: &FrameInvariants<T, I>,
    ts: &TileState<'_, T>,
    bsize: BlockSize,
    ref_idx: usize,
    tile_bo: BlockOffset,
    pmvs: &[Option<MotionVector>; 3],
    ref_frame: usize,
    reference: RefType,
    cmv: MotionVector,
    pmv: [MotionVector; 2],
    quarter: Option<MotionVector>,
    half: Option<MotionVector>,
    half_too: Option<MotionVector>,
    mv: MotionVector,
    mv_too: MotionVector,
)
    requires
        call_ensures(estimate_motion_ss4::<T, I>, (fi, ts, bsize, ref_idx, tile_bo), quarter),
        call_ensures(
            <DiamondSearch as MotionEstimation<T, I>>::estimate_motion_ss2,
            (fi, ts, bsize, ref_idx, tile_bo, pmvs, ref_frame),
            half,
        ),
        call_ensures(
            <FullSearch as MotionEstimation<T, I>>::estimate_motion_ss2,
            (fi, ts, bsize, ref_idx, tile_bo, pmvs, ref_frame),
            half_too,
        ),
        call_ensures(
            <DiamondSearch as MotionEstimation<T, I>>::motion_estimation,
            (fi, ts, bsize, tile_bo, reference, cmv, pmv),
            mv,
        ),
        call_ensures(
            <FullSearch as MotionEstimation<T, I>>::motion_estimation,
            (fi, ts, bsize, tile_bo, reference, cmv, pmv),
            mv_too,
        ),
    ensures
        fi.slot(ref_idx as int) is None <==> quarter is None,
        fi.slot(ref_idx as int) is None <==> half is None,
        fi.slot(ref_idx as int) is None <==> half_too is None,
        fi.reference(reference) is None ==> mv.row == 0 && mv.col == 0,
        fi.reference(reference) is None ==> mv_too.row == 0 && mv_too.col == 0,
{
}

/// The estimate at half resolution is what the search finds, scaled up.
proof fn lemma_full_search_ss2_scaled<T: Pixel, I: InterPredictor<T>>(
    fi: &FrameInvariants<T, I>,
    ts: &TileState<'_, T>,
    bsize: BlockSize,
    ref_idx: usize,
    tile_bo: BlockOffset,
    pmvs: &[Option<MotionVector>; 3],
    ref_frame: usize,
    r: Option<MotionVector>,
    rec: ReferenceFrame<T>,
)
    requires
        call_ensures(
            <FullSearch as MotionEstimation<T, I>>::estimate_motion_ss2,
            (fi, ts, bsize, ref_idx, tile_bo, pmvs, ref_frame),
            r,
        ),
        fi.slot(ref_idx as int) == Some(&rec),
    ensures
        ({
            let (blk_w, blk_h) = bsize.dimensions();
            let bo = adjusted_bo(tile_bo, ts.mi_width, ts.mi_height, blk_w, blk_h);
            r == Some(
                scaled_mv(
                    FullSearch::ss2_outcome(
                        (zero_mv(), u64::MAX),
                        *fi,
                        *ts,
                        *pmvs,
                        bo,
                        ts.mvs@[ref_frame as int],
                        fi.reference(RefType::LAST_FRAME),
                        rec,
                        [zero_mv(), zero_mv()],
                        scaled_lambda(fi.me_lambda, 16),
                        block_range(*fi, *ts, bo, bsize),
                        blk_w,
                        blk_h,
                    ).0,
                    2,
                ),
            )
        }),
{
}

/// Twice a vector of whole pixels.
proof fn lemma_twice_whole_pixels(mv: MotionVector)
    requires
        can_scale(mv, 2),
        mv.col as int % 8 == 0 && mv.row as int % 8 == 0,
    ensures
        scaled_mv(mv, 2).col == 16 * (mv.col as int / 8),
        scaled_mv(mv, 2).row == 16 * (mv.row as int / 8),
        scaled_mv(mv, 2).col as int / 16 == mv.col as int / 8,
        scaled_mv(mv, 2).row as int / 16 == mv.row as int / 8,
{
}

/// The estimate of a search over all positions at half resolution is a displacement that costs no
/// more than any other within sixteen pixels of the last vector that was there, in steps of two
/// pixels, as far as the bounds on vectors allow. Of equal ones it is the highest, and of these
/// the leftmost.
#[verifier::spinoff_prover]
#[verifier::rlimit(60)]
pub proof fn law_full_search_ss2_result<T: Pixel, I: InterPredictor<T>>(
    fi: &FrameInvariants<T, I>,
    ts: &TileState<'_, T>,
    bsize: BlockSize,
    ref_idx: usize,
    tile_bo: BlockOffset,
    pmvs: &[Option<MotionVector>; 3],
    ref_frame: usize,
    r: Option<MotionVector>,
    rec: ReferenceFrame<T>,
    k: int,
    pmv: MotionVector,
    dx: int,
    dy: int,
)
    requires
        call_ensures(
            <FullSearch as MotionEstimation<T, I>>::estimate_motion_ss2,
            (fi, ts, bsize, ref_idx, tile_bo, pmvs, ref_frame),
            r,
        ),
        fi.slot(ref_idx as int) == Some(&rec),
        half_defined::<T, I, FullSearch>(*fi, *ts, bsize, tile_bo, *pmvs, ref_frame, rec),
        0 <= k < 3,
        pmvs[k] == Some(pmv),
        forall|m: int| k < m < 3 ==> (#[trigger] pmvs[m]) is None,
        ({
            let bo = adjusted_bo(
                tile_bo,
                ts.mi_width,
                ts.mi_height,
                bsize.dimensions().0,
                bsize.dimensions().1,
            );
            let range = block_range(*fi, *ts, bo, bsize);
            let col = trunc_div(pmv.col as int, 8);
            let row = trunc_div(pmv.row as int, 8);
            &&& bounded_pixels(col - 16, range.x_min, range.x_max) / 2 <= dx
            &&& dx <= bounded_pixels(col + 16, range.x_min, range.x_max) / 2
            &&& bounded_pixels(row - 16, range.y_min, range.y_max) / 2 <= dy
            &&& dy <= bounded_pixels(row + 16, range.y_min, range.y_max) / 2
        }),
    ensures
        r is Some,
        ({
            let bo = adjusted_bo(
                tile_bo,
                ts.mi_width,
                ts.mi_height,
                bsize.dimensions().0,
                bsize.dimensions().1,
            );
            let x = 2 * (ts.origin.x + bo.x);
            let y = 2 * (ts.origin.y + bo.y);
            let cost = |right: int, down: int|
                rd_cost(
                    block_sad(
                        ts.input_hres.pixels_from(x, y),
                        rec.input_hres.pixels_from(x + right, y + down),
                        (bsize.dimensions().0 / 2) as nat,
                        (bsize.dimensions().1 / 2) as nat,
                    ),
                    MotionVector { row: (8 * down) as i16, col: (8 * right) as i16 },
                    [MotionVector { row: 0, col: 0 }, MotionVector { row: 0, col: 0 }],
                    scaled_lambda(fi.me_lambda, 16),
                    fi.allow_high_precision_mv,
                );
            let right = r->0.col as int / 16;
            let down = r->0.row as int / 16;
            let range = block_range(*fi, *ts, bo, bsize);
            let col = trunc_div(pmv.col as int, 8);
            let row = trunc_div(pmv.row as int, 8);
            &&& bounded_pixels(col - 16, range.x_min, range.x_max) / 2 <= right
            &&& right <= bounded_pixels(col + 16, range.x_min, range.x_max) / 2
            &&& bounded_pixels(row - 16, range.y_min, range.y_max) / 2 <= down
            &&& down <= bounded_pixels(row + 16, range.y_min, range.y_max) / 2
            &&& r->0.col == 16 * right && r->0.row == 16 * down
            &&& cost(right, down) <= cost(dx, dy)
            &&& dy < down || (dy == down && dx < right) ==> cost(right, down) < cost(dx, dy)
        }),
{
    let (blk_w, blk_h) = bsize.dimensions();
    let bo = adjusted_bo(tile_bo, ts.mi_width, ts.mi_height, blk_w, blk_h);
    let range = block_range(*fi, *ts, bo, bsize);
    let lambda = scaled_lambda(fi.me_lambda, 16);
    let last = fi.reference(RefType::LAST_FRAME);
    assert(range.contains(zero_mv())) by {
        law_block_range_in_numbers(*fi, *ts, bo, bsize);
    }
    law_full_search_half_stage_finds_the_best_displacement(
        (zero_mv(), u64::MAX),
        *fi,
        *ts,
        *pmvs,
        bo,
        ts.mvs@[ref_frame as int],
        last,
        rec,
        [zero_mv(), zero_mv()],
        lambda,
        range,
        blk_w,
        blk_h,
        k,
        pmv,
        dx,
        dy,
    );
    let mv = FullSearch::ss2_outcome(
        (zero_mv(), u64::MAX),
        *fi,
        *ts,
        *pmvs,
        bo,
        ts.mvs@[ref_frame as int],
        last,
        rec,
        [zero_mv(), zero_mv()],
        lambda,
        range,
        blk_w,
        blk_h,
    ).0;
    lemma_full_search_ss2_scaled(fi, ts, bsize, ref_idx, tile_bo, pmvs, ref_frame, r, rec);
    lemma_twice_whole_pixels(mv);
}

/// Whether the search at half resolution is defined, and what it finds can be scaled up.
pub open spec fn half_defined<T: Pixel, I: InterPredictor<T>, S: MotionSearch<T, I>>(
    fi: FrameInvariants<T, I>,
    ts: TileState<'_, T>,
    bsize: BlockSize,
    tile_bo: BlockOffset,
    pmvs: [Option<MotionVector>; 3],
    ref_frame: usize,
    rec: ReferenceFrame<T>,
) -> bool {
    let (blk_w, blk_h) = bsize.dimensions();
    let bo = adjusted_bo(tile_bo, ts.mi_width, ts.mi_height, blk_w, blk_h);
    let range = block_range(fi, ts, bo, bsize);
    let lambda = scaled_lambda(fi.me_lambda, 16);
    let last = fi.reference(RefType::LAST_FRAME);
    let no_mvs = [zero_mv(), zero_mv()];
    let mvs = ts.mvs@[ref_frame as int];
    &&& crate::me::block_range_defined(fi, ts, bo, bsize)
    &&& S::ss2_defined(fi, ts, pmvs, bo, mvs, last, rec, no_mvs, lambda, range, blk_w, blk_h)
    &&& can_scale(
        S::ss2_outcome(
            (zero_mv(), u64::MAX),
            fi,
            ts,
            pmvs,
            bo,
            mvs,
            last,
            rec,
            no_mvs,
            lambda,
            range,
            blk_w,
            blk_h,
        ).0,
        2,
    )
}

/// The estimate of a diamond search at half resolution is twice a vector beside which none is
/// cheaper, one pixel away in the plane of half the width and height, and which is no dearer than
/// the halves of the vectors to start from for the last vector that was there.
pub proof fn law_diamond_ss2_result<T: Pixel, I: InterPredictor<T>>(
    fi: &FrameInvariants<T, I>,
    ts: &TileState<'_, T>,
    bsize: BlockSize,
    ref_idx: usize,
    tile_bo: BlockOffset,
    pmvs: &[Option<MotionVector>; 3],
    ref_frame: usize,
    r: Option<MotionVector>,
    rec: ReferenceFrame<T>,
    k: int,
    pmv: MotionVector,
)
    requires
        call_ensures(
            <DiamondSearch as MotionEstimation<T, I>>::estimate_motion_ss2,
            (fi, ts, bsize, ref_idx, tile_bo, pmvs, ref_frame),
            r,
        ),
        fi.slot(ref_idx as int) == Some(&rec),
        half_defined::<T, I, DiamondSearch>(*fi, *ts, bsize, tile_bo, *pmvs, ref_frame, rec),
        0 <= k < 3,
        pmvs[k] == Some(pmv),
        forall|m: int| k < m < 3 ==> (#[trigger] pmvs[m]) is None,
    ensures
        r is Some,
        ({
            let (blk_w, blk_h) = bsize.dimensions();
            let bo = adjusted_bo(tile_bo, ts.mi_width, ts.mi_height, blk_w, blk_h);
            let cost = mv_cost(
                false,
                CostParams {
                    pmv: [zero_mv(), zero_mv()],
                    lambda: scaled_lambda(fi.me_lambda, 16),
                    allow_high_precision_mv: fi.allow_high_precision_mv,
                    range: block_range(*fi, *ts, bo, bsize).halved(),
                    blk_w: blk_w / 2,
                    blk_h: blk_h / 2,
                },
                *ts.input_hres,
                rec.input_hres,
                fi.predictor,
                RefType::LAST_FRAME,
                ts.frame_bo(bo).pixel_offset(2),
            );
            let starts = subset_predictors(
                bo,
                pmv,
                ts.mvs@[ref_frame as int],
                fi.reference(RefType::LAST_FRAME),
                0,
            );
            let row = (r->0.row as int / 2) as i16;
            let col = (r->0.col as int / 2) as i16;
            let found = cost(MotionVector { row, col });
            &&& r->0.row == 2 * row && r->0.col == 2 * col
            &&& forall|m: int|
                0 <= m < starts.len() ==> found <= cost(halved_mv(#[trigger] starts[m]))
            &&& found <= cost(MotionVector { row: (row + 8) as i16, col })
            &&& found <= cost(MotionVector { row: (row - 8) as i16, col })
            &&& found <= cost(MotionVector { row, col: (col + 8) as i16 })
            &&& found <= cost(MotionVector { row, col: (col - 8) as i16 })
        }),
{
    let (blk_w, blk_h) = bsize.dimensions();
    let bo = adjusted_bo(tile_bo, ts.mi_width, ts.mi_height, blk_w, blk_h);
    let range = block_range(*fi, *ts, bo, bsize);
    let lambda = scaled_lambda(fi.me_lambda, 16);
    let last = fi.reference(RefType::LAST_FRAME);
    law_diamond_half_stage_beats_its_starts(
        (zero_mv(), u64::MAX),
        *fi,
        *ts,
        *pmvs,
        bo,
        ts.mvs@[ref_frame as int],
        last,
        rec,
        [zero_mv(), zero_mv()],
        lambda,
        range,
        blk_w,
        blk_h,
        k,
        pmv,
    );
    let found = DiamondSearch::ss2_outcome(
        (zero_mv(), u64::MAX),
        *fi,
        *ts,
        *pmvs,
        bo,
        ts.mvs@[ref_frame as int],
        last,
        rec,
        [zero_mv(), zero_mv()],
        lambda,
        range,
        blk_w,
        blk_h,
    );
    assert(pmvs[k] is Some);
    law_scaling(found.0, 2);
    assert((r->0.row as int / 2) as i16 == found.0.row);
    assert((r->0.col as int / 2) as i16 == found.0.col);
}

/// Without any vector to start from, the estimate at half resolution is zero.
pub proof fn law_ss2_without_vectors<T: Pixel, I: InterPredictor<T>>(
    fi: &FrameInvariants<T, I>,
    ts: &TileState<'_, T>,
    bsize: BlockSize,
    ref_idx: usize,
    tile_bo: BlockOffset,
    pmvs: &[Option<MotionVector>; 3],
    ref_frame: usize,
    r: Option<MotionVector>,
    s: Option<MotionVector>,
)
    requires
        call_ensures(
            <DiamondSearch as MotionEstimation<T, I>>::estimate_motion_ss2,
            (fi, ts, bsize, ref_idx, tile_bo, pmvs, ref_frame),
            r,
        ),
        call_ensures(
            <FullSearch as MotionEstimation<T, I>>::estimate_motion_ss2,
            (fi, ts, bsize, ref_idx, tile_bo, pmvs, ref_frame),
            s,
        ),
        fi.slot(ref_idx as int) is Some,
        forall|m: int| 0 <= m < 3 ==> (#[trigger] pmvs[m]) is None,
    ensures
        r == Some(MotionVector { row: 0, col: 0 }),
        s == Some(MotionVector { row: 0, col: 0 }),
{
    let (blk_w, blk_h) = bsize.dimensions();
    let bo = adjusted_bo(tile_bo, ts.mi_width, ts.mi_height, blk_w, blk_h);
    law_half_stage_without_vectors(
        (zero_mv(), u64::MAX),
        *fi,
        *ts,
        *pmvs,
        bo,
        ts.mvs@[ref_frame as int],
        fi.reference(RefType::LAST_FRAME),
        *(fi.slot(ref_idx as int)->0),
        [zero_mv(), zero_mv()],
        scaled_lambda(fi.me_lambda, 16),
        block_range(*fi, *ts, bo, bsize),
        blk_w,
        blk_h,
    );
}

/// Motion estimation by diamond search goes through a vector of the search over whole pixels, no
/// dearer than zero and the coarse vector by whole pixels, and with none cheaper one pixel away
/// above, below, to the left or to the right. What it returns is no dearer than that vector by
/// the costs that count fractions, and none is cheaper beside it, a quarter or, with high
/// precision, an eighth of a pixel away.
pub proof fn law_diamond_motion_estimation_result<T: Pixel, I: InterPredictor<T>>(
    fi: &FrameInvariants<T, I>,
    ts: &TileState<'_, T>,
    bsize: BlockSize,
    tile_bo: BlockOffset,
    ref_frame: RefType,
    cmv: MotionVector,
    pmv: [MotionVector; 2],
    r: MotionVector,
    rec: ReferenceFrame<T>,
)
    requires
        call_ensures(
            <DiamondSearch as MotionEstimation<T, I>>::motion_estimation,
            (fi, ts, bsize, tile_bo, ref_frame, cmv, pmv),
            r,
        ),
        fi.reference(ref_frame) == Some(&rec),
        estimation_defined::<T, I, DiamondSearch>(
            *fi,
            *ts,
            bsize,
            tile_bo,
            ref_frame,
            cmv,
            pmv,
            rec,
        ),
    ensures
        ({
            let (blk_w, blk_h) = bsize.dimensions();
            let params = CostParams {
                pmv,
                lambda: scaled_lambda(fi.me_lambda, 1),
                allow_high_precision_mv: fi.allow_high_precision_mv,
                range: block_range(*fi, *ts, tile_bo, bsize),
                blk_w,
                blk_h,
            };
            let po = ts.frame_bo(tile_bo).pixel_offset(4);
            let whole = mv_cost(
                false,
                params,
                *ts.input,
                rec.frame,
                fi.predictor,
                ref_frame,
                po,
            );
            let fraction = mv_cost(
                true,
                params,
                *ts.input,
                rec.frame,
                fi.predictor,
                ref_frame,
                po,
            );
            let d: int = if fi.allow_high_precision_mv {
                1
            } else {
                2
            };
            let found = fraction(r);
            &&& found < u64::MAX
            &&& found <= fraction(MotionVector { row: (r.row + d) as i16, col: r.col })
            &&& found <= fraction(MotionVector { row: (r.row - d) as i16, col: r.col })
            &&& found <= fraction(MotionVector { row: r.row, col: (r.col + d) as i16 })
            &&& found <= fraction(MotionVector { row: r.row, col: (r.col - d) as i16 })
            &&& exists|c: MotionVector|
                {
                    &&& found <= #[trigger] fraction(c)
                    &&& whole(c) < u64::MAX
                    &&& whole(c) <= whole(MotionVector { row: 0, col: 0 })
                    &&& whole(c) <= whole(cmv.fullpel())
                    &&& whole(c) <= whole(MotionVector { row: (c.row + 8) as i16, col: c.col })
                    &&& whole(c) <= whole(MotionVector { row: (c.row - 8) as i16, col: c.col })
                    &&& whole(c) <= whole(MotionVector { row: c.row, col: (c.col + 8) as i16 })
                    &&& whole(c) <= whole(MotionVector { row: c.row, col: (c.col - 8) as i16 })
                }
        }),
{
    let (blk_w, blk_h) = bsize.dimensions();
    let lambda = scaled_lambda(fi.me_lambda, 1);
    let range = block_range(*fi, *ts, tile_bo, bsize);
    let start = (zero_mv(), u64::MAX);
    law_diamond_stage_beats_its_starts(
        start,
        *fi,
        *ts,
        rec,
        tile_bo,
        lambda,
        cmv,
        pmv,
        range,
        blk_w,
        blk_h,
        ref_frame,
    );
    let full = DiamondSearch::full_pixel_outcome(
        start,
        *fi,
        *ts,
        rec,
        tile_bo,
        lambda,
        cmv,
        pmv,
        range,
        blk_w,
        blk_h,
        ref_frame,
    );
    law_diamond_stage_refines(
        full,
        *fi,
        *ts,
        rec,
        tile_bo,
        lambda,
        pmv,
        range,
        blk_w,
        blk_h,
        ref_frame,
    );
    let params = CostParams {
        pmv,
        lambda,
        allow_high_precision_mv: fi.allow_high_precision_mv,
        range,
        blk_w,
        blk_h,
    };
    let po = ts.frame_bo(tile_bo).pixel_offset(4);
    let fraction = mv_cost(true, params, *ts.input, rec.frame, fi.predictor, ref_frame, po);
    assert(fraction(r) <= fraction(full.0));
}

/// Whether the searches over whole pixels and over fractions are defined for a block.
pub open spec fn estimation_defined<T: Pixel, I: InterPredictor<T>, S: MotionSearch<T, I>>(
    fi: FrameInvariants<T, I>,
    ts: TileState<'_, T>,
    bsize: BlockSize,
    tile_bo: BlockOffset,
    ref_frame: RefType,
    cmv: MotionVector,
    pmv: [MotionVector; 2],
    rec: ReferenceFrame<T>,
) -> bool {
    let (blk_w, blk_h) = bsize.dimensions();
    let range = block_range(fi, ts, tile_bo, bsize);
    let lambda = scaled_lambda(fi.me_lambda, 1);
    let full = S::full_pixel_outcome(
        (zero_mv(), u64::MAX),
        fi,
        ts,
        rec,
        tile_bo,
        lambda,
        cmv,
        pmv,
        range,
        blk_w,
        blk_h,
        ref_frame,
    );
    &&& crate::me::block_range_defined(fi, ts, tile_bo, bsize)
    &&& S::full_pixel_defined(
        fi,
        ts,
        rec,
        tile_bo,
        lambda,
        cmv,
        pmv,
        range,
        blk_w,
        blk_h,
        ref_frame,
    )
    &&& S::sub_pixel_defined(
        full,
        fi,
        ts,
        rec,
        tile_bo,
        lambda,
        pmv,
        range,
        blk_w,
        blk_h,
        ref_frame,
    )
}

/// Motion estimation over all positions goes through a displacement that costs no more than any
/// other within sixteen pixels of the coarse vector, in steps of two pixels, as far as the bounds
/// on vectors allow, and returns what the refinement of it comes to.
pub proof fn law_full_search_motion_estimation_result<T: Pixel, I: InterPredictor<T>>(
    fi: &FrameInvariants<T, I>,
    ts: &TileState<'_, T>,
    bsize: BlockSize,
    tile_bo: BlockOffset,
    ref_frame: RefType,
    cmv: MotionVector,
    pmv: [MotionVector; 2],
    r: MotionVector,
    rec: ReferenceFrame<T>,
    dx: int,
    dy: int,
)
    requires
        call_ensures(
            <FullSearch as MotionEstimation<T, I>>::motion_estimation,
            (fi, ts, bsize, tile_bo, ref_frame, cmv, pmv),
            r,
        ),
        fi.reference(ref_frame) == Some(&rec),
        estimation_defined::<T, I, FullSearch>(
            *fi,
            *ts,
            bsize,
            tile_bo,
            ref_frame,
            cmv,
            pmv,
            rec,
        ),
        ({
            let range = block_range(*fi, *ts, tile_bo, bsize);
            let col = trunc_div(cmv.col as int, 8);
            let row = trunc_div(cmv.row as int, 8);
            let first_x = bounded_pixels(col - 16, range.x_min, range.x_max);
            let first_y = bounded_pixels(row - 16, range.y_min, range.y_max);
            &&& first_x <= dx <= bounded_pixels(col + 16, range.x_min, range.x_max)
            &&& first_y <= dy <= bounded_pixels(row + 16, range.y_min, range.y_max)
            &&& (dx - first_x) % 2 == 0 && (dy - first_y) % 2 == 0
        }),
    ensures
        ({
            let (blk_w, blk_h) = bsize.dimensions();
            let lambda = scaled_lambda(fi.me_lambda, 1);
            let x = 4 * (ts.origin.x + tile_bo.x);
            let y = 4 * (ts.origin.y + tile_bo.y);
            let whole = |right: int, down: int|
                rd_cost(
                    block_sad(
                        ts.input.pixels_from(x, y),
                        rec.frame.pixels_from(x + right, y + down),
                        blk_w as nat,
                        blk_h as nat,
                    ),
                    MotionVector { row: (8 * down) as i16, col: (8 * right) as i16 },
                    pmv,
                    lambda,
                    fi.allow_high_precision_mv,
                );
            let fraction = mv_cost(
                true,
                CostParams {
                    pmv,
                    lambda,
                    allow_high_precision_mv: fi.allow_high_precision_mv,
                    range: block_range(*fi, *ts, tile_bo, bsize),
                    blk_w,
                    blk_h,
                },
                *ts.input,
                rec.frame,
                fi.predictor,
                ref_frame,
                ts.frame_bo(tile_bo).pixel_offset(4),
            );
            let range = block_range(*fi, *ts, tile_bo, bsize);
            exists|c: (MotionVector, u64)|
                {
                    &&& r == (#[trigger] telescopic_search(
                        c,
                        telescopic_steps(fi.allow_high_precision_mv),
                        fraction,
                    )).0
                    &&& c.0.col as int % 8 == 0 && c.0.row as int % 8 == 0
                    &&& c.1 == whole(c.0.col as int / 8, c.0.row as int / 8)
                    &&& (c.0.col as int / 8 - bounded_pixels(
                        trunc_div(cmv.col as int, 8) - 16,
                        range.x_min,
                        range.x_max,
                    )) % 2 == 0
                    &&& (c.0.row as int / 8 - bounded_pixels(
                        trunc_div(cmv.row as int, 8) - 16,
                        range.y_min,
                        range.y_max,
                    )) % 2 == 0
                    &&& c.0.col as int / 8 <= bounded_pixels(
                        trunc_div(cmv.col as int, 8) + 16,
                        range.x_min,
                        range.x_max,
                    )
                    &&& c.0.row as int / 8 <= bounded_pixels(
                        trunc_div(cmv.row as int, 8) + 16,
                        range.y_min,
                        range.y_max,
                    )
                    &&& c.1 <= whole(dx, dy)
                    &&& dy < c.0.row as int / 8 || (dy == c.0.row as int / 8 && dx < c.0.col as int
                        / 8) ==> c.1 < whole(dx, dy)
                }
        }),
{
    let (blk_w, blk_h) = bsize.dimensions();
    let lambda = scaled_lambda(fi.me_lambda, 1);
    let range = block_range(*fi, *ts, tile_bo, bsize);
    let start = (zero_mv(), u64::MAX);
    law_block_range_in_numbers(*fi, *ts, tile_bo, bsize);
    law_full_search_stage_finds_the_best_displacement(
        start,
        *fi,
        *ts,
        rec,
        tile_bo,
        lambda,
        cmv,
        pmv,
        range,
        blk_w,
        blk_h,
        ref_frame,
        dx,
        dy,
    );
    let full = FullSearch::full_pixel_outcome(
        start,
        *fi,
        *ts,
        rec,
        tile_bo,
        lambda,
        cmv,
        pmv,
        range,
        blk_w,
        blk_h,
        ref_frame,
    );
    law_full_search_stage_refines(
        full,
        *fi,
        *ts,
        rec,
        tile_bo,
        lambda,
        pmv,
        range,
        blk_w,
        blk_h,
        ref_frame,
    );
    let fraction = mv_cost(
        true,
        CostParams {
            pmv,
            lambda,
            allow_high_precision_mv: fi.allow_high_precision_mv,
            range,
            blk_w,
            blk_h,
        },
        *ts.input,
        rec.frame,
        fi.predictor,
        ref_frame,
        ts.frame_bo(tile_bo).pixel_offset(4),
    );
    assert(r == telescopic_search(
        full,
        telescopic_steps(fi.allow_high_precision_mv),
        fraction,
    ).0);
}

/// The bits of a vector after a predicted one: two for each binary digit of the magnitude of each
/// difference, which is halved, rounding down, without high precision.
pub proof fn law_get_mv_rate_result(
    a: MotionVector,
    b: MotionVector,
    allow_high_precision_mv: bool,
    r: u32,
)
    requires
        call_ensures(get_mv_rate, (a, b, allow_high_precision_mv), r),
    ensures
        ({
            let magnitude = |diff: int|
                if allow_high_precision_mv {
                    abs_int(diff)
                } else {
                    abs_int(diff / 2)
                };
            let row = magnitude(a.row - b.row);
            let col = magnitude(a.col - b.col);
            exists|m: nat, n: nat|
                {
                    &&& r == 2 * m + 2 * n
                    &&& row < #[trigger] pow2(m) && (m > 0 ==> pow2((m - 1) as nat) <= row)
                    &&& col < #[trigger] pow2(n) && (n > 0 ==> pow2((n - 1) as nat) <= col)
                }
        }),
{
    let hp = allow_high_precision_mv;
    law_rate_of_both_components(a, b, hp);
    law_rate_counts_digits(a.row - b.row, hp);
    law_rate_counts_digits(a.col - b.col, hp);
    let m = (component_rate(a.row - b.row, hp) / 2) as nat;
    let n = (component_rate(a.col - b.col, hp) / 2) as nat;
    assert(r == 2 * m + 2 * n);
    let row = if hp {
        abs_int(a.row - b.row)
    } else {
        abs_int((a.row - b.row) / 2)
    };
    let col = if hp {
        abs_int(a.col - b.col)
    } else {
        abs_int((a.col - b.col) / 2)
    };
    assert(row < pow2(m) && (m > 0 ==> pow2((m - 1) as nat) <= row));
    assert(col < pow2(n) && (n > 0 ==> pow2((n - 1) as nat) <= col));
}

/// A cost is 256 times the sum of the absolute differences of the blocks plus lambda times the
/// bits of the vector: the fewer of those after the first prediction and, with one more, after
/// the second.
pub proof fn law_compute_mv_rd_cost_result<T: Pixel>(
    allow_high_precision_mv: bool,
    pmv: [MotionVector; 2],
    lambda: u32,
    blk_w: usize,
    blk_h: usize,
    cand_mv: MotionVector,
    plane_org: &PlaneRegion<'_, T>,
    plane_ref: &PlaneRegion<'_, T>,
    r: u64,
    sad: u32,
    first: u32,
    second: u32,
)
    requires
        call_ensures(
            compute_mv_rd_cost::<T>,
            (
                allow_high_precision_mv,
                pmv,
                lambda,
                blk_w,
                blk_h,
                cand_mv,
                plane_org,
                plane_ref,
            ),
            r,
        ),
        call_ensures(get_sad::<T>, (plane_org, plane_ref, blk_w, blk_h), sad),
        call_ensures(get_mv_rate, (cand_mv, pmv[0], allow_high_precision_mv), first),
        call_ensures(get_mv_rate, (cand_mv, pmv[1], allow_high_precision_mv), second),
    ensures
        r == 256 * sad + lambda * (if first <= second + 1 {
            first as int
        } else {
            second + 1
        }),
{
    law_cost_in_numbers(sad as int, cand_mv, pmv, lambda, allow_high_precision_mv);
}

/// The bounds on vectors leave a border of sixteen pixels and the size of the block around the
/// frame. A mode-info block is 32 eighths of a pixel wide and high.
pub proof fn law_get_mv_range_result(
    w_in_b: usize,
    h_in_b: usize,
    bo: BlockOffset,
    blk_w: usize,
    blk_h: usize,
    r: (isize, isize, isize, isize),
)
    requires
        call_ensures(get_mv_range, (w_in_b, h_in_b, bo, blk_w, blk_h), r),
    ensures
        32 * bo.x + r.0 == -(8 * (16 + blk_w)),
        32 * (bo.x + blk_w / 4) + r.1 == 32 * w_in_b + 8 * (16 + blk_w),
        32 * bo.y + r.2 == -(8 * (16 + blk_h)),
        32 * (bo.y + blk_h / 4) + r.3 == 32 * h_in_b + 8 * (16 + blk_h),
{
}

/// A block that fits in an area is moved to the last place, not beyond its own, at which it ends
/// within the area; columns and rows each by themselves. One that does not fit is moved to the
/// first place.
pub proof fn law_adjust_bo_result(
    bo: BlockOffset,
    mi_width: usize,
    mi_height: usize,
    blk_w: usize,
    blk_h: usize,
    r: BlockOffset,
)
    requires
        call_ensures(adjust_bo, (bo, mi_width, mi_height, blk_w, blk_h), r),
    ensures
        r.x <= bo.x && r.y <= bo.y,
        blk_w / 4 <= mi_width ==> r.x + blk_w / 4 <= mi_width,
        blk_h / 4 <= mi_height ==> r.y + blk_h / 4 <= mi_height,
        r.x < bo.x ==> r.x + blk_w / 4 >= mi_width,
        r.y < bo.y ==> r.y + blk_h / 4 >= mi_height,
        blk_w / 4 > mi_width ==> r.x == 0,
        blk_h / 4 > mi_height ==> r.y == 0,
{
}

/// The vectors to start from, all of them and in order, of any call: zero, the coarse vector in
/// whole pixels, the neighbours in the tile and their mean in whole pixels, and the neighbours in
/// the reference frame. All but the first two are left out where they are zero or missing.
pub proof fn law_get_subset_predictors_result<T: Pixel>(
    tile_bo: BlockOffset,
    cmv: MotionVector,
    tile_mvs: &TileMotionVectors<'_>,
    frame_ref_opt: Option<&ReferenceFrame<T>>,
    ref_frame_id: usize,
    r: Predictors,
)
    requires
        call_ensures(
            get_subset_predictors::<T>,
            (tile_bo, cmv, tile_mvs, frame_ref_opt, ref_frame_id),
            r,
        ),
        tile_mvs.x + tile_bo.x <= usize::MAX && tile_mvs.y + tile_bo.y <= usize::MAX,
    ensures
        ({
            let unless_zero = |there: bool, mv: MotionVector|
                if there && !(mv.row == 0 && mv.col == 0) {
                    seq![mv]
                } else {
                    seq![]
                };
            let among = |there: bool, number: int|
                if there {
                    number
                } else {
                    0
                };
            let x = tile_mvs.x + tile_bo.x;
            let y = tile_mvs.y + tile_bo.y;
            let has_left = tile_bo.x > 0;
            let has_top = tile_bo.y > 0;
            let has_corner = tile_bo.y > 0 && tile_bo.x + 1 < tile_mvs.cols;
            let left = tile_mvs.frame_mvs.at(x - 1, y);
            let top = tile_mvs.frame_mvs.at(x, y - 1);
            let corner = tile_mvs.frame_mvs.at(x + 1, y - 1);
            let n = among(has_left, 1) + among(has_top, 1) + among(has_corner, 1);
            let rows = among(has_left, left.row as int) + among(has_top, top.row as int) + among(
                has_corner,
                corner.row as int,
            );
            let cols = among(has_left, left.col as int) + among(has_top, top.col as int) + among(
                has_corner,
                corner.col as int,
            );
            let mean = MotionVector {
                row: trunc_div(rows, n) as i16,
                col: trunc_div(cols, n) as i16,
            };
            let before = match frame_ref_opt {
                Some(frame_ref) => {
                    let mvs = frame_ref.frame_mvs@[ref_frame_id as int];
                    unless_zero(x > 0, mvs.at(x - 1, y)) + unless_zero(y > 0, mvs.at(x, y - 1))
                        + unless_zero(x + 1 < mvs.cols, mvs.at(x + 1, y)) + unless_zero(
                        y + 1 < mvs.rows,
                        mvs.at(x, y + 1),
                    ) + unless_zero(true, mvs.at(x, y))
                },
                None => seq![],
            };
            r@ == seq![MotionVector { row: 0, col: 0 }, cmv.fullpel()] + unless_zero(
                has_left,
                left,
            ) + unless_zero(has_top, top) + unless_zero(has_corner, corner) + unless_zero(
                n > 0,
                mean.fullpel(),
            ) + before
        }),
{
    law_all_predictors(tile_bo, cmv, *tile_mvs, frame_ref_opt, ref_frame_id);
}

/// The vectors of a new frame are as many as it has blocks, and all zero.
pub proof fn law_new_frame_motion_vectors(
    cols: usize,
    rows: usize,
    r: FrameMotionVectors,
    x: int,
    y: int,
)
    requires
        call_ensures(FrameMotionVectors::new, (cols, rows), r),
        0 <= x < cols && 0 <= y < rows,
    ensures
        r.cols == cols && r.rows == rows,
        r.mvs@.len() == cols * rows,
        r.mvs@[y * cols + x] == (MotionVector { row: 0, col: 0 }),
{
    crate::measure_laws::law_vectors_lie_row_by_row(
        r,
        TileMotionVectors { frame_mvs: &r, x: 0, y: 0, cols, rows },
        x,
        y,
    );
    assert(r.at(x, y) == zero_mv());
}

} // verus!
