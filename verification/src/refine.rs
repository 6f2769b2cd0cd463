//! Refinement of a vector to fractions of a pixel by ever finer steps.
use crate::cost::{compute_mv_rd_cost, cost_params, sub_pixel_cost, sub_pixel_defined};
use crate::frame::{FrameInvariants, InterPredictor, TileState};
use crate::geometry::{MvRange, PlaneOffset, RefType};
use crate::laws::law_refinement_never_raises_cost;
use crate::mv::MotionVector;
use crate::num::lemma_mul_sign;
use crate::plane::{lemma_block_sad_equal, searchable, Pixel, Plane};
use crate::search::{all_defined, can_move, improve, lemma_improve_step, moved};
use vstd::prelude::*;

verus! {

/// The eight vectors around `center` at a distance of `step`, row by row.
pub open spec fn ring(center: MotionVector, step: int) -> Seq<MotionVector> {
    seq![
        moved(center, -step, -step),
        moved(center, -step, 0),
        moved(center, -step, step),
        moved(center, 0, -step),
        moved(center, 0, step),
        moved(center, step, -step),
        moved(center, step, 0),
        moved(center, step, step),
    ]
}

/// The steps of the refinement: a pixel, a half, a quarter and, with high precision,
/// an eighth.
pub open spec fn telescopic_steps(allow_high_precision_mv: bool) -> Seq<int> {
    if allow_high_precision_mv {
        seq![8int, 4, 2, 1]
    } else {
        seq![8int, 4, 2]
    }
}

/// The outcome of a refinement: at each step, the cheapest of the best vector so far
/// and the ring around it.
pub open spec fn telescopic_search(
    best: (MotionVector, u64),
    steps: Seq<int>,
    cost: spec_fn(MotionVector) -> u64,
) -> (MotionVector, u64)
    decreases steps.len(),
{
    if steps.len() == 0 {
        best
    } else {
        telescopic_search(
            improve(best, ring(best.0, steps[0]), cost),
            steps.skip(1),
            cost,
        )
    }
}

/// Whether the refinement stays where vectors fit in 16 bits and costs are defined.
pub open spec fn telescopic_search_defined(
    best: (MotionVector, u64),
    steps: Seq<int>,
    cost: spec_fn(MotionVector) -> u64,
    defined: spec_fn(MotionVector) -> bool,
) -> bool
    decreases steps.len(),
{
    steps.len() > 0 ==> {
        &&& can_move(best.0, steps[0])
        &&& all_defined(ring(best.0, steps[0]), defined)
        &&& telescopic_search_defined(
            improve(best, ring(best.0, steps[0]), cost),
            steps.skip(1),
            cost,
            defined,
        )
    }
}

/// Refines `best_mv`, of cost `lowest_cost`, to fractions of a pixel.
pub fn telescopic_subpel_search<T: Pixel, I: InterPredictor<T>>(
    fi: &FrameInvariants<T, I>,
    ts: &TileState<'_, T>,
    po: PlaneOffset,
    lambda: u32,
    ref_frame: RefType,
    pmv: [MotionVector; 2],
    mvx_min: isize,
    mvx_max: isize,
    mvy_min: isize,
    mvy_max: isize,
    blk_w: usize,
    blk_h: usize,
    best_mv: &mut MotionVector,
    lowest_cost: &mut u64,
)
    requires
        searchable(blk_w, blk_h),
        ({
            let params = cost_params(
                fi.allow_high_precision_mv,
                pmv,
                lambda,
                MvRange { x_min: mvx_min, x_max: mvx_max, y_min: mvy_min, y_max: mvy_max },
                blk_w,
                blk_h,
            );
            telescopic_search_defined(
                (*old(best_mv), *old(lowest_cost)),
                telescopic_steps(fi.allow_high_precision_mv),
                sub_pixel_cost(params, *ts.input, fi.predictor, ref_frame, po),
                sub_pixel_defined(params, *ts.input, fi.predictor, ref_frame, po),
            )
        }),
    ensures
        (*final(best_mv), *final(lowest_cost)) == telescopic_search(
            (*old(best_mv), *old(lowest_cost)),
            telescopic_steps(fi.allow_high_precision_mv),
            sub_pixel_cost(
                cost_params(
                    fi.allow_high_precision_mv,
                    pmv,
                    lambda,
                    MvRange { x_min: mvx_min, x_max: mvx_max, y_min: mvy_min, y_max: mvy_max },
                    blk_w,
                    blk_h,
                ),
                *ts.input,
                fi.predictor,
                ref_frame,
                po,
            ),
        ),
        *final(lowest_cost) <= *old(lowest_cost),
{
    let ghost params = cost_params(
        fi.allow_high_precision_mv,
        pmv,
        lambda,
        MvRange { x_min: mvx_min, x_max: mvx_max, y_min: mvy_min, y_max: mvy_max },
        blk_w,
        blk_h,
    );
    let ghost cost = sub_pixel_cost(params, *ts.input, fi.predictor, ref_frame, po);
    let ghost defined = sub_pixel_defined(params, *ts.input, fi.predictor, ref_frame, po);
    let ghost all_steps = telescopic_steps(fi.allow_high_precision_mv);
    let ghost outcome = telescopic_search((*best_mv, *lowest_cost), all_steps, cost);
    let mut steps: Vec<i16> = vec![8, 4, 2];
    if fi.allow_high_precision_mv {
        steps.push(1);
    }
    let mut tmp_plane: Plane<T> = Plane::new(blk_w, blk_h);
    assert(all_steps.skip(0) =~= all_steps);
    let mut s: usize = 0;
    while s < steps.len()
        invariant
            s <= steps@.len(),
            steps@.len() == all_steps.len(),
            forall|k: int| 0 <= k < all_steps.len() ==> #[trigger] steps@[k] == all_steps[k],
            forall|k: int| 0 <= k < all_steps.len() ==> 1 <= #[trigger] steps@[k] <= 8,
            params == cost_params(
                fi.allow_high_precision_mv,
                pmv,
                lambda,
                MvRange { x_min: mvx_min, x_max: mvx_max, y_min: mvy_min, y_max: mvy_max },
                blk_w,
                blk_h,
            ),
            cost == sub_pixel_cost(params, *ts.input, fi.predictor, ref_frame, po),
            defined == sub_pixel_defined(params, *ts.input, fi.predictor, ref_frame, po),
            searchable(blk_w, blk_h),
            tmp_plane.holds_block(0, 0, blk_w as int, blk_h as int),
            telescopic_search_defined(
                (*best_mv, *lowest_cost),
                all_steps.skip(s as int),
                cost,
                defined,
            ),
            outcome == telescopic_search(
                (*best_mv, *lowest_cost),
                all_steps.skip(s as int),
                cost,
            ),
        decreases steps@.len() - s,
    {
        let step: i16 = steps[s];
        let center_mv_h: MotionVector = *best_mv;
        let ghost start = (*best_mv, *lowest_cost);
        let ghost candidates = ring(center_mv_h, step as int);
        let ghost mut count: int = 0;
        proof {
            assert(all_steps.skip(s as int)[0] == step);
            assert(candidates.take(0) =~= seq![]);
        }
        let mut i: i16 = 0;
        while i < 3
            invariant
                0 <= i <= 3,
                count == (if 3 * i <= 4 {
                    3 * i
                } else {
                    3 * i - 1
                }),
                1 <= step <= 8,
                can_move(center_mv_h, step as int),
                candidates == ring(center_mv_h, step as int),
                all_defined(candidates, defined),
                params == cost_params(
                    fi.allow_high_precision_mv,
                    pmv,
                    lambda,
                    MvRange { x_min: mvx_min, x_max: mvx_max, y_min: mvy_min, y_max: mvy_max },
                    blk_w,
                    blk_h,
                ),
                cost == sub_pixel_cost(params, *ts.input, fi.predictor, ref_frame, po),
                defined == sub_pixel_defined(params, *ts.input, fi.predictor, ref_frame, po),
                searchable(blk_w, blk_h),
                tmp_plane.holds_block(0, 0, blk_w as int, blk_h as int),
                (*best_mv, *lowest_cost) == improve(start, candidates.take(count), cost),
            decreases 3 - i,
        {
            let mut j: i16 = 0;
            while j < 3
                invariant
                    0 <= i < 3,
                    0 <= j <= 3,
                    count == (if 3 * i + j <= 4 {
                        3 * i + j
                    } else {
                        3 * i + j - 1
                    }),
                    1 <= step <= 8,
                    can_move(center_mv_h, step as int),
                    candidates == ring(center_mv_h, step as int),
                    all_defined(candidates, defined),
                    params == cost_params(
                        fi.allow_high_precision_mv,
                        pmv,
                        lambda,
                        MvRange { x_min: mvx_min, x_max: mvx_max, y_min: mvy_min, y_max: mvy_max },
                        blk_w,
                        blk_h,
                    ),
                    cost == sub_pixel_cost(params, *ts.input, fi.predictor, ref_frame, po),
                    defined == sub_pixel_defined(params, *ts.input, fi.predictor, ref_frame, po),
                    searchable(blk_w, blk_h),
                    tmp_plane.holds_block(0, 0, blk_w as int, blk_h as int),
                    (*best_mv, *lowest_cost) == improve(start, candidates.take(count), cost),
                decreases 3 - j,
            {
                // Skip the center point that was already tested
                if i == 1 && j == 1 {
                    j = j + 1;
                    continue;
                }
                proof {
                    lemma_mul_sign(step as int, i - 1);
                    lemma_mul_sign(step as int, j - 1);
                }
                let cand_mv = MotionVector {
                    row: center_mv_h.row + step * (i - 1),
                    col: center_mv_h.col + step * (j - 1),
                };
                proof {
                    assert(cand_mv == candidates[count]);
                    lemma_improve_step(start, candidates, count, cost);
                    count = count + 1;
                }
                j = j + 1;
                if (cand_mv.col as isize) < mvx_min || (cand_mv.col as isize) > mvx_max {
                    continue;
                }
                if (cand_mv.row as isize) < mvy_min || (cand_mv.row as isize) > mvy_max {
                    continue;
                }
                fi.predictor.predict_inter(
                    ref_frame,
                    po,
                    blk_w,
                    blk_h,
                    cand_mv,
                    &mut tmp_plane,
                );
                let plane_org = ts.input.region(po.x, po.y);
                let plane_ref = tmp_plane.region(0, 0);
                proof {
                    lemma_block_sad_equal(
                        plane_org.pixels(),
                        plane_ref.pixels(),
                        fi.predictor.predicted(ref_frame, po, blk_w, blk_h, cand_mv),
                        blk_w as nat,
                        blk_h as nat,
                    );
                }
                let cost_here: u64 = compute_mv_rd_cost(
                    fi.allow_high_precision_mv,
                    pmv,
                    lambda,
                    blk_w,
                    blk_h,
                    cand_mv,
                    &plane_org,
                    &plane_ref,
                );
                if cost_here < *lowest_cost {
                    *lowest_cost = cost_here;
                    *best_mv = cand_mv;
                }
            }
            i = i + 1;
        }
        proof {
            assert(candidates.take(8) =~= candidates);
            assert(all_steps.skip(s as int).skip(1) =~= all_steps.skip(s + 1));
        }
        s = s + 1;
    }
    proof {
        assert(all_steps.skip(s as int) =~= seq![]);
        law_refinement_never_raises_cost((*old(best_mv), *old(lowest_cost)), all_steps, cost);
    }
}

} // verus!
