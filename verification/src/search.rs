//! Searches for the vector of least cost among given vectors, and from the best of
//! them on by a shrinking diamond.
use crate::cost::{
    cost_params, get_mv_rd_cost, mv_cost, mv_cost_defined, scratch_fits, scratch_predicted,
};
use crate::frame::{FrameInvariants, InterPredictor};
use crate::geometry::{MvRange, PlaneOffset, RefType};
use crate::laws::law_diamond_search_stays_in_range;
use crate::mv::{zero_mv, MotionVector};
use crate::num::{fits_i16, lemma_mul_sign};
use crate::plane::{searchable, Pixel, Plane};
use vstd::prelude::*;

verus! {

/// The first of the cheapest among `best` and the candidates, with its cost.
pub open spec fn improve(
    best: (MotionVector, u64),
    candidates: Seq<MotionVector>,
    cost: spec_fn(MotionVector) -> u64,
) -> (MotionVector, u64)
    decreases candidates.len(),
{
    if candidates.len() == 0 {
        best
    } else {
        let earlier = improve(best, candidates.drop_last(), cost);
        let last = candidates.last();
        if cost(last) < earlier.1 {
            (last, cost(last))
        } else {
            earlier
        }
    }
}

/// The first of the cheapest candidates; zero at the largest cost if none is cheaper
/// than that.
pub open spec fn cheapest(
    candidates: Seq<MotionVector>,
    cost: spec_fn(MotionVector) -> u64,
) -> (MotionVector, u64) {
    improve((zero_mv(), u64::MAX), candidates, cost)
}

/// Whether the cost of each candidate is defined.
pub open spec fn all_defined(
    candidates: Seq<MotionVector>,
    defined: spec_fn(MotionVector) -> bool,
) -> bool {
    forall|k: int| 0 <= k < candidates.len() ==> defined(#[trigger] candidates[k])
}

/// What one more candidate changes.
pub proof fn lemma_improve_step(
    best: (MotionVector, u64),
    candidates: Seq<MotionVector>,
    k: int,
    cost: spec_fn(MotionVector) -> u64,
)
    requires
        0 <= k < candidates.len(),
    ensures
        improve(best, candidates.take(k + 1), cost) == {
            let earlier = improve(best, candidates.take(k), cost);
            if cost(candidates[k]) < earlier.1 {
                (candidates[k], cost(candidates[k]))
            } else {
                earlier
            }
        },
{
    assert(candidates.take(k + 1).drop_last() =~= candidates.take(k));
}

/// The last of the candidates in range, if there is one.
pub open spec fn last_in_range(
    candidates: Seq<MotionVector>,
    range: MvRange,
) -> Option<MotionVector>
    decreases candidates.len(),
{
    if candidates.len() == 0 {
        None
    } else if range.contains(candidates.last()) {
        Some(candidates.last())
    } else {
        last_in_range(candidates.drop_last(), range)
    }
}

/// What comparing the candidates leaves in a scratch plane: the prediction with the last of
/// them in range, or what was there before if none is.
pub open spec fn scratch_compared<T: Pixel, I: InterPredictor<T>>(
    before: Option<Plane<T>>,
    after: Option<Plane<T>>,
    candidates: Seq<MotionVector>,
    range: MvRange,
    predictor: I,
    ref_frame: RefType,
    po: PlaneOffset,
    blk_w: usize,
    blk_h: usize,
) -> bool {
    match last_in_range(candidates, range) {
        Some(mv) => scratch_predicted(
            before,
            after,
            predictor,
            ref_frame,
            po,
            blk_w,
            blk_h,
            mv,
        ),
        None => after == before,
    }
}

/// Finds the first of the cheapest predictors. Where none is in range, the vector is
/// zero and the cost the largest number.
pub fn get_best_predictor<T: Pixel, I: InterPredictor<T>>(
    fi: &FrameInvariants<T, I>,
    po: PlaneOffset,
    p_org: &Plane<T>,
    p_ref: &Plane<T>,
    predictors: &[MotionVector],
    pmv: [MotionVector; 2],
    lambda: u32,
    mvx_min: isize,
    mvx_max: isize,
    mvy_min: isize,
    mvy_max: isize,
    blk_w: usize,
    blk_h: usize,
    center_mv: &mut MotionVector,
    center_mv_cost: &mut u64,
    tmp_plane_opt: &mut Option<Plane<T>>,
    ref_frame: RefType,
)
    requires
        all_defined(
            predictors@,
            mv_cost_defined(
                *old(tmp_plane_opt) is Some,
                cost_params(
                    fi.allow_high_precision_mv,
                    pmv,
                    lambda,
                    MvRange { x_min: mvx_min, x_max: mvx_max, y_min: mvy_min, y_max: mvy_max },
                    blk_w,
                    blk_h,
                ),
                *p_org,
                *p_ref,
                fi.predictor,
                ref_frame,
                po,
            ),
        ),
        searchable(blk_w, blk_h),
        scratch_fits(*old(tmp_plane_opt), blk_w, blk_h),
    ensures
        (*final(center_mv), *final(center_mv_cost)) == cheapest(
            predictors@,
            mv_cost(
                *old(tmp_plane_opt) is Some,
                cost_params(
                    fi.allow_high_precision_mv,
                    pmv,
                    lambda,
                    MvRange { x_min: mvx_min, x_max: mvx_max, y_min: mvy_min, y_max: mvy_max },
                    blk_w,
                    blk_h,
                ),
                *p_org,
                *p_ref,
                fi.predictor,
                ref_frame,
                po,
            ),
        ),
        *final(tmp_plane_opt) is Some == *old(tmp_plane_opt) is Some,
        scratch_fits(*final(tmp_plane_opt), blk_w, blk_h),
        scratch_compared(
            *old(tmp_plane_opt),
            *final(tmp_plane_opt),
            predictors@,
            MvRange { x_min: mvx_min, x_max: mvx_max, y_min: mvy_min, y_max: mvy_max },
            fi.predictor,
            ref_frame,
            po,
            blk_w,
            blk_h,
        ),
{
    let ghost subpixel = *tmp_plane_opt is Some;
    let ghost params = cost_params(
        fi.allow_high_precision_mv,
        pmv,
        lambda,
        MvRange { x_min: mvx_min, x_max: mvx_max, y_min: mvy_min, y_max: mvy_max },
        blk_w,
        blk_h,
    );
    let ghost cost = mv_cost(subpixel, params, *p_org, *p_ref, fi.predictor, ref_frame, po);
    let ghost defined = mv_cost_defined(
        subpixel,
        params,
        *p_org,
        *p_ref,
        fi.predictor,
        ref_frame,
        po,
    );
    *center_mv = MotionVector::default();
    *center_mv_cost = u64::MAX;
    assert(predictors@.take(0) =~= seq![]);
    let mut k: usize = 0;
    while k < predictors.len()
        invariant
            k <= predictors@.len(),
            subpixel == (*tmp_plane_opt is Some),
            params == cost_params(
                fi.allow_high_precision_mv,
                pmv,
                lambda,
                MvRange { x_min: mvx_min, x_max: mvx_max, y_min: mvy_min, y_max: mvy_max },
                blk_w,
                blk_h,
            ),
            cost == mv_cost(subpixel, params, *p_org, *p_ref, fi.predictor, ref_frame, po),
            defined == mv_cost_defined(
                subpixel,
                params,
                *p_org,
                *p_ref,
                fi.predictor,
                ref_frame,
                po,
            ),
            all_defined(predictors@, defined),
            searchable(blk_w, blk_h),
            scratch_fits(*tmp_plane_opt, blk_w, blk_h),
            (*center_mv, *center_mv_cost) == cheapest(predictors@.take(k as int), cost),
            scratch_compared(
                *old(tmp_plane_opt),
                *tmp_plane_opt,
                predictors@.take(k as int),
                params.range,
                fi.predictor,
                ref_frame,
                po,
                blk_w,
                blk_h,
            ),
        decreases predictors@.len() - k,
    {
        let init_mv: MotionVector = predictors[k];
        let cost_here: u64 = get_mv_rd_cost(
            fi,
            po,
            p_org,
            p_ref,
            pmv,
            lambda,
            mvx_min,
            mvx_max,
            mvy_min,
            mvy_max,
            blk_w,
            blk_h,
            init_mv,
            tmp_plane_opt,
            ref_frame,
        );
        proof {
            lemma_improve_step((zero_mv(), u64::MAX), predictors@, k as int, cost);
            assert(predictors@.take(k + 1).drop_last() =~= predictors@.take(k as int));
        }
        if cost_here < *center_mv_cost {
            *center_mv = init_mv;
            *center_mv_cost = cost_here;
        }
        k = k + 1;
    }
    assert(predictors@.take(k as int) =~= predictors@);
}

/// `mv` moved by whole numbers of eighths of a pixel.
pub open spec fn moved(mv: MotionVector, rows: int, cols: int) -> MotionVector {
    MotionVector { row: (mv.row + rows) as i16, col: (mv.col + cols) as i16 }
}

/// Whether `mv` can be moved by `reach` either way in both components.
pub open spec fn can_move(mv: MotionVector, reach: int) -> bool {
    &&& fits_i16(mv.row + reach) && fits_i16(mv.row - reach)
    &&& fits_i16(mv.col + reach) && fits_i16(mv.col - reach)
}

/// Whether every vector in range can be moved by `reach` either way within 16 bits.
pub open spec fn room_in_range(range: MvRange, reach: int) -> bool {
    &&& fits_i16(range.x_min - reach) && fits_i16(range.x_max + reach)
    &&& fits_i16(range.y_min - reach) && fits_i16(range.y_max + reach)
}

/// The corners of a diamond around `center`: below, to the right, above, to the left.
pub open spec fn diamond_corners(center: MotionVector, radius: int) -> Seq<MotionVector> {
    seq![
        moved(center, radius, 0),
        moved(center, 0, radius),
        moved(center, -radius, 0),
        moved(center, 0, -radius),
    ]
}

/// Where a walk from `center`, of known cost, ends: it goes on to the cheapest corner
/// of the diamond around it as long as that is cheaper, else it halves the radius,
/// down to `radius_end`.
pub open spec fn diamond_walk(
    center: (MotionVector, u64),
    radius: nat,
    radius_end: nat,
    cost: spec_fn(MotionVector) -> u64,
) -> (MotionVector, u64)
    decreases center.1, radius,
{
    let corner = cheapest(diamond_corners(center.0, radius as int), cost);
    if corner.1 < center.1 {
        diamond_walk(corner, radius, radius_end, cost)
    } else if radius <= radius_end {
        center
    } else {
        diamond_walk(center, radius / 2, radius_end, cost)
    }
}

/// Whether the walk stays where vectors fit in 16 bits and costs are defined.
pub open spec fn diamond_walk_defined(
    center: (MotionVector, u64),
    radius: nat,
    radius_end: nat,
    cost: spec_fn(MotionVector) -> u64,
    defined: spec_fn(MotionVector) -> bool,
) -> bool
    decreases center.1, radius,
{
    let corner = cheapest(diamond_corners(center.0, radius as int), cost);
    &&& can_move(center.0, radius as int)
    &&& all_defined(diamond_corners(center.0, radius as int), defined)
    &&& if corner.1 < center.1 {
        diamond_walk_defined(corner, radius, radius_end, cost, defined)
    } else {
        radius > radius_end ==> diamond_walk_defined(
            center,
            radius / 2,
            radius_end,
            cost,
            defined,
        )
    }
}

/// The first radius of a diamond search: two pixels, or half a pixel where fractions
/// of pixels are searched.
pub open spec fn diamond_radius_start(subpixel: bool) -> nat {
    if subpixel {
        4
    } else {
        16
    }
}

/// The last radius of a diamond search: one pixel, or the precision of vectors.
pub open spec fn diamond_radius_end(subpixel: bool, allow_high_precision_mv: bool) -> nat {
    if !subpixel {
        8
    } else if allow_high_precision_mv {
        1
    } else {
        2
    }
}

/// The outcome of a diamond search: the walk from the cheapest predictor.
pub open spec fn diamond_search(
    subpixel: bool,
    allow_high_precision_mv: bool,
    predictors: Seq<MotionVector>,
    cost: spec_fn(MotionVector) -> u64,
) -> (MotionVector, u64) {
    diamond_walk(
        cheapest(predictors, cost),
        diamond_radius_start(subpixel),
        diamond_radius_end(subpixel, allow_high_precision_mv),
        cost,
    )
}

/// Whether a diamond search is defined: so are the costs of all vectors that it
/// looks at, and it finds one in range.
pub open spec fn diamond_search_defined(
    subpixel: bool,
    allow_high_precision_mv: bool,
    predictors: Seq<MotionVector>,
    cost: spec_fn(MotionVector) -> u64,
    defined: spec_fn(MotionVector) -> bool,
) -> bool {
    &&& all_defined(predictors, defined)
    &&& diamond_walk_defined(
        cheapest(predictors, cost),
        diamond_radius_start(subpixel),
        diamond_radius_end(subpixel, allow_high_precision_mv),
        cost,
        defined,
    )
    &&& diamond_search(subpixel, allow_high_precision_mv, predictors, cost).1 < u64::MAX
}

/// Searches from the cheapest predictor on, over diamonds of a shrinking radius.
pub fn diamond_me_search<T: Pixel, I: InterPredictor<T>>(
    fi: &FrameInvariants<T, I>,
    po: PlaneOffset,
    p_org: &Plane<T>,
    p_ref: &Plane<T>,
    predictors: &[MotionVector],
    pmv: [MotionVector; 2],
    lambda: u32,
    mvx_min: isize,
    mvx_max: isize,
    mvy_min: isize,
    mvy_max: isize,
    blk_w: usize,
    blk_h: usize,
    center_mv: &mut MotionVector,
    center_mv_cost: &mut u64,
    subpixel: bool,
    ref_frame: RefType,
)
    requires
        searchable(blk_w, blk_h),
        ({
            let params = cost_params(
                fi.allow_high_precision_mv,
                pmv,
                lambda,
                MvRange { x_min: mvx_min, x_max: mvx_max, y_min: mvy_min, y_max: mvy_max },
                blk_w,
                blk_h,
            );
            diamond_search_defined(
                subpixel,
                fi.allow_high_precision_mv,
                predictors@,
                mv_cost(subpixel, params, *p_org, *p_ref, fi.predictor, ref_frame, po),
                mv_cost_defined(subpixel, params, *p_org, *p_ref, fi.predictor, ref_frame, po),
            )
        }),
    ensures
        (*final(center_mv), *final(center_mv_cost)) == diamond_search(
            subpixel,
            fi.allow_high_precision_mv,
            predictors@,
            mv_cost(
                subpixel,
                cost_params(
                    fi.allow_high_precision_mv,
                    pmv,
                    lambda,
                    MvRange { x_min: mvx_min, x_max: mvx_max, y_min: mvy_min, y_max: mvy_max },
                    blk_w,
                    blk_h,
                ),
                *p_org,
                *p_ref,
                fi.predictor,
                ref_frame,
                po,
            ),
        ),
        *final(center_mv_cost) < u64::MAX,
        mvx_min <= final(center_mv).col <= mvx_max,
        mvy_min <= final(center_mv).row <= mvy_max,
{
    let ghost params = cost_params(
        fi.allow_high_precision_mv,
        pmv,
        lambda,
        MvRange { x_min: mvx_min, x_max: mvx_max, y_min: mvy_min, y_max: mvy_max },
        blk_w,
        blk_h,
    );
    let ghost cost = mv_cost(subpixel, params, *p_org, *p_ref, fi.predictor, ref_frame, po);
    let ghost defined = mv_cost_defined(
        subpixel,
        params,
        *p_org,
        *p_ref,
        fi.predictor,
        ref_frame,
        po,
    );
    let ghost outcome = diamond_search(
        subpixel,
        fi.allow_high_precision_mv,
        predictors@,
        cost,
    );
    let diamond_pattern: [(i16, i16); 4] = [(1, 0), (0, 1), (-1, 0), (0, -1)];
    let mut diamond_radius: i16 = if subpixel {
        4
    } else {
        16
    };
    let diamond_radius_end: i16 = if subpixel {
        if fi.allow_high_precision_mv {
            1
        } else {
            2
        }
    } else {
        8
    };
    let mut tmp_plane_opt: Option<Plane<T>> = if subpixel {
        Some(Plane::new(blk_w, blk_h))
    } else {
        None
    };

    get_best_predictor(
        fi,
        po,
        p_org,
        p_ref,
        predictors,
        pmv,
        lambda,
        mvx_min,
        mvx_max,
        mvy_min,
        mvy_max,
        blk_w,
        blk_h,
        center_mv,
        center_mv_cost,
        &mut tmp_plane_opt,
        ref_frame,
    );

    loop
        invariant_except_break
            diamond_walk_defined(
                (*center_mv, *center_mv_cost),
                diamond_radius as nat,
                diamond_radius_end as nat,
                cost,
                defined,
            ),
            outcome == diamond_walk(
                (*center_mv, *center_mv_cost),
                diamond_radius as nat,
                diamond_radius_end as nat,
                cost,
            ),
        invariant
            diamond_pattern@ == seq![(1i16, 0i16), (0i16, 1i16), (-1i16, 0i16), (0i16, -1i16)],
            1 <= diamond_radius_end <= 8,
            diamond_radius == diamond_radius_end || diamond_radius == 2 * diamond_radius_end
                || diamond_radius == 4 * diamond_radius_end,
            subpixel == (tmp_plane_opt is Some),
            params == cost_params(
                fi.allow_high_precision_mv,
                pmv,
                lambda,
                MvRange { x_min: mvx_min, x_max: mvx_max, y_min: mvy_min, y_max: mvy_max },
                blk_w,
                blk_h,
            ),
            cost == mv_cost(subpixel, params, *p_org, *p_ref, fi.predictor, ref_frame, po),
            defined == mv_cost_defined(
                subpixel,
                params,
                *p_org,
                *p_ref,
                fi.predictor,
                ref_frame,
                po,
            ),
            searchable(blk_w, blk_h),
            scratch_fits(tmp_plane_opt, blk_w, blk_h),
        ensures
            (*center_mv, *center_mv_cost) == outcome,
        decreases *center_mv_cost, diamond_radius,
    {
        let ghost corners = diamond_corners(*center_mv, diamond_radius as int);
        let mut best_diamond_rd_cost: u64 = u64::MAX;
        let mut best_diamond_mv: MotionVector = MotionVector::default();
        assert(corners.take(0) =~= seq![]);
        let mut k: usize = 0;
        while k < 4
            invariant
                k <= 4,
                diamond_pattern@ == seq![(1i16, 0i16), (0i16, 1i16), (-1i16, 0i16), (0i16, -1i16)],
                1 <= diamond_radius <= 32,
                corners == diamond_corners(*center_mv, diamond_radius as int),
                can_move(*center_mv, diamond_radius as int),
                all_defined(corners, defined),
                subpixel == (tmp_plane_opt is Some),
                params == cost_params(
                    fi.allow_high_precision_mv,
                    pmv,
                    lambda,
                    MvRange { x_min: mvx_min, x_max: mvx_max, y_min: mvy_min, y_max: mvy_max },
                    blk_w,
                    blk_h,
                ),
                cost == mv_cost(subpixel, params, *p_org, *p_ref, fi.predictor, ref_frame, po),
                defined == mv_cost_defined(
                    subpixel,
                    params,
                    *p_org,
                    *p_ref,
                    fi.predictor,
                    ref_frame,
                    po,
                ),
                searchable(blk_w, blk_h),
                scratch_fits(tmp_plane_opt, blk_w, blk_h),
                (best_diamond_mv, best_diamond_rd_cost) == cheapest(corners.take(k as int), cost),
            decreases 4 - k,
        {
            let p: (i16, i16) = diamond_pattern[k];
            proof {
                lemma_mul_sign(diamond_radius as int, p.0 as int);
                lemma_mul_sign(diamond_radius as int, p.1 as int);
            }
            let cand_mv = MotionVector {
                row: center_mv.row + diamond_radius * p.0,
                col: center_mv.col + diamond_radius * p.1,
            };
            assert(cand_mv == corners[k as int]);
            let rd_cost_here: u64 = get_mv_rd_cost(
                fi,
                po,
                p_org,
                p_ref,
                pmv,
                lambda,
                mvx_min,
                mvx_max,
                mvy_min,
                mvy_max,
                blk_w,
                blk_h,
                cand_mv,
                &mut tmp_plane_opt,
                ref_frame,
            );
            proof {
                lemma_improve_step((zero_mv(), u64::MAX), corners, k as int, cost);
            }
            if rd_cost_here < best_diamond_rd_cost {
                best_diamond_rd_cost = rd_cost_here;
                best_diamond_mv = cand_mv;
            }
            k = k + 1;
        }
        assert(corners.take(4) =~= corners);
        if *center_mv_cost <= best_diamond_rd_cost {
            if diamond_radius == diamond_radius_end {
                break;
            } else {
                diamond_radius = diamond_radius / 2;
            }
        } else {
            *center_mv = best_diamond_mv;
            *center_mv_cost = best_diamond_rd_cost;
        }
    }
    proof {
        law_diamond_search_stays_in_range(
            subpixel,
            params,
            *p_org,
            *p_ref,
            fi.predictor,
            ref_frame,
            po,
            predictors@,
        );
    }
}

} // verus!
