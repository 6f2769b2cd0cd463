//! The cost of a motion vector: how much the block it points to differs from the
//! block being coded, plus the bits of the vector weighed by a factor lambda.
use crate::frame::{FrameInvariants, InterPredictor};
use crate::geometry::{MvRange, PlaneOffset, RefType};
use crate::mv::{codable_diff, codable_mv, get_mv_rate, mv_rate, MotionVector};
use crate::num::{min_int, trunc_div};
use crate::plane::{
    block_sad, get_sad, lemma_block_sad_equal, searchable, Pixel, Plane, PlaneRegion,
};
use vstd::prelude::*;

verus! {

/// What the cost of a vector depends on, besides the pixels.
pub struct CostParams {
    /// The predicted vectors, from one of which the vector is coded.
    pub pmv: [MotionVector; 2],
    pub lambda: u32,
    pub allow_high_precision_mv: bool,
    /// The vectors that may be chosen at all.
    pub range: MvRange,
    pub blk_w: usize,
    pub blk_h: usize,
}

/// The parameters, put together.
pub open spec fn cost_params(
    allow_high_precision_mv: bool,
    pmv: [MotionVector; 2],
    lambda: u32,
    range: MvRange,
    blk_w: usize,
    blk_h: usize,
) -> CostParams {
    CostParams { pmv, lambda, allow_high_precision_mv, range, blk_w, blk_h }
}

/// The cost of a vector under which the blocks differ by `sad`. To use the second
/// prediction takes one bit more.
pub open spec fn rd_cost(
    sad: int,
    mv: MotionVector,
    pmv: [MotionVector; 2],
    lambda: u32,
    allow_high_precision_mv: bool,
) -> int {
    256 * sad + min_int(
        mv_rate(mv, pmv[0], allow_high_precision_mv),
        mv_rate(mv, pmv[1], allow_high_precision_mv) + 1,
    ) * lambda
}

/// Whether `mv` can be coded from either prediction.
pub open spec fn codable(
    mv: MotionVector,
    pmv: [MotionVector; 2],
    allow_high_precision_mv: bool,
) -> bool {
    codable_mv(mv, pmv[0], allow_high_precision_mv) && codable_mv(
        mv,
        pmv[1],
        allow_high_precision_mv,
    )
}

/// Whether components from `low` to `high` can be coded after the predicted component `pmv`.
pub open spec fn codable_span(
    low: int,
    high: int,
    pmv: i16,
    allow_high_precision_mv: bool,
) -> bool {
    codable_diff(low - pmv, allow_high_precision_mv) && codable_diff(
        high - pmv,
        allow_high_precision_mv,
    )
}

/// Whether all vectors in range can be coded from either prediction.
pub open spec fn codable_range(
    range: MvRange,
    pmv: [MotionVector; 2],
    allow_high_precision_mv: bool,
) -> bool {
    forall|k: int|
        0 <= k < 2 ==> {
            &&& codable_span(
                range.x_min as int,
                range.x_max as int,
                (#[trigger] pmv[k]).col,
                allow_high_precision_mv,
            )
            &&& codable_span(
                range.y_min as int,
                range.y_max as int,
                pmv[k].row,
                allow_high_precision_mv,
            )
        }
}

/// A vector in such a range can be coded.
pub proof fn lemma_codable_in_range(
    range: MvRange,
    pmv: [MotionVector; 2],
    allow_high_precision_mv: bool,
    mv: MotionVector,
)
    requires
        codable_range(range, pmv, allow_high_precision_mv),
        range.contains(mv),
    ensures
        codable(mv, pmv, allow_high_precision_mv),
{
    let first = pmv[0];
    let second = pmv[1];
}

impl CostParams {
    /// The cost of `mv` when it predicts the pixels `reference` for the pixels
    /// `original`; a vector out of range has the largest cost.
    pub open spec fn cost(
        self,
        mv: MotionVector,
        original: spec_fn(int, int) -> int,
        reference: spec_fn(int, int) -> int,
    ) -> u64 {
        if self.range.contains(mv) {
            rd_cost(
                block_sad(original, reference, self.blk_w as nat, self.blk_h as nat),
                mv,
                self.pmv,
                self.lambda,
                self.allow_high_precision_mv,
            ) as u64
        } else {
            u64::MAX
        }
    }
}

/// The position to which the whole pixels of `mv` move `po`.
pub open spec fn full_pixel_target(po: PlaneOffset, mv: MotionVector) -> (int, int) {
    (po.x + trunc_div(mv.col as int, 8), po.y + trunc_div(mv.row as int, 8))
}

/// The cost of a vector of whole pixels for the block at `po`.
pub open spec fn full_pixel_cost<T: Pixel>(
    params: CostParams,
    p_org: Plane<T>,
    p_ref: Plane<T>,
    po: PlaneOffset,
) -> spec_fn(MotionVector) -> u64 {
    |mv: MotionVector|
        {
            let target = full_pixel_target(po, mv);
            params.cost(
                mv,
                p_org.pixels_from(po.x as int, po.y as int),
                p_ref.pixels_from(target.0, target.1),
            )
        }
}

/// Whether that cost is defined: a vector in range can be coded and points to a
/// block within the reference plane.
pub open spec fn full_pixel_defined<T: Pixel>(
    params: CostParams,
    p_org: Plane<T>,
    p_ref: Plane<T>,
    po: PlaneOffset,
) -> spec_fn(MotionVector) -> bool {
    |mv: MotionVector|
        params.range.contains(mv) ==> {
            let target = full_pixel_target(po, mv);
            &&& codable(mv, params.pmv, params.allow_high_precision_mv)
            &&& p_org.holds_block(
                po.x as int,
                po.y as int,
                params.blk_w as int,
                params.blk_h as int,
            )
            &&& p_ref.holds_block(
                target.0,
                target.1,
                params.blk_w as int,
                params.blk_h as int,
            )
        }
}

/// The cost of a vector, fractions of a pixel included, for the block at `po`.
pub open spec fn sub_pixel_cost<T: Pixel, I: InterPredictor<T>>(
    params: CostParams,
    p_org: Plane<T>,
    predictor: I,
    ref_frame: RefType,
    po: PlaneOffset,
) -> spec_fn(MotionVector) -> u64 {
    |mv: MotionVector|
        params.cost(
            mv,
            p_org.pixels_from(po.x as int, po.y as int),
            predictor.predicted(ref_frame, po, params.blk_w, params.blk_h, mv),
        )
}

/// Whether that cost is defined: a vector in range can be coded and predicts the
/// block.
pub open spec fn sub_pixel_defined<T: Pixel, I: InterPredictor<T>>(
    params: CostParams,
    p_org: Plane<T>,
    predictor: I,
    ref_frame: RefType,
    po: PlaneOffset,
) -> spec_fn(MotionVector) -> bool {
    |mv: MotionVector|
        params.range.contains(mv) ==> {
            &&& codable(mv, params.pmv, params.allow_high_precision_mv)
            &&& p_org.holds_block(
                po.x as int,
                po.y as int,
                params.blk_w as int,
                params.blk_h as int,
            )
            &&& predictor.can_predict(ref_frame, po, params.blk_w, params.blk_h, mv)
        }
}

/// The cost of a vector, with or without fractions of a pixel.
pub open spec fn mv_cost<T: Pixel, I: InterPredictor<T>>(
    subpixel: bool,
    params: CostParams,
    p_org: Plane<T>,
    p_ref: Plane<T>,
    predictor: I,
    ref_frame: RefType,
    po: PlaneOffset,
) -> spec_fn(MotionVector) -> u64 {
    if subpixel {
        sub_pixel_cost(params, p_org, predictor, ref_frame, po)
    } else {
        full_pixel_cost(params, p_org, p_ref, po)
    }
}

/// Whether that cost is defined.
pub open spec fn mv_cost_defined<T: Pixel, I: InterPredictor<T>>(
    subpixel: bool,
    params: CostParams,
    p_org: Plane<T>,
    p_ref: Plane<T>,
    predictor: I,
    ref_frame: RefType,
    po: PlaneOffset,
) -> spec_fn(MotionVector) -> bool {
    if subpixel {
        sub_pixel_defined(params, p_org, predictor, ref_frame, po)
    } else {
        full_pixel_defined(params, p_org, p_ref, po)
    }
}

/// The cost of the vector `cand_mv`, which predicts the region `plane_ref` for the
/// region `plane_org`.
pub fn compute_mv_rd_cost<T: Pixel>(
    allow_high_precision_mv: bool,
    pmv: [MotionVector; 2],
    lambda: u32,
    blk_w: usize,
    blk_h: usize,
    cand_mv: MotionVector,
    plane_org: &PlaneRegion<'_, T>,
    plane_ref: &PlaneRegion<'_, T>,
) -> (r: u64)
    requires
        plane_org.holds(blk_w as int, blk_h as int),
        plane_ref.holds(blk_w as int, blk_h as int),
        searchable(blk_w, blk_h),
        codable(cand_mv, pmv, allow_high_precision_mv),
    ensures
        r == rd_cost(
            block_sad(plane_org.pixels(), plane_ref.pixels(), blk_w as nat, blk_h as nat),
            cand_mv,
            pmv,
            lambda,
            allow_high_precision_mv,
        ),
        r < u64::MAX,
{
    let sad: u32 = get_sad(plane_org, plane_ref, blk_w, blk_h);
    let rate1: u32 = get_mv_rate(cand_mv, pmv[0], allow_high_precision_mv);
    let rate2: u32 = get_mv_rate(cand_mv, pmv[1], allow_high_precision_mv);
    let rate: u32 = rate1.min(rate2 + 1);
    assert(rate as u64 * lambda as u64 <= 65 * 0xffff_ffff) by (nonlinear_arith)
        requires
            rate <= 65,
            lambda <= 0xffff_ffff,
    ;
    256 * sad as u64 + rate as u64 * lambda as u64
}

/// Whether a scratch plane, if there is one, has room for the block.
pub open spec fn scratch_fits<T: Pixel>(
    tmp_plane_opt: Option<Plane<T>>,
    blk_w: usize,
    blk_h: usize,
) -> bool {
    tmp_plane_opt matches Some(tmp_plane) ==> tmp_plane.holds_block(
        0,
        0,
        blk_w as int,
        blk_h as int,
    )
}

/// Whether the scratch plane `after`, if there is one, has the layout of `before` and holds
/// the prediction of the block at `po` with the vector `mv`.
pub open spec fn scratch_predicted<T: Pixel, I: InterPredictor<T>>(
    before: Option<Plane<T>>,
    after: Option<Plane<T>>,
    predictor: I,
    ref_frame: RefType,
    po: PlaneOffset,
    blk_w: usize,
    blk_h: usize,
    mv: MotionVector,
) -> bool {
    match (before, after) {
        (Some(old_plane), Some(new_plane)) => {
            &&& new_plane.same_layout(&old_plane)
            &&& forall|i: int, j: int|
                0 <= i < blk_w && 0 <= j < blk_h ==> #[trigger] new_plane.pixel(i, j)
                    == predictor.predicted(ref_frame, po, blk_w, blk_h, mv)(i, j)
        },
        (None, None) => true,
        _ => false,
    }
}

/// The cost of the vector `cand_mv` for the block at `po`; the largest number where
/// it is out of range. With a scratch plane, the block is predicted to it, from a
/// position between pixels if need be; without one, the vector stands for whole
/// pixels. Out of range nothing is predicted.
pub fn get_mv_rd_cost<T: Pixel, I: InterPredictor<T>>(
    fi: &FrameInvariants<T, I>,
    po: PlaneOffset,
    p_org: &Plane<T>,
    p_ref: &Plane<T>,
    pmv: [MotionVector; 2],
    lambda: u32,
    mvx_min: isize,
    mvx_max: isize,
    mvy_min: isize,
    mvy_max: isize,
    blk_w: usize,
    blk_h: usize,
    cand_mv: MotionVector,
    tmp_plane_opt: &mut Option<Plane<T>>,
    ref_frame: RefType,
) -> (r: u64)
    requires
        mv_cost_defined(
            *old(tmp_plane_opt) is Some,
            cost_params(
                fi.allow_high_precision_mv,
                pmv,
                lambda,
                MvRange { x_min: mvx_min, x_max: mvx_max, y_min: mvy_min, y_max: mvy_max },
                blk_w,
                blk_h,
            ),
            *p_org,
            *p_ref,
            fi.predictor,
            ref_frame,
            po,
        )(cand_mv),
        searchable(blk_w, blk_h),
        scratch_fits(*old(tmp_plane_opt), blk_w, blk_h),
    ensures
        r == mv_cost(
            *old(tmp_plane_opt) is Some,
            cost_params(
                fi.allow_high_precision_mv,
                pmv,
                lambda,
                MvRange { x_min: mvx_min, x_max: mvx_max, y_min: mvy_min, y_max: mvy_max },
                blk_w,
                blk_h,
            ),
            *p_org,
            *p_ref,
            fi.predictor,
            ref_frame,
            po,
        )(cand_mv),
        r < u64::MAX <==> (mvx_min <= cand_mv.col <= mvx_max && mvy_min <= cand_mv.row <= mvy_max),
        *final(tmp_plane_opt) is Some == *old(tmp_plane_opt) is Some,
        scratch_fits(*final(tmp_plane_opt), blk_w, blk_h),
        if mvx_min <= cand_mv.col <= mvx_max && mvy_min <= cand_mv.row <= mvy_max {
            scratch_predicted(
                *old(tmp_plane_opt),
                *final(tmp_plane_opt),
                fi.predictor,
                ref_frame,
                po,
                blk_w,
                blk_h,
                cand_mv,
            )
        } else {
            *final(tmp_plane_opt) == *old(tmp_plane_opt)
        },
{
    if (cand_mv.col as isize) < mvx_min || (cand_mv.col as isize) > mvx_max {
        return u64::MAX;
    }
    if (cand_mv.row as isize) < mvy_min || (cand_mv.row as isize) > mvy_max {
        return u64::MAX;
    }
    let plane_org = p_org.region(po.x, po.y);
    if let Some(tmp_plane) = tmp_plane_opt {
        fi.predictor.predict_inter(ref_frame, po, blk_w, blk_h, cand_mv, tmp_plane);
        let plane_ref = tmp_plane.region(0, 0);
        proof {
            lemma_block_sad_equal(
                plane_org.pixels(),
                plane_ref.pixels(),
                fi.predictor.predicted(ref_frame, po, blk_w, blk_h, cand_mv),
                blk_w as nat,
                blk_h as nat,
            );
        }
        compute_mv_rd_cost(
            fi.allow_high_precision_mv,
            pmv,
            lambda,
            blk_w,
            blk_h,
            cand_mv,
            &plane_org,
            &plane_ref,
        )
    } else {
        // Full pixel motion vector
        let plane_ref = p_ref.region(
            po.x + (cand_mv.col / 8) as isize,
            po.y + (cand_mv.row / 8) as isize,
        );
        compute_mv_rd_cost(
            fi.allow_high_precision_mv,
            pmv,
            lambda,
            blk_w,
            blk_h,
            cand_mv,
            &plane_org,
            &plane_ref,
        )
    }
}

} // verus!
