//! Motion estimation by trying all positions near a vector, refined by ever finer steps.
use crate::cost::{cost_params, sub_pixel_cost, sub_pixel_defined};
use crate::frame::{
    FrameInvariants, InterPredictor, ReferenceFrame, TileMotionVectors, TileState,
};
use crate::full::{full_search, FullSearchParams, Grid};
use crate::geometry::{BlockOffset, MvRange, PlaneOffset, RefType};
use crate::me::{
    from_last, lemma_from_last_step, position_defined, MotionEstimation, MotionSearch,
};
use crate::mv::{zero_mv, MotionVector};
use crate::num::{fits_isize, half_isize, max_int, min_int, trunc_div};
use crate::plane::{searchable, Pixel};
use crate::refine::{
    telescopic_search, telescopic_search_defined, telescopic_steps, telescopic_subpel_search,
};
use vstd::prelude::*;

verus! {

/// How many whole pixels from a vector the search goes in each direction.
pub const SEARCH_RANGE: isize = 16;

/// Search over all positions near a vector.
pub struct FullSearch {}

/// The whole number of pixels nearest to `pixels` within bounds that are given in
/// eighths of pixels.
pub open spec fn bounded_pixels(pixels: int, low: isize, high: isize) -> int {
    min_int(max_int(pixels, trunc_div(low as int, 8)), trunc_div(high as int, 8))
}

/// The bounds of a search in pixels: `pixels` plus `offset`, within the bounds on
/// vectors.
fn bound_pixels(component: i16, offset: isize, low: isize, high: isize) -> (r: isize)
    requires
        -16 <= offset <= 16,
    ensures
        r == bounded_pixels(trunc_div(component as int, 8) + offset, low, high),
{
    (offset + (component / 8) as isize).max(low / 8).min(high / 8)
}

impl FullSearch {
    /// The least and the greatest position of a search near `component`, both columns or
    /// both rows, for a block that starts at `start`, in a plane scaled down by `scale`.
    pub open spec fn bounds(
        start: isize,
        component: i16,
        low: isize,
        high: isize,
        scale: int,
    ) -> (int, int) {
        let pixels = trunc_div(component as int, 8);
        (
            start + bounded_pixels(pixels - SEARCH_RANGE, low, high) / scale,
            start + bounded_pixels(pixels + SEARCH_RANGE, low, high) / scale,
        )
    }

    /// The positions that are tried near `mv` for a block at `po`, in a plane scaled
    /// down by `scale`.
    pub open spec fn grid(
        po: PlaneOffset,
        mv: MotionVector,
        range: MvRange,
        scale: int,
        step: usize,
    ) -> Grid {
        let columns = Self::bounds(po.x, mv.col, range.x_min, range.x_max, scale);
        let rows = Self::bounds(po.y, mv.row, range.y_min, range.y_max, scale);
        Grid {
            x_lo: columns.0 as isize,
            x_hi: columns.1 as isize,
            y_lo: rows.0 as isize,
            y_hi: rows.1 as isize,
            step,
        }
    }

    /// Whether these positions can be represented.
    pub open spec fn grid_fits(
        po: PlaneOffset,
        mv: MotionVector,
        range: MvRange,
        scale: int,
    ) -> bool {
        let columns = Self::bounds(po.x, mv.col, range.x_min, range.x_max, scale);
        let rows = Self::bounds(po.y, mv.row, range.y_min, range.y_max, scale);
        &&& fits_isize(columns.0) && fits_isize(columns.1)
        &&& fits_isize(rows.0) && fits_isize(rows.1)
    }

    /// The search over whole pixels.
    pub open spec fn full_params<T: Pixel, I: InterPredictor<T>>(
        fi: FrameInvariants<T, I>,
        ts: TileState<'_, T>,
        rec: ReferenceFrame<T>,
        tile_bo: BlockOffset,
        lambda: u32,
        pmv: [MotionVector; 2],
        blk_w: usize,
        blk_h: usize,
    ) -> FullSearchParams<T> {
        FullSearchParams {
            p_org: *ts.input,
            p_ref: rec.frame,
            po: ts.frame_bo(tile_bo).pixel_offset(4),
            blk_w,
            blk_h,
            lambda,
            pmv,
            allow_high_precision_mv: fi.allow_high_precision_mv,
        }
    }

    /// The search at half resolution.
    pub open spec fn half_params<T: Pixel, I: InterPredictor<T>>(
        fi: FrameInvariants<T, I>,
        ts: TileState<'_, T>,
        rec: ReferenceFrame<T>,
        po: PlaneOffset,
        lambda: u32,
        blk_w: usize,
        blk_h: usize,
    ) -> FullSearchParams<T> {
        FullSearchParams {
            p_org: *ts.input_hres,
            p_ref: rec.input_hres,
            po,
            blk_w: blk_w / 2,
            blk_h: blk_h / 2,
            lambda,
            pmv: [zero_mv(), zero_mv()],
            allow_high_precision_mv: fi.allow_high_precision_mv,
        }
    }
}

impl FullSearch {
    /// Tries all positions near `pmv` at half resolution, for a block at `frame_po`.
    fn search_half<T: Pixel, I: InterPredictor<T>>(
        fi: &FrameInvariants<T, I>,
        ts: &TileState<'_, T>,
        pmv: MotionVector,
        frame_po: PlaneOffset,
        rec: &ReferenceFrame<T>,
        lambda: u32,
        mvx_min: isize,
        mvx_max: isize,
        mvy_min: isize,
        mvy_max: isize,
        blk_w: usize,
        blk_h: usize,
        best_mv: &mut MotionVector,
        lowest_cost: &mut u64,
    )
        requires
            searchable(blk_w / 2, blk_h / 2),
            Self::grid_fits(
                frame_po,
                pmv,
                MvRange { x_min: mvx_min, x_max: mvx_max, y_min: mvy_min, y_max: mvy_max },
                2,
            ),
            Self::half_params(*fi, *ts, *rec, frame_po, lambda, blk_w, blk_h).grid_defined(
                Self::grid(
                    frame_po,
                    pmv,
                    MvRange { x_min: mvx_min, x_max: mvx_max, y_min: mvy_min, y_max: mvy_max },
                    2,
                    1,
                ),
            ),
        ensures
            (*final(best_mv), *final(lowest_cost)) == Self::half_params(
                *fi,
                *ts,
                *rec,
                frame_po,
                lambda,
                blk_w,
                blk_h,
            ).outcome(
                Self::grid(
                    frame_po,
                    pmv,
                    MvRange { x_min: mvx_min, x_max: mvx_max, y_min: mvy_min, y_max: mvy_max },
                    2,
                    1,
                ),
            ),
    {
        let x_lo: isize = frame_po.x + half_isize(
            bound_pixels(pmv.col, -SEARCH_RANGE, mvx_min, mvx_max),
        );
        let x_hi: isize = frame_po.x + half_isize(
            bound_pixels(pmv.col, SEARCH_RANGE, mvx_min, mvx_max),
        );
        let y_lo: isize = frame_po.y + half_isize(
            bound_pixels(pmv.row, -SEARCH_RANGE, mvy_min, mvy_max),
        );
        let y_hi: isize = frame_po.y + half_isize(
            bound_pixels(pmv.row, SEARCH_RANGE, mvy_min, mvy_max),
        );
        let no_mvs: [MotionVector; 2] = [MotionVector::default(), MotionVector::default()];
        assert(no_mvs =~= [zero_mv(), zero_mv()]);
        full_search(
            x_lo,
            x_hi,
            y_lo,
            y_hi,
            blk_h / 2,
            blk_w / 2,
            ts.input_hres,
            &rec.input_hres,
            best_mv,
            lowest_cost,
            frame_po,
            1,
            lambda,
            no_mvs,
            fi.allow_high_precision_mv,
        );
    }
}

impl<T: Pixel, I: InterPredictor<T>> MotionSearch<T, I> for FullSearch {
    open spec fn full_pixel_defined(
        fi: FrameInvariants<T, I>,
        ts: TileState<'_, T>,
        rec: ReferenceFrame<T>,
        tile_bo: BlockOffset,
        lambda: u32,
        cmv: MotionVector,
        pmv: [MotionVector; 2],
        range: MvRange,
        blk_w: usize,
        blk_h: usize,
        ref_frame: RefType,
    ) -> bool {
        let params = Self::full_params(fi, ts, rec, tile_bo, lambda, pmv, blk_w, blk_h);
        &&& position_defined(ts, tile_bo)
        &&& searchable(blk_w, blk_h)
        &&& Self::grid_fits(params.po, cmv, range, 1)
        &&& params.grid_defined(Self::grid(params.po, cmv, range, 1, 2))
    }

    open spec fn full_pixel_outcome(
        start: (MotionVector, u64),
        fi: FrameInvariants<T, I>,
        ts: TileState<'_, T>,
        rec: ReferenceFrame<T>,
        tile_bo: BlockOffset,
        lambda: u32,
        cmv: MotionVector,
        pmv: [MotionVector; 2],
        range: MvRange,
        blk_w: usize,
        blk_h: usize,
        ref_frame: RefType,
    ) -> (MotionVector, u64) {
        let params = Self::full_params(fi, ts, rec, tile_bo, lambda, pmv, blk_w, blk_h);
        params.outcome(Self::grid(params.po, cmv, range, 1, 2))
    }

    fn full_pixel_me(
        fi: &FrameInvariants<T, I>,
        ts: &TileState<'_, T>,
        rec: &ReferenceFrame<T>,
        tile_bo: BlockOffset,
        lambda: u32,
        cmv: MotionVector,
        pmv: [MotionVector; 2],
        mvx_min: isize,
        mvx_max: isize,
        mvy_min: isize,
        mvy_max: isize,
        blk_w: usize,
        blk_h: usize,
        best_mv: &mut MotionVector,
        lowest_cost: &mut u64,
        ref_frame: RefType,
    ) {
        let frame_bo = ts.to_frame_block_offset(tile_bo);
        let frame_po = frame_bo.to_luma_plane_offset();
        let x_lo: isize = frame_po.x + bound_pixels(cmv.col, -SEARCH_RANGE, mvx_min, mvx_max);
        let x_hi: isize = frame_po.x + bound_pixels(cmv.col, SEARCH_RANGE, mvx_min, mvx_max);
        let y_lo: isize = frame_po.y + bound_pixels(cmv.row, -SEARCH_RANGE, mvy_min, mvy_max);
        let y_hi: isize = frame_po.y + bound_pixels(cmv.row, SEARCH_RANGE, mvy_min, mvy_max);
        full_search(
            x_lo,
            x_hi,
            y_lo,
            y_hi,
            blk_h,
            blk_w,
            ts.input,
            &rec.frame,
            best_mv,
            lowest_cost,
            frame_po,
            2,
            lambda,
            pmv,
            fi.allow_high_precision_mv,
        );
    }

    open spec fn sub_pixel_defined(
        start: (MotionVector, u64),
        fi: FrameInvariants<T, I>,
        ts: TileState<'_, T>,
        rec: ReferenceFrame<T>,
        tile_bo: BlockOffset,
        lambda: u32,
        pmv: [MotionVector; 2],
        range: MvRange,
        blk_w: usize,
        blk_h: usize,
        ref_frame: RefType,
    ) -> bool {
        let params = cost_params(fi.allow_high_precision_mv, pmv, lambda, range, blk_w, blk_h);
        let po = ts.frame_bo(tile_bo).pixel_offset(4);
        &&& position_defined(ts, tile_bo)
        &&& searchable(blk_w, blk_h)
        &&& telescopic_search_defined(
            start,
            telescopic_steps(fi.allow_high_precision_mv),
            sub_pixel_cost(params, *ts.input, fi.predictor, ref_frame, po),
            sub_pixel_defined(params, *ts.input, fi.predictor, ref_frame, po),
        )
    }

    open spec fn sub_pixel_outcome(
        start: (MotionVector, u64),
        fi: FrameInvariants<T, I>,
        ts: TileState<'_, T>,
        rec: ReferenceFrame<T>,
        tile_bo: BlockOffset,
        lambda: u32,
        pmv: [MotionVector; 2],
        range: MvRange,
        blk_w: usize,
        blk_h: usize,
        ref_frame: RefType,
    ) -> (MotionVector, u64) {
        telescopic_search(
            start,
            telescopic_steps(fi.allow_high_precision_mv),
            sub_pixel_cost(
                cost_params(fi.allow_high_precision_mv, pmv, lambda, range, blk_w, blk_h),
                *ts.input,
                fi.predictor,
                ref_frame,
                ts.frame_bo(tile_bo).pixel_offset(4),
            ),
        )
    }

    fn sub_pixel_me(
        fi: &FrameInvariants<T, I>,
        ts: &TileState<'_, T>,
        rec: &ReferenceFrame<T>,
        tile_bo: BlockOffset,
        lambda: u32,
        pmv: [MotionVector; 2],
        mvx_min: isize,
        mvx_max: isize,
        mvy_min: isize,
        mvy_max: isize,
        blk_w: usize,
        blk_h: usize,
        best_mv: &mut MotionVector,
        lowest_cost: &mut u64,
        ref_frame: RefType,
    ) {
        let frame_bo = ts.to_frame_block_offset(tile_bo);
        telescopic_subpel_search(
            fi,
            ts,
            frame_bo.to_luma_plane_offset(),
            lambda,
            ref_frame,
            pmv,
            mvx_min,
            mvx_max,
            mvy_min,
            mvy_max,
            blk_w,
            blk_h,
            best_mv,
            lowest_cost,
        );
    }

    open spec fn ss2_defined(
        fi: FrameInvariants<T, I>,
        ts: TileState<'_, T>,
        pmvs: [Option<MotionVector>; 3],
        tile_bo_adj: BlockOffset,
        tile_mvs: TileMotionVectors<'_>,
        frame_ref_opt: Option<&ReferenceFrame<T>>,
        rec: ReferenceFrame<T>,
        global_mv: [MotionVector; 2],
        lambda: u32,
        range: MvRange,
        blk_w: usize,
        blk_h: usize,
    ) -> bool {
        let po = ts.frame_bo(tile_bo_adj).pixel_offset(2);
        let params = Self::half_params(fi, ts, rec, po, lambda, blk_w, blk_h);
        &&& position_defined(ts, tile_bo_adj)
        &&& searchable(blk_w / 2, blk_h / 2)
        &&& forall|k: int|
            0 <= k < 3 ==> (#[trigger] pmvs[k] matches Some(pmv) ==> {
                &&& Self::grid_fits(po, pmv, range, 2)
                &&& params.grid_defined(Self::grid(po, pmv, range, 2, 1))
            })
    }

    open spec fn ss2_outcome(
        start: (MotionVector, u64),
        fi: FrameInvariants<T, I>,
        ts: TileState<'_, T>,
        pmvs: [Option<MotionVector>; 3],
        tile_bo_adj: BlockOffset,
        tile_mvs: TileMotionVectors<'_>,
        frame_ref_opt: Option<&ReferenceFrame<T>>,
        rec: ReferenceFrame<T>,
        global_mv: [MotionVector; 2],
        lambda: u32,
        range: MvRange,
        blk_w: usize,
        blk_h: usize,
    ) -> (MotionVector, u64) {
        let po = ts.frame_bo(tile_bo_adj).pixel_offset(2);
        let params = Self::half_params(fi, ts, rec, po, lambda, blk_w, blk_h);
        from_last(
            start,
            pmvs@,
            |pmv: MotionVector| params.outcome(Self::grid(po, pmv, range, 2, 1)),
        )
    }

    fn me_ss2(
        fi: &FrameInvariants<T, I>,
        ts: &TileState<'_, T>,
        pmvs: &[Option<MotionVector>; 3],
        tile_bo_adj: BlockOffset,
        tile_mvs: &TileMotionVectors<'_>,
        frame_ref_opt: Option<&ReferenceFrame<T>>,
        rec: &ReferenceFrame<T>,
        global_mv: [MotionVector; 2],
        lambda: u32,
        mvx_min: isize,
        mvx_max: isize,
        mvy_min: isize,
        mvy_max: isize,
        blk_w: usize,
        blk_h: usize,
        best_mv: &mut MotionVector,
        lowest_cost: &mut u64,
    ) {
        let ghost range = MvRange {
            x_min: mvx_min,
            x_max: mvx_max,
            y_min: mvy_min,
            y_max: mvy_max,
        };
        let ghost start = (*best_mv, *lowest_cost);
        let frame_bo_adj = ts.to_frame_block_offset(tile_bo_adj);
        let frame_po = frame_bo_adj.to_half_plane_offset();
        let ghost params = Self::half_params(*fi, *ts, *rec, frame_po, lambda, blk_w, blk_h);
        let ghost outcome_of = |pmv: MotionVector|
            params.outcome(Self::grid(frame_po, pmv, range, 2, 1));
        assert(pmvs@.take(0) =~= seq![]);
        let mut k: usize = 0;
        while k < 3
            invariant
                k <= 3,
                range == (MvRange {
                    x_min: mvx_min,
                    x_max: mvx_max,
                    y_min: mvy_min,
                    y_max: mvy_max,
                }),
                params == Self::half_params(*fi, *ts, *rec, frame_po, lambda, blk_w, blk_h),
                outcome_of == (|pmv: MotionVector|
                    params.outcome(Self::grid(frame_po, pmv, range, 2, 1))),
                frame_po == ts.frame_bo(tile_bo_adj).pixel_offset(2),
                Self::ss2_defined(
                    *fi,
                    *ts,
                    *pmvs,
                    tile_bo_adj,
                    *tile_mvs,
                    frame_ref_opt,
                    *rec,
                    global_mv,
                    lambda,
                    range,
                    blk_w,
                    blk_h,
                ),
                (*best_mv, *lowest_cost) == from_last(
                    start,
                    pmvs@.take(k as int),
                    outcome_of,
                ),
            decreases 3 - k,
        {
            proof {
                lemma_from_last_step(start, pmvs@, k as int, outcome_of);
            }
            if let Some(pmv) = pmvs[k] {
                Self::search_half(
                    fi,
                    ts,
                    pmv,
                    frame_po,
                    rec,
                    lambda,
                    mvx_min,
                    mvx_max,
                    mvy_min,
                    mvy_max,
                    blk_w,
                    blk_h,
                    best_mv,
                    lowest_cost,
                );
                assert((*best_mv, *lowest_cost) == outcome_of(pmv));
            }
            k = k + 1;
        }
        assert(pmvs@.take(3) =~= pmvs@);
    }
}

impl<T: Pixel, I: InterPredictor<T>> MotionEstimation<T, I> for FullSearch {

}

} // verus!
