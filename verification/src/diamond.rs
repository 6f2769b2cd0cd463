//! Motion estimation by diamond search in all stages.
use crate::cost::{cost_params, mv_cost, mv_cost_defined};
use crate::frame::{
    FrameInvariants, InterPredictor, ReferenceFrame, TileMotionVectors, TileState,
};
use crate::geometry::{BlockOffset, MvRange, RefType};
use crate::me::{
    from_last, lemma_from_last_step, position_defined, MotionEstimation, MotionSearch,
};
use crate::mv::MotionVector;
use crate::num::half_isize;
use crate::plane::{searchable, Pixel};
use crate::predictors::{
    get_subset_predictors, halved_mvs, subset_predictors, subset_predictors_defined,
};
use crate::search::{diamond_me_search, diamond_search, diamond_search_defined};
use vstd::prelude::*;

verus! {

/// Search by shrinking diamonds, from the vectors of the neighbours.
pub struct DiamondSearch {}

impl DiamondSearch {
    /// The cost of a vector for a block of the luma plane.
    pub open spec fn cost<T: Pixel, I: InterPredictor<T>>(
        subpixel: bool,
        fi: FrameInvariants<T, I>,
        ts: TileState<'_, T>,
        rec: ReferenceFrame<T>,
        tile_bo: BlockOffset,
        lambda: u32,
        pmv: [MotionVector; 2],
        range: MvRange,
        blk_w: usize,
        blk_h: usize,
        ref_frame: RefType,
    ) -> spec_fn(MotionVector) -> u64 {
        mv_cost(
            subpixel,
            cost_params(fi.allow_high_precision_mv, pmv, lambda, range, blk_w, blk_h),
            *ts.input,
            rec.frame,
            fi.predictor,
            ref_frame,
            ts.frame_bo(tile_bo).pixel_offset(4),
        )
    }

    /// Whether that cost is defined.
    pub open spec fn cost_defined<T: Pixel, I: InterPredictor<T>>(
        subpixel: bool,
        fi: FrameInvariants<T, I>,
        ts: TileState<'_, T>,
        rec: ReferenceFrame<T>,
        tile_bo: BlockOffset,
        lambda: u32,
        pmv: [MotionVector; 2],
        range: MvRange,
        blk_w: usize,
        blk_h: usize,
        ref_frame: RefType,
    ) -> spec_fn(MotionVector) -> bool {
        mv_cost_defined(
            subpixel,
            cost_params(fi.allow_high_precision_mv, pmv, lambda, range, blk_w, blk_h),
            *ts.input,
            rec.frame,
            fi.predictor,
            ref_frame,
            ts.frame_bo(tile_bo).pixel_offset(4),
        )
    }

    /// The vectors from which a search over whole pixels starts.
    pub open spec fn starts<T: Pixel, I: InterPredictor<T>>(
        fi: FrameInvariants<T, I>,
        ts: TileState<'_, T>,
        tile_bo: BlockOffset,
        cmv: MotionVector,
        ref_frame: RefType,
    ) -> Seq<MotionVector> {
        subset_predictors(
            tile_bo,
            cmv,
            ts.mvs@[ref_frame.ref_index()],
            fi.reference(RefType::LAST_FRAME),
            ref_frame.ref_index() as usize,
        )
    }

    /// The cost of a vector for a block of the plane at half resolution.
    pub open spec fn half_cost<T: Pixel, I: InterPredictor<T>>(
        fi: FrameInvariants<T, I>,
        ts: TileState<'_, T>,
        rec: ReferenceFrame<T>,
        tile_bo: BlockOffset,
        lambda: u32,
        pmv: [MotionVector; 2],
        range: MvRange,
        blk_w: usize,
        blk_h: usize,
    ) -> spec_fn(MotionVector) -> u64 {
        mv_cost(
            false,
            cost_params(
                fi.allow_high_precision_mv,
                pmv,
                lambda,
                range.halved(),
                blk_w / 2,
                blk_h / 2,
            ),
            *ts.input_hres,
            rec.input_hres,
            fi.predictor,
            RefType::LAST_FRAME,
            ts.frame_bo(tile_bo).pixel_offset(2),
        )
    }

    /// Whether that cost is defined.
    pub open spec fn half_cost_defined<T: Pixel, I: InterPredictor<T>>(
        fi: FrameInvariants<T, I>,
        ts: TileState<'_, T>,
        rec: ReferenceFrame<T>,
        tile_bo: BlockOffset,
        lambda: u32,
        pmv: [MotionVector; 2],
        range: MvRange,
        blk_w: usize,
        blk_h: usize,
    ) -> spec_fn(MotionVector) -> bool {
        mv_cost_defined(
            false,
            cost_params(
                fi.allow_high_precision_mv,
                pmv,
                lambda,
                range.halved(),
                blk_w / 2,
                blk_h / 2,
            ),
            *ts.input_hres,
            rec.input_hres,
            fi.predictor,
            RefType::LAST_FRAME,
            ts.frame_bo(tile_bo).pixel_offset(2),
        )
    }

    /// The vectors from which a search at half resolution starts, a vector `pmv` being
    /// known at full resolution.
    pub open spec fn half_starts<T: Pixel>(
        tile_bo: BlockOffset,
        pmv: MotionVector,
        tile_mvs: TileMotionVectors<'_>,
        frame_ref_opt: Option<&ReferenceFrame<T>>,
    ) -> Seq<MotionVector> {
        halved_mvs(subset_predictors(tile_bo, pmv, tile_mvs, frame_ref_opt, 0))
    }
}

impl<T: Pixel, I: InterPredictor<T>> MotionSearch<T, I> for DiamondSearch {
    open spec fn full_pixel_defined(
        fi: FrameInvariants<T, I>,
        ts: TileState<'_, T>,
        rec: ReferenceFrame<T>,
        tile_bo: BlockOffset,
        lambda: u32,
        cmv: MotionVector,
        pmv: [MotionVector; 2],
        range: MvRange,
        blk_w: usize,
        blk_h: usize,
        ref_frame: RefType,
    ) -> bool {
        &&& ref_frame.is_inter()
        &&& fi.has_slot(RefType::LAST_FRAME)
        &&& ref_frame.ref_index() < ts.mvs@.len()
        &&& subset_predictors_defined(
            tile_bo,
            ts.mvs@[ref_frame.ref_index()],
            fi.reference(RefType::LAST_FRAME),
            ref_frame.ref_index() as usize,
        )
        &&& position_defined(ts, tile_bo)
        &&& searchable(blk_w, blk_h)
        &&& diamond_search_defined(
            false,
            fi.allow_high_precision_mv,
            Self::starts(fi, ts, tile_bo, cmv, ref_frame),
            Self::cost(
                false,
                fi,
                ts,
                rec,
                tile_bo,
                lambda,
                pmv,
                range,
                blk_w,
                blk_h,
                ref_frame,
            ),
            Self::cost_defined(
                false,
                fi,
                ts,
                rec,
                tile_bo,
                lambda,
                pmv,
                range,
                blk_w,
                blk_h,
                ref_frame,
            ),
        )
    }

    open spec fn full_pixel_outcome(
        start: (MotionVector, u64),
        fi: FrameInvariants<T, I>,
        ts: TileState<'_, T>,
        rec: ReferenceFrame<T>,
        tile_bo: BlockOffset,
        lambda: u32,
        cmv: MotionVector,
        pmv: [MotionVector; 2],
        range: MvRange,
        blk_w: usize,
        blk_h: usize,
        ref_frame: RefType,
    ) -> (MotionVector, u64) {
        diamond_search(
            false,
            fi.allow_high_precision_mv,
            Self::starts(fi, ts, tile_bo, cmv, ref_frame),
            Self::cost(
                false,
                fi,
                ts,
                rec,
                tile_bo,
                lambda,
                pmv,
                range,
                blk_w,
                blk_h,
                ref_frame,
            ),
        )
    }

    fn full_pixel_me(
        fi: &FrameInvariants<T, I>,
        ts: &TileState<'_, T>,
        rec: &ReferenceFrame<T>,
        tile_bo: BlockOffset,
        lambda: u32,
        cmv: MotionVector,
        pmv: [MotionVector; 2],
        mvx_min: isize,
        mvx_max: isize,
        mvy_min: isize,
        mvy_max: isize,
        blk_w: usize,
        blk_h: usize,
        best_mv: &mut MotionVector,
        lowest_cost: &mut u64,
        ref_frame: RefType,
    ) {
        let tile_mvs = &ts.mvs[ref_frame.to_index()];
        let frame_ref = fi.frame_in_slot(fi.ref_frames[0] as usize);
        let predictors = get_subset_predictors(
            tile_bo,
            cmv,
            tile_mvs,
            frame_ref,
            ref_frame.to_index(),
        );

        let frame_bo = ts.to_frame_block_offset(tile_bo);
        diamond_me_search(
            fi,
            frame_bo.to_luma_plane_offset(),
            ts.input,
            &rec.frame,
            predictors.as_slice(),
            pmv,
            lambda,
            mvx_min,
            mvx_max,
            mvy_min,
            mvy_max,
            blk_w,
            blk_h,
            best_mv,
            lowest_cost,
            false,
            ref_frame,
        );
    }

    open spec fn sub_pixel_defined(
        start: (MotionVector, u64),
        fi: FrameInvariants<T, I>,
        ts: TileState<'_, T>,
        rec: ReferenceFrame<T>,
        tile_bo: BlockOffset,
        lambda: u32,
        pmv: [MotionVector; 2],
        range: MvRange,
        blk_w: usize,
        blk_h: usize,
        ref_frame: RefType,
    ) -> bool {
        &&& position_defined(ts, tile_bo)
        &&& searchable(blk_w, blk_h)
        &&& diamond_search_defined(
            true,
            fi.allow_high_precision_mv,
            seq![start.0],
            Self::cost(
                true,
                fi,
                ts,
                rec,
                tile_bo,
                lambda,
                pmv,
                range,
                blk_w,
                blk_h,
                ref_frame,
            ),
            Self::cost_defined(
                true,
                fi,
                ts,
                rec,
                tile_bo,
                lambda,
                pmv,
                range,
                blk_w,
                blk_h,
                ref_frame,
            ),
        )
    }

    open spec fn sub_pixel_outcome(
        start: (MotionVector, u64),
        fi: FrameInvariants<T, I>,
        ts: TileState<'_, T>,
        rec: ReferenceFrame<T>,
        tile_bo: BlockOffset,
        lambda: u32,
        pmv: [MotionVector; 2],
        range: MvRange,
        blk_w: usize,
        blk_h: usize,
        ref_frame: RefType,
    ) -> (MotionVector, u64) {
        diamond_search(
            true,
            fi.allow_high_precision_mv,
            seq![start.0],
            Self::cost(
                true,
                fi,
                ts,
                rec,
                tile_bo,
                lambda,
                pmv,
                range,
                blk_w,
                blk_h,
                ref_frame,
            ),
        )
    }

    fn sub_pixel_me(
        fi: &FrameInvariants<T, I>,
        ts: &TileState<'_, T>,
        rec: &ReferenceFrame<T>,
        tile_bo: BlockOffset,
        lambda: u32,
        pmv: [MotionVector; 2],
        mvx_min: isize,
        mvx_max: isize,
        mvy_min: isize,
        mvy_max: isize,
        blk_w: usize,
        blk_h: usize,
        best_mv: &mut MotionVector,
        lowest_cost: &mut u64,
        ref_frame: RefType,
    ) {
        let predictors: Vec<MotionVector> = vec![*best_mv];
        assert(predictors@ =~= seq![*best_mv]);
        let frame_bo = ts.to_frame_block_offset(tile_bo);
        diamond_me_search(
            fi,
            frame_bo.to_luma_plane_offset(),
            ts.input,
            &rec.frame,
            predictors.as_slice(),
            pmv,
            lambda,
            mvx_min,
            mvx_max,
            mvy_min,
            mvy_max,
            blk_w,
            blk_h,
            best_mv,
            lowest_cost,
            true,
            ref_frame,
        );
    }

    open spec fn ss2_defined(
        fi: FrameInvariants<T, I>,
        ts: TileState<'_, T>,
        pmvs: [Option<MotionVector>; 3],
        tile_bo_adj: BlockOffset,
        tile_mvs: TileMotionVectors<'_>,
        frame_ref_opt: Option<&ReferenceFrame<T>>,
        rec: ReferenceFrame<T>,
        global_mv: [MotionVector; 2],
        lambda: u32,
        range: MvRange,
        blk_w: usize,
        blk_h: usize,
    ) -> bool {
        &&& position_defined(ts, tile_bo_adj)
        &&& searchable(blk_w / 2, blk_h / 2)
        &&& forall|k: int|
            0 <= k < 3 ==> (#[trigger] pmvs[k] matches Some(pmv) ==> {
                &&& subset_predictors_defined(tile_bo_adj, tile_mvs, frame_ref_opt, 0)
                &&& diamond_search_defined(
                    false,
                    fi.allow_high_precision_mv,
                    Self::half_starts(tile_bo_adj, pmv, tile_mvs, frame_ref_opt),
                    Self::half_cost(
                        fi,
                        ts,
                        rec,
                        tile_bo_adj,
                        lambda,
                        global_mv,
                        range,
                        blk_w,
                        blk_h,
                    ),
                    Self::half_cost_defined(
                        fi,
                        ts,
                        rec,
                        tile_bo_adj,
                        lambda,
                        global_mv,
                        range,
                        blk_w,
                        blk_h,
                    ),
                )
            })
    }

    open spec fn ss2_outcome(
        start: (MotionVector, u64),
        fi: FrameInvariants<T, I>,
        ts: TileState<'_, T>,
        pmvs: [Option<MotionVector>; 3],
        tile_bo_adj: BlockOffset,
        tile_mvs: TileMotionVectors<'_>,
        frame_ref_opt: Option<&ReferenceFrame<T>>,
        rec: ReferenceFrame<T>,
        global_mv: [MotionVector; 2],
        lambda: u32,
        range: MvRange,
        blk_w: usize,
        blk_h: usize,
    ) -> (MotionVector, u64) {
        from_last(
            start,
            pmvs@,
            |pmv: MotionVector|
                diamond_search(
                    false,
                    fi.allow_high_precision_mv,
                    Self::half_starts(tile_bo_adj, pmv, tile_mvs, frame_ref_opt),
                    Self::half_cost(
                        fi,
                        ts,
                        rec,
                        tile_bo_adj,
                        lambda,
                        global_mv,
                        range,
                        blk_w,
                        blk_h,
                    ),
                ),
        )
    }

    fn me_ss2(
        fi: &FrameInvariants<T, I>,
        ts: &TileState<'_, T>,
        pmvs: &[Option<MotionVector>; 3],
        tile_bo_adj: BlockOffset,
        tile_mvs: &TileMotionVectors<'_>,
        frame_ref_opt: Option<&ReferenceFrame<T>>,
        rec: &ReferenceFrame<T>,
        global_mv: [MotionVector; 2],
        lambda: u32,
        mvx_min: isize,
        mvx_max: isize,
        mvy_min: isize,
        mvy_max: isize,
        blk_w: usize,
        blk_h: usize,
        best_mv: &mut MotionVector,
        lowest_cost: &mut u64,
    ) {
        let ghost range = MvRange {
            x_min: mvx_min,
            x_max: mvx_max,
            y_min: mvy_min,
            y_max: mvy_max,
        };
        let ghost cost = Self::half_cost(
            *fi,
            *ts,
            *rec,
            tile_bo_adj,
            lambda,
            global_mv,
            range,
            blk_w,
            blk_h,
        );
        let ghost start = (*best_mv, *lowest_cost);
        let ghost outcome_of = |pmv: MotionVector|
            diamond_search(
                false,
                fi.allow_high_precision_mv,
                Self::half_starts(tile_bo_adj, pmv, *tile_mvs, frame_ref_opt),
                cost,
            );
        let frame_bo_adj = ts.to_frame_block_offset(tile_bo_adj);
        let frame_po = frame_bo_adj.to_half_plane_offset();
        assert(pmvs@.take(0) =~= seq![]);
        let mut k: usize = 0;
        while k < 3
            invariant
                k <= 3,
                range == (MvRange {
                    x_min: mvx_min,
                    x_max: mvx_max,
                    y_min: mvy_min,
                    y_max: mvy_max,
                }),
                cost == Self::half_cost(
                    *fi,
                    *ts,
                    *rec,
                    tile_bo_adj,
                    lambda,
                    global_mv,
                    range,
                    blk_w,
                    blk_h,
                ),
                outcome_of == (|pmv: MotionVector|
                    diamond_search(
                        false,
                        fi.allow_high_precision_mv,
                        Self::half_starts(tile_bo_adj, pmv, *tile_mvs, frame_ref_opt),
                        cost,
                    )),
                frame_po == ts.frame_bo(tile_bo_adj).pixel_offset(2),
                Self::ss2_defined(
                    *fi,
                    *ts,
                    *pmvs,
                    tile_bo_adj,
                    *tile_mvs,
                    frame_ref_opt,
                    *rec,
                    global_mv,
                    lambda,
                    range,
                    blk_w,
                    blk_h,
                ),
                (*best_mv, *lowest_cost) == from_last(
                    start,
                    pmvs@.take(k as int),
                    outcome_of,
                ),
            decreases 3 - k,
        {
            proof {
                lemma_from_last_step(start, pmvs@, k as int, outcome_of);
            }
            if let Some(pmv) = pmvs[k] {
                let mut predictors = get_subset_predictors(
                    tile_bo_adj,
                    pmv,
                    tile_mvs,
                    frame_ref_opt,
                    0,
                );
                predictors.halve();
                diamond_me_search(
                    fi,
                    frame_po,
                    ts.input_hres,
                    &rec.input_hres,
                    predictors.as_slice(),
                    global_mv,
                    lambda,
                    half_isize(mvx_min),
                    half_isize(mvx_max),
                    half_isize(mvy_min),
                    half_isize(mvy_max),
                    blk_w / 2,
                    blk_h / 2,
                    best_mv,
                    lowest_cost,
                    false,
                    RefType::LAST_FRAME,
                );
                assert((*best_mv, *lowest_cost) == outcome_of(pmv));
            }
            k = k + 1;
        }
        assert(pmvs@.take(3) =~= pmvs@);
    }
}

impl<T: Pixel, I: InterPredictor<T>> MotionEstimation<T, I> for DiamondSearch {

}

} // verus!
