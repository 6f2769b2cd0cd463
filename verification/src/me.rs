//! Motion estimation of a block: coarse searches in scaled planes, a search over whole
//! pixels, and one over fractions of pixels.
use crate::frame::{
    scale_lambda, scaled_lambda, FrameInvariants, InterPredictor, ReferenceFrame,
    TileMotionVectors, TileState,
};
use crate::geometry::{
    adjust_bo, adjusted_bo, get_mv_range, mv_range_defined, mv_range_of, BlockOffset, BlockSize,
    MvRange, RefType,
};
use crate::mv::{zero_mv, MotionVector};
use crate::num::fits_i16;
use crate::plane::Pixel;
use vstd::prelude::*;

verus! {

/// Whether the position of a block of a tile is defined, in the frame and in pixels.
pub open spec fn position_defined<T: Pixel>(ts: TileState<'_, T>, tile_bo: BlockOffset) -> bool {
    ts.has_frame_bo(tile_bo) && ts.frame_bo(tile_bo).in_pixel_range()
}

/// The three searches of which motion estimation is made up: one at half resolution, one
/// over whole pixels and one over fractions of pixels. Each comes with the inputs on which it
/// is defined and the vector and cost that it finds.
pub trait MotionSearch<T: Pixel, I: InterPredictor<T>>: Sized {
    /// Whether a search over whole pixels is defined.
    spec fn full_pixel_defined(
        fi: FrameInvariants<T, I>,
        ts: TileState<'_, T>,
        rec: ReferenceFrame<T>,
        tile_bo: BlockOffset,
        lambda: u32,
        cmv: MotionVector,
        pmv: [MotionVector; 2],
        range: MvRange,
        blk_w: usize,
        blk_h: usize,
        ref_frame: RefType,
    ) -> bool;

    /// The vector and the cost that a search over whole pixels finds, `start` being
    /// those before it.
    spec fn full_pixel_outcome(
        start: (MotionVector, u64),
        fi: FrameInvariants<T, I>,
        ts: TileState<'_, T>,
        rec: ReferenceFrame<T>,
        tile_bo: BlockOffset,
        lambda: u32,
        cmv: MotionVector,
        pmv: [MotionVector; 2],
        range: MvRange,
        blk_w: usize,
        blk_h: usize,
        ref_frame: RefType,
    ) -> (MotionVector, u64);

    /// Searches over whole pixels.
    fn full_pixel_me(
        fi: &FrameInvariants<T, I>,
        ts: &TileState<'_, T>,
        rec: &ReferenceFrame<T>,
        tile_bo: BlockOffset,
        lambda: u32,
        cmv: MotionVector,
        pmv: [MotionVector; 2],
        mvx_min: isize,
        mvx_max: isize,
        mvy_min: isize,
        mvy_max: isize,
        blk_w: usize,
        blk_h: usize,
        best_mv: &mut MotionVector,
        lowest_cost: &mut u64,
        ref_frame: RefType,
    )
        requires
            Self::full_pixel_defined(
                *fi,
                *ts,
                *rec,
                tile_bo,
                lambda,
                cmv,
                pmv,
                MvRange { x_min: mvx_min, x_max: mvx_max, y_min: mvy_min, y_max: mvy_max },
                blk_w,
                blk_h,
                ref_frame,
            ),
        ensures
            (*final(best_mv), *final(lowest_cost)) == Self::full_pixel_outcome(
                (*old(best_mv), *old(lowest_cost)),
                *fi,
                *ts,
                *rec,
                tile_bo,
                lambda,
                cmv,
                pmv,
                MvRange { x_min: mvx_min, x_max: mvx_max, y_min: mvy_min, y_max: mvy_max },
                blk_w,
                blk_h,
                ref_frame,
            ),
    ;

    /// Whether a search over fractions of pixels is defined, from `start` on.
    spec fn sub_pixel_defined(
        start: (MotionVector, u64),
        fi: FrameInvariants<T, I>,
        ts: TileState<'_, T>,
        rec: ReferenceFrame<T>,
        tile_bo: BlockOffset,
        lambda: u32,
        pmv: [MotionVector; 2],
        range: MvRange,
        blk_w: usize,
        blk_h: usize,
        ref_frame: RefType,
    ) -> bool;

    /// The vector and the cost that a search over fractions of pixels finds, from
    /// `start` on.
    spec fn sub_pixel_outcome(
        start: (MotionVector, u64),
        fi: FrameInvariants<T, I>,
        ts: TileState<'_, T>,
        rec: ReferenceFrame<T>,
        tile_bo: BlockOffset,
        lambda: u32,
        pmv: [MotionVector; 2],
        range: MvRange,
        blk_w: usize,
        blk_h: usize,
        ref_frame: RefType,
    ) -> (MotionVector, u64);

    /// Searches over fractions of pixels, from `best_mv` on.
    fn sub_pixel_me(
        fi: &FrameInvariants<T, I>,
        ts: &TileState<'_, T>,
        rec: &ReferenceFrame<T>,
        tile_bo: BlockOffset,
        lambda: u32,
        pmv: [MotionVector; 2],
        mvx_min: isize,
        mvx_max: isize,
        mvy_min: isize,
        mvy_max: isize,
        blk_w: usize,
        blk_h: usize,
        best_mv: &mut MotionVector,
        lowest_cost: &mut u64,
        ref_frame: RefType,
    )
        requires
            Self::sub_pixel_defined(
                (*old(best_mv), *old(lowest_cost)),
                *fi,
                *ts,
                *rec,
                tile_bo,
                lambda,
                pmv,
                MvRange { x_min: mvx_min, x_max: mvx_max, y_min: mvy_min, y_max: mvy_max },
                blk_w,
                blk_h,
                ref_frame,
            ),
        ensures
            (*final(best_mv), *final(lowest_cost)) == Self::sub_pixel_outcome(
                (*old(best_mv), *old(lowest_cost)),
                *fi,
                *ts,
                *rec,
                tile_bo,
                lambda,
                pmv,
                MvRange { x_min: mvx_min, x_max: mvx_max, y_min: mvy_min, y_max: mvy_max },
                blk_w,
                blk_h,
                ref_frame,
            ),
    ;

    /// Whether a search at half resolution is defined.
    spec fn ss2_defined(
        fi: FrameInvariants<T, I>,
        ts: TileState<'_, T>,
        pmvs: [Option<MotionVector>; 3],
        tile_bo_adj: BlockOffset,
        tile_mvs: TileMotionVectors<'_>,
        frame_ref_opt: Option<&ReferenceFrame<T>>,
        rec: ReferenceFrame<T>,
        global_mv: [MotionVector; 2],
        lambda: u32,
        range: MvRange,
        blk_w: usize,
        blk_h: usize,
    ) -> bool;

    /// The vector and the cost that a search at half resolution finds, `start` being
    /// those before it.
    spec fn ss2_outcome(
        start: (MotionVector, u64),
        fi: FrameInvariants<T, I>,
        ts: TileState<'_, T>,
        pmvs: [Option<MotionVector>; 3],
        tile_bo_adj: BlockOffset,
        tile_mvs: TileMotionVectors<'_>,
        frame_ref_opt: Option<&ReferenceFrame<T>>,
        rec: ReferenceFrame<T>,
        global_mv: [MotionVector; 2],
        lambda: u32,
        range: MvRange,
        blk_w: usize,
        blk_h: usize,
    ) -> (MotionVector, u64);

    /// Searches in the planes of half the width and height, from each of the vectors
    /// `pmvs` that is there.
    fn me_ss2(
        fi: &FrameInvariants<T, I>,
        ts: &TileState<'_, T>,
        pmvs: &[Option<MotionVector>; 3],
        tile_bo_adj: BlockOffset,
        tile_mvs: &TileMotionVectors<'_>,
        frame_ref_opt: Option<&ReferenceFrame<T>>,
        rec: &ReferenceFrame<T>,
        global_mv: [MotionVector; 2],
        lambda: u32,
        mvx_min: isize,
        mvx_max: isize,
        mvy_min: isize,
        mvy_max: isize,
        blk_w: usize,
        blk_h: usize,
        best_mv: &mut MotionVector,
        lowest_cost: &mut u64,
    )
        requires
            Self::ss2_defined(
                *fi,
                *ts,
                *pmvs,
                tile_bo_adj,
                *tile_mvs,
                frame_ref_opt,
                *rec,
                global_mv,
                lambda,
                MvRange { x_min: mvx_min, x_max: mvx_max, y_min: mvy_min, y_max: mvy_max },
                blk_w,
                blk_h,
            ),
        ensures
            (*final(best_mv), *final(lowest_cost)) == Self::ss2_outcome(
                (*old(best_mv), *old(lowest_cost)),
                *fi,
                *ts,
                *pmvs,
                tile_bo_adj,
                *tile_mvs,
                frame_ref_opt,
                *rec,
                global_mv,
                lambda,
                MvRange { x_min: mvx_min, x_max: mvx_max, y_min: mvy_min, y_max: mvy_max },
                blk_w,
                blk_h,
            ),
    ;
}

/// A way to find the motion vector of a block: the searches, and what they are called with.
pub trait MotionEstimation<T: Pixel, I: InterPredictor<T>>: MotionSearch<T, I> {
    /// Finds the motion vector of a block from a coarse one, `cmv`: over whole pixels
    /// first, over fractions of pixels then. Without a reference frame it is zero.
    fn motion_estimation(
        fi: &FrameInvariants<T, I>,
        ts: &TileState<'_, T>,
        bsize: BlockSize,
        tile_bo: BlockOffset,
        ref_frame: RefType,
        cmv: MotionVector,
        pmv: [MotionVector; 2],
    ) -> (r: MotionVector)
        requires
            ref_frame.is_inter(),
            fi.has_slot(ref_frame),
            fi.reference(ref_frame) matches Some(rec) ==> {
                let (blk_w, blk_h) = bsize.dimensions();
                let range = block_range(*fi, *ts, tile_bo, bsize);
                let lambda = scaled_lambda(fi.me_lambda, 1);
                let full = Self::full_pixel_outcome(
                    (zero_mv(), u64::MAX),
                    *fi,
                    *ts,
                    *rec,
                    tile_bo,
                    lambda,
                    cmv,
                    pmv,
                    range,
                    blk_w,
                    blk_h,
                    ref_frame,
                );
                &&& block_range_defined(*fi, *ts, tile_bo, bsize)
                &&& Self::full_pixel_defined(
                    *fi,
                    *ts,
                    *rec,
                    tile_bo,
                    lambda,
                    cmv,
                    pmv,
                    range,
                    blk_w,
                    blk_h,
                    ref_frame,
                )
                &&& Self::sub_pixel_defined(
                    full,
                    *fi,
                    *ts,
                    *rec,
                    tile_bo,
                    lambda,
                    pmv,
                    range,
                    blk_w,
                    blk_h,
                    ref_frame,
                )
            },
        ensures
            match fi.reference(ref_frame) {
                Some(rec) => {
                    let (blk_w, blk_h) = bsize.dimensions();
                    let range = block_range(*fi, *ts, tile_bo, bsize);
                    let lambda = scaled_lambda(fi.me_lambda, 1);
                    let full = Self::full_pixel_outcome(
                        (zero_mv(), u64::MAX),
                        *fi,
                        *ts,
                        *rec,
                        tile_bo,
                        lambda,
                        cmv,
                        pmv,
                        range,
                        blk_w,
                        blk_h,
                        ref_frame,
                    );
                    r == Self::sub_pixel_outcome(
                        full,
                        *fi,
                        *ts,
                        *rec,
                        tile_bo,
                        lambda,
                        pmv,
                        range,
                        blk_w,
                        blk_h,
                        ref_frame,
                    ).0
                },
                None => r == zero_mv(),
            },
    {
        match fi.frame_of(ref_frame) {
            Some(rec) => {
                let blk_w: usize = bsize.width();
                let blk_h: usize = bsize.height();
                let frame_bo = ts.to_frame_block_offset(tile_bo);
                let (mvx_min, mvx_max, mvy_min, mvy_max) = get_mv_range(
                    fi.w_in_b,
                    fi.h_in_b,
                    frame_bo,
                    blk_w,
                    blk_h,
                );

                let lambda: u32 = scale_lambda(fi.me_lambda, 1);

                // Full-pixel motion estimation
                let mut lowest_cost: u64 = u64::MAX;
                let mut best_mv: MotionVector = MotionVector::default();
                Self::full_pixel_me(
                    fi,
                    ts,
                    rec,
                    tile_bo,
                    lambda,
                    cmv,
                    pmv,
                    mvx_min,
                    mvx_max,
                    mvy_min,
                    mvy_max,
                    blk_w,
                    blk_h,
                    &mut best_mv,
                    &mut lowest_cost,
                    ref_frame,
                );
                Self::sub_pixel_me(
                    fi,
                    ts,
                    rec,
                    tile_bo,
                    lambda,
                    pmv,
                    mvx_min,
                    mvx_max,
                    mvy_min,
                    mvy_max,
                    blk_w,
                    blk_h,
                    &mut best_mv,
                    &mut lowest_cost,
                    ref_frame,
                );
                best_mv
            },
            None => MotionVector::default(),
        }
    }

    /// Finds a coarse vector of a block at half resolution, moved into the tile if it
    /// sticks out, and gives it at full resolution. Without the reference frame in
    /// slot `ref_idx` there is none.
    fn estimate_motion_ss2(
        fi: &FrameInvariants<T, I>,
        ts: &TileState<'_, T>,
        bsize: BlockSize,
        ref_idx: usize,
        tile_bo: BlockOffset,
        pmvs: &[Option<MotionVector>; 3],
        ref_frame: usize,
    ) -> (r: Option<MotionVector>)
        requires
            ref_idx < 8,
            fi.slot(ref_idx as int) matches Some(rec) ==> {
                let (blk_w, blk_h) = bsize.dimensions();
                let tile_bo_adj = adjusted_bo(tile_bo, ts.mi_width, ts.mi_height, blk_w, blk_h);
                let range = block_range(*fi, *ts, tile_bo_adj, bsize);
                let last = fi.reference(RefType::LAST_FRAME);
                let lambda = scaled_lambda(fi.me_lambda, 16);
                let global_mv = [zero_mv(), zero_mv()];
                &&& adjustable(*ts, tile_bo)
                &&& block_range_defined(*fi, *ts, tile_bo_adj, bsize)
                &&& ref_frame < ts.mvs@.len()
                &&& fi.has_slot(RefType::LAST_FRAME)
                &&& Self::ss2_defined(
                    *fi,
                    *ts,
                    *pmvs,
                    tile_bo_adj,
                    ts.mvs@[ref_frame as int],
                    last,
                    *rec,
                    global_mv,
                    lambda,
                    range,
                    blk_w,
                    blk_h,
                )
                &&& can_scale(
                    Self::ss2_outcome(
                        (zero_mv(), u64::MAX),
                        *fi,
                        *ts,
                        *pmvs,
                        tile_bo_adj,
                        ts.mvs@[ref_frame as int],
                        last,
                        *rec,
                        global_mv,
                        lambda,
                        range,
                        blk_w,
                        blk_h,
                    ).0,
                    2,
                )
            },
        ensures
            match fi.slot(ref_idx as int) {
                Some(rec) => {
                    let (blk_w, blk_h) = bsize.dimensions();
                    let tile_bo_adj = adjusted_bo(
                        tile_bo,
                        ts.mi_width,
                        ts.mi_height,
                        blk_w,
                        blk_h,
                    );
                    r == Some(
                        scaled_mv(
                            Self::ss2_outcome(
                                (zero_mv(), u64::MAX),
                                *fi,
                                *ts,
                                *pmvs,
                                tile_bo_adj,
                                ts.mvs@[ref_frame as int],
                                fi.reference(RefType::LAST_FRAME),
                                *rec,
                                [zero_mv(), zero_mv()],
                                scaled_lambda(fi.me_lambda, 16),
                                block_range(*fi, *ts, tile_bo_adj, bsize),
                                blk_w,
                                blk_h,
                            ).0,
                            2,
                        ),
                    )
                },
                None => r is None,
            },
    {
        if let Some(rec) = fi.frame_in_slot(ref_idx) {
            let blk_w: usize = bsize.width();
            let blk_h: usize = bsize.height();
            let tile_bo_adj = adjust_bo(tile_bo, ts.mi_width, ts.mi_height, blk_w, blk_h);
            let frame_bo_adj = ts.to_frame_block_offset(tile_bo_adj);
            let (mvx_min, mvx_max, mvy_min, mvy_max) = get_mv_range(
                fi.w_in_b,
                fi.h_in_b,
                frame_bo_adj,
                blk_w,
                blk_h,
            );

            let global_mv: [MotionVector; 2] = [
                MotionVector { row: 0, col: 0 },
                MotionVector { row: 0, col: 0 },
            ];
            let tile_mvs = ts.tile_mvs(ref_frame);
            let frame_ref_opt = fi.frame_of(RefType::LAST_FRAME);

            let mut lowest_cost: u64 = u64::MAX;
            let mut best_mv: MotionVector = MotionVector::default();

            // A quarter accounts for subsampling, another quarter is a fudge factor
            let lambda: u32 = scale_lambda(fi.me_lambda, 16);
            assert(global_mv =~= [zero_mv(), zero_mv()]);

            Self::me_ss2(
                fi,
                ts,
                pmvs,
                tile_bo_adj,
                tile_mvs,
                frame_ref_opt,
                rec,
                global_mv,
                lambda,
                mvx_min,
                mvx_max,
                mvy_min,
                mvy_max,
                blk_w,
                blk_h,
                &mut best_mv,
                &mut lowest_cost,
            );
            Some(MotionVector { row: best_mv.row * 2, col: best_mv.col * 2 })
        } else {
            None
        }
    }
}

/// The bounds on the vector of a block of a tile.
pub open spec fn block_range<T: Pixel, I: InterPredictor<T>>(
    fi: FrameInvariants<T, I>,
    ts: TileState<'_, T>,
    tile_bo: BlockOffset,
    bsize: BlockSize,
) -> MvRange {
    mv_range_of(
        fi.w_in_b,
        fi.h_in_b,
        ts.frame_bo(tile_bo),
        bsize.dimensions().0,
        bsize.dimensions().1,
    )
}

/// Whether these bounds are defined: the block lies in the frame.
pub open spec fn block_range_defined<T: Pixel, I: InterPredictor<T>>(
    fi: FrameInvariants<T, I>,
    ts: TileState<'_, T>,
    tile_bo: BlockOffset,
    bsize: BlockSize,
) -> bool {
    &&& ts.has_frame_bo(tile_bo)
    &&& mv_range_defined(
        fi.w_in_b,
        fi.h_in_b,
        ts.frame_bo(tile_bo),
        bsize.dimensions().0,
        bsize.dimensions().1,
    )
}

/// Whether the position of a block, and the size of its tile, are such that the block
/// can be moved into the tile.
pub open spec fn adjustable<T: Pixel>(ts: TileState<'_, T>, tile_bo: BlockOffset) -> bool {
    &&& tile_bo.x <= isize::MAX && tile_bo.y <= isize::MAX
    &&& ts.mi_width <= isize::MAX && ts.mi_height <= isize::MAX
}

/// A vector in a plane that is `scale` times as wide and high.
pub open spec fn scaled_mv(mv: MotionVector, scale: int) -> MotionVector {
    MotionVector { row: (scale * mv.row) as i16, col: (scale * mv.col) as i16 }
}

/// Whether that vector fits in 16 bits.
pub open spec fn can_scale(mv: MotionVector, scale: int) -> bool {
    fits_i16(scale * mv.row) && fits_i16(scale * mv.col)
}

/// What `f` makes of the last of the vectors that is there; `start` where there is
/// none.
pub open spec fn from_last<A>(
    start: A,
    mvs: Seq<Option<MotionVector>>,
    f: spec_fn(MotionVector) -> A,
) -> A
    decreases mvs.len(),
{
    if mvs.len() == 0 {
        start
    } else {
        match mvs.last() {
            Some(mv) => f(mv),
            None => from_last(start, mvs.drop_last(), f),
        }
    }
}

/// What one more vector changes.
pub proof fn lemma_from_last_step<A>(
    start: A,
    mvs: Seq<Option<MotionVector>>,
    k: int,
    f: spec_fn(MotionVector) -> A,
)
    requires
        0 <= k < mvs.len(),
    ensures
        from_last(start, mvs.take(k + 1), f) == match mvs[k] {
            Some(mv) => f(mv),
            None => from_last(start, mvs.take(k), f),
        },
{
    assert(mvs.take(k + 1).drop_last() =~= mvs.take(k));
}

} // verus!
