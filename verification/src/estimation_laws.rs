//! What holds of the stages of motion estimation: each ends within the bounds on the vectors
//! of the block, and none makes matters worse.
use crate::coarse::{
    quarter_bounds, quarter_grid, quarter_grid_fits, quarter_params, ss4_outcome,
};
use crate::cost::{cost_params, mv_cost, sub_pixel_cost};
use crate::diamond::DiamondSearch;
use crate::exhaustive::{bounded_pixels, FullSearch};
use crate::frame::{
    FrameInvariants, InterPredictor, ReferenceFrame, TileMotionVectors, TileState,
};
use crate::full::{
    first_min, lemma_first_min, lemma_grid_inside, lemma_grid_not_empty, position_in_reach,
    FullSearchParams, Grid,
};
use crate::geometry::{BlockOffset, BlockSize, MvRange, RefType};
use crate::laws::{
    law_diamond_search_ends_at_local_minimum, law_diamond_search_stays_in_range,
    law_refinement_never_raises_cost, law_subset_predictors_shape, lemma_wrapped_difference,
};
use crate::me::{
    block_range, block_range_defined, can_scale, from_last, position_defined, scaled_mv,
    MotionSearch,
};
use crate::mv::{zero_mv, MotionVector};
use crate::num::trunc_div;
use crate::plane::Pixel;
use crate::refine::telescopic_steps;
use vstd::prelude::*;

verus! {

/// A diamond search over whole pixels ends within the bounds, no dearer than any vector
/// that it started from; the zero vector is one of them.
pub proof fn law_diamond_full_pixel_outcome<T: Pixel, I: InterPredictor<T>>(
    start: (MotionVector, u64),
    fi: FrameInvariants<T, I>,
    ts: TileState<'_, T>,
    rec: ReferenceFrame<T>,
    tile_bo: BlockOffset,
    lambda: u32,
    cmv: MotionVector,
    pmv: [MotionVector; 2],
    range: MvRange,
    blk_w: usize,
    blk_h: usize,
    ref_frame: RefType,
)
    requires
        DiamondSearch::full_pixel_defined(
            fi,
            ts,
            rec,
            tile_bo,
            lambda,
            cmv,
            pmv,
            range,
            blk_w,
            blk_h,
            ref_frame,
        ),
    ensures
        ({
            let end = DiamondSearch::full_pixel_outcome(
                start,
                fi,
                ts,
                rec,
                tile_bo,
                lambda,
                cmv,
                pmv,
                range,
                blk_w,
                blk_h,
                ref_frame,
            );
            let cost = DiamondSearch::cost(
                false,
                fi,
                ts,
                rec,
                tile_bo,
                lambda,
                pmv,
                range,
                blk_w,
                blk_h,
                ref_frame,
            );
            let starts = DiamondSearch::starts(fi, ts, tile_bo, cmv, ref_frame);
            &&& range.contains(end.0)
            &&& end.1 == cost(end.0)
            &&& end.1 <= cost(zero_mv())
            &&& forall|k: int| 0 <= k < starts.len() ==> end.1 <= cost(#[trigger] starts[k])
        }),
{
    let params = cost_params(fi.allow_high_precision_mv, pmv, lambda, range, blk_w, blk_h);
    let starts = DiamondSearch::starts(fi, ts, tile_bo, cmv, ref_frame);
    let po = ts.frame_bo(tile_bo).pixel_offset(4);
    law_subset_predictors_shape(
        tile_bo,
        cmv,
        ts.mvs@[ref_frame.ref_index()],
        fi.reference(RefType::LAST_FRAME),
        ref_frame.ref_index() as usize,
    );
    assert(starts[0] == zero_mv());
    law_diamond_search_stays_in_range(
        false,
        params,
        *ts.input,
        rec.frame,
        fi.predictor,
        ref_frame,
        po,
        starts,
    );
    law_diamond_search_ends_at_local_minimum(
        false,
        fi.allow_high_precision_mv,
        starts,
        mv_cost(false, params, *ts.input, rec.frame, fi.predictor, ref_frame, po),
    );
}

/// A diamond search over fractions of pixels ends within the bounds, no dearer than the
/// vector that it started from, by the cost that counts fractions.
pub proof fn law_diamond_sub_pixel_outcome<T: Pixel, I: InterPredictor<T>>(
    start: (MotionVector, u64),
    fi: FrameInvariants<T, I>,
    ts: TileState<'_, T>,
    rec: ReferenceFrame<T>,
    tile_bo: BlockOffset,
    lambda: u32,
    pmv: [MotionVector; 2],
    range: MvRange,
    blk_w: usize,
    blk_h: usize,
    ref_frame: RefType,
)
    requires
        DiamondSearch::sub_pixel_defined(
            start,
            fi,
            ts,
            rec,
            tile_bo,
            lambda,
            pmv,
            range,
            blk_w,
            blk_h,
            ref_frame,
        ),
    ensures
        ({
            let end = DiamondSearch::sub_pixel_outcome(
                start,
                fi,
                ts,
                rec,
                tile_bo,
                lambda,
                pmv,
                range,
                blk_w,
                blk_h,
                ref_frame,
            );
            let cost = DiamondSearch::cost(
                true,
                fi,
                ts,
                rec,
                tile_bo,
                lambda,
                pmv,
                range,
                blk_w,
                blk_h,
                ref_frame,
            );
            &&& range.contains(end.0)
            &&& end.1 == cost(end.0)
            &&& end.1 <= cost(start.0)
        }),
{
    let params = cost_params(fi.allow_high_precision_mv, pmv, lambda, range, blk_w, blk_h);
    let po = ts.frame_bo(tile_bo).pixel_offset(4);
    let starts = seq![start.0];
    law_diamond_search_stays_in_range(
        true,
        params,
        *ts.input,
        rec.frame,
        fi.predictor,
        ref_frame,
        po,
        starts,
    );
    law_diamond_search_ends_at_local_minimum(
        true,
        fi.allow_high_precision_mv,
        starts,
        mv_cost(true, params, *ts.input, rec.frame, fi.predictor, ref_frame, po),
    );
    assert(starts[0] == start.0);
}

/// A full search over a grid near the block ends at a vector of whole pixels that points
/// into the grid.
pub proof fn lemma_outcome_in_grid<T: Pixel>(params: FullSearchParams<T>, grid: Grid)
    requires
        grid.wf(),
        params.grid_defined(grid),
        -60000 <= grid.x_lo - params.po.x && grid.x_hi - params.po.x <= 60000,
        -60000 <= grid.y_lo - params.po.y && grid.y_hi - params.po.y <= 60000,
    ensures
        ({
            let mv = params.outcome(grid).0;
            &&& mv.col as int % 8 == 0 && mv.row as int % 8 == 0
            &&& 8 * (grid.x_lo - params.po.x) <= mv.col <= 8 * (grid.x_last() - params.po.x)
            &&& 8 * (grid.y_lo - params.po.y) <= mv.row <= 8 * (grid.y_last() - params.po.y)
            &&& grid.x_last() <= grid.x_hi && grid.y_last() <= grid.y_hi
        }),
{
    let f = params.grid_cost(grid);
    lemma_grid_not_empty(grid);
    lemma_first_min(grid.len(), f);
    let k = first_min(grid.len(), f);
    lemma_grid_inside(grid, k);
    assert(params.defined(grid.x(k), grid.y(k)));
    assert(position_in_reach(params.po, grid.x(k), grid.y(k)));
    lemma_wrapped_difference(grid.x(k), params.po.x as int);
    lemma_wrapped_difference(grid.y(k), params.po.y as int);
}

/// A search over whole positions ends within the bounds, at a vector of whole pixels at most
/// sixteen pixels, as far as the bounds allow, from the coarse vector.
pub proof fn law_full_search_full_pixel_outcome<T: Pixel, I: InterPredictor<T>>(
    start: (MotionVector, u64),
    fi: FrameInvariants<T, I>,
    ts: TileState<'_, T>,
    rec: ReferenceFrame<T>,
    tile_bo: BlockOffset,
    lambda: u32,
    cmv: MotionVector,
    pmv: [MotionVector; 2],
    range: MvRange,
    blk_w: usize,
    blk_h: usize,
    ref_frame: RefType,
)
    requires
        FullSearch::full_pixel_defined(
            fi,
            ts,
            rec,
            tile_bo,
            lambda,
            cmv,
            pmv,
            range,
            blk_w,
            blk_h,
            ref_frame,
        ),
        range.contains(zero_mv()),
    ensures
        ({
            let end = FullSearch::full_pixel_outcome(
                start,
                fi,
                ts,
                rec,
                tile_bo,
                lambda,
                cmv,
                pmv,
                range,
                blk_w,
                blk_h,
                ref_frame,
            );
            let col = trunc_div(cmv.col as int, 8);
            let row = trunc_div(cmv.row as int, 8);
            &&& range.contains(end.0)
            &&& end.0.col as int % 8 == 0 && end.0.row as int % 8 == 0
            &&& 8 * bounded_pixels(col - 16, range.x_min, range.x_max) <= end.0.col
            &&& end.0.col <= 8 * bounded_pixels(col + 16, range.x_min, range.x_max)
            &&& 8 * bounded_pixels(row - 16, range.y_min, range.y_max) <= end.0.row
            &&& end.0.row <= 8 * bounded_pixels(row + 16, range.y_min, range.y_max)
        }),
{
    let params = FullSearch::full_params(fi, ts, rec, tile_bo, lambda, pmv, blk_w, blk_h);
    let grid = FullSearch::grid(params.po, cmv, range, 1, 2);
    lemma_outcome_in_grid(params, grid);
}

/// The refinement of a vector within the bounds ends within the bounds, no dearer.
pub proof fn law_full_search_sub_pixel_outcome<T: Pixel, I: InterPredictor<T>>(
    start: (MotionVector, u64),
    fi: FrameInvariants<T, I>,
    ts: TileState<'_, T>,
    rec: ReferenceFrame<T>,
    tile_bo: BlockOffset,
    lambda: u32,
    pmv: [MotionVector; 2],
    range: MvRange,
    blk_w: usize,
    blk_h: usize,
    ref_frame: RefType,
)
    requires
        range.contains(start.0),
    ensures
        ({
            let end = FullSearch::sub_pixel_outcome(
                start,
                fi,
                ts,
                rec,
                tile_bo,
                lambda,
                pmv,
                range,
                blk_w,
                blk_h,
                ref_frame,
            );
            range.contains(end.0) && end.1 <= start.1
        }),
{
    law_refinement_never_raises_cost(
        start,
        telescopic_steps(fi.allow_high_precision_mv),
        sub_pixel_cost(
            cost_params(fi.allow_high_precision_mv, pmv, lambda, range, blk_w, blk_h),
            *ts.input,
            fi.predictor,
            ref_frame,
            ts.frame_bo(tile_bo).pixel_offset(4),
        ),
    );
}

/// The bounds on the vectors of a block are multiples of the size of a mode-info block.
proof fn lemma_block_range_multiples<T: Pixel, I: InterPredictor<T>>(
    fi: FrameInvariants<T, I>,
    ts: TileState<'_, T>,
    tile_bo: BlockOffset,
    bsize: BlockSize,
)
    requires
        block_range_defined(fi, ts, tile_bo, bsize),
    ensures
        range_in_blocks(block_range(fi, ts, tile_bo, bsize)),
{
    let (w, h) = bsize.dimensions();
    assert(w as int % 4 == 0 && h as int % 4 == 0 && 4 <= w <= 128 && 4 <= h <= 128);
}

/// Bounds on vectors that are multiples of the size of a mode-info block, around zero.
spec fn range_in_blocks(range: MvRange) -> bool {
    &&& range.x_min as int % 32 == 0 && range.x_max as int % 32 == 0
    &&& range.y_min as int % 32 == 0 && range.y_max as int % 32 == 0
    &&& range.x_min < 0 < range.x_max && range.y_min < 0 < range.y_max
}

proof fn lemma_quarter_axis(start: isize, reach: int, low: isize, high: isize)
    requires
        low as int % 32 == 0 && high as int % 32 == 0,
        low < 0 < high,
        0 <= reach <= 60000,
        reach % 4 == 0,
    ensures
        ({
            let (lo, hi) = quarter_bounds(start, reach, low, high);
            &&& lo <= start <= hi
            &&& low <= 32 * (lo - start) && 32 * (hi - start) <= high
            &&& -(8 * reach) <= 32 * (lo - start) && 32 * (hi - start) <= 8 * reach
        }),
{
}

/// What a search at a quarter of the resolution finds, scaled up, lies within the bounds.
proof fn lemma_quarter_vector<T: Pixel>(params: FullSearchParams<T>, range: MvRange, scale: u8)
    requires
        range_in_blocks(range),
        quarter_grid_fits(params.po, range, scale),
        params.grid_defined(quarter_grid(params.po, range, scale)),
    ensures
        ({
            let mv = params.outcome(quarter_grid(params.po, range, scale)).0;
            &&& range.x_min <= 4 * mv.col <= range.x_max
            &&& range.y_min <= 4 * mv.row <= range.y_max
            &&& -(1536 * scale) <= 4 * mv.col <= 1536 * scale
            &&& -(512 * scale) <= 4 * mv.row <= 512 * scale
        }),
{
    lemma_quarter_axis(params.po.x, 192 * scale, range.x_min, range.x_max);
    lemma_quarter_axis(params.po.y, 64 * scale, range.y_min, range.y_max);
    lemma_outcome_in_grid(params, quarter_grid(params.po, range, scale));
}

proof fn lemma_half_axis(start: isize, component: i16, low: isize, high: isize)
    requires
        low as int % 32 == 0 && high as int % 32 == 0,
        low < 0 < high,
    ensures
        ({
            let (lo, hi) = FullSearch::bounds(start, component, low, high, 2);
            &&& lo <= hi
            &&& -60000 <= lo - start && hi - start <= 60000
            &&& low <= 16 * (lo - start) && 16 * (hi - start) <= high
        }),
{
}

/// What a search at half resolution finds, scaled up, lies within the bounds.
proof fn lemma_half_vector<T: Pixel>(params: FullSearchParams<T>, mv: MotionVector, range: MvRange)
    requires
        range_in_blocks(range),
        FullSearch::grid_fits(params.po, mv, range, 2),
        params.grid_defined(FullSearch::grid(params.po, mv, range, 2, 1)),
    ensures
        ({
            let end = params.outcome(FullSearch::grid(params.po, mv, range, 2, 1)).0;
            &&& range.x_min <= 2 * end.col <= range.x_max
            &&& range.y_min <= 2 * end.row <= range.y_max
        }),
{
    lemma_half_axis(params.po.x, mv.col, range.x_min, range.x_max);
    lemma_half_axis(params.po.y, mv.row, range.y_min, range.y_max);
    lemma_outcome_in_grid(params, FullSearch::grid(params.po, mv, range, 2, 1));
}

/// The coarsest search finds a vector within the bounds on the vectors of the block, no
/// farther than it looks. Its vector fits in 16 bits unless the range of the search is
/// widened more than twenty-one times.
pub proof fn law_ss4_vector_in_range<T: Pixel, I: InterPredictor<T>>(
    fi: FrameInvariants<T, I>,
    ts: TileState<'_, T>,
    rec: ReferenceFrame<T>,
    bsize: BlockSize,
    tile_bo_adj: BlockOffset,
)
    requires
        position_defined(ts, tile_bo_adj),
        block_range_defined(fi, ts, tile_bo_adj, bsize),
        ({
            let po = ts.frame_bo(tile_bo_adj).pixel_offset(1);
            let range = block_range(fi, ts, tile_bo_adj, bsize);
            let (blk_w, blk_h) = bsize.dimensions();
            &&& quarter_grid_fits(po, range, fi.me_range_scale)
            &&& quarter_params(fi, ts, rec, po, blk_w, blk_h).grid_defined(
                quarter_grid(po, range, fi.me_range_scale),
            )
        }),
    ensures
        ({
            let mv = ss4_outcome(fi, ts, rec, bsize, tile_bo_adj);
            let range = block_range(fi, ts, tile_bo_adj, bsize);
            &&& range.x_min <= 4 * mv.col <= range.x_max
            &&& range.y_min <= 4 * mv.row <= range.y_max
            &&& fi.me_range_scale <= 21 ==> can_scale(mv, 4)
            &&& can_scale(mv, 4) ==> range.contains(scaled_mv(mv, 4))
            &&& -(1536 * fi.me_range_scale) <= 4 * mv.col <= 1536 * fi.me_range_scale
            &&& -(512 * fi.me_range_scale) <= 4 * mv.row <= 512 * fi.me_range_scale
        }),
{
    let po = ts.frame_bo(tile_bo_adj).pixel_offset(1);
    let range = block_range(fi, ts, tile_bo_adj, bsize);
    let (blk_w, blk_h) = bsize.dimensions();
    lemma_block_range_multiples(fi, ts, tile_bo_adj, bsize);
    lemma_quarter_vector(
        quarter_params(fi, ts, rec, po, blk_w, blk_h),
        range,
        fi.me_range_scale,
    );
}

#[verifier::rlimit(40)]
proof fn lemma_diamond_ss2_vector_in_range<T: Pixel, I: InterPredictor<T>>(
    fi: FrameInvariants<T, I>,
    ts: TileState<'_, T>,
    pmvs: [Option<MotionVector>; 3],
    tile_bo_adj: BlockOffset,
    tile_mvs: TileMotionVectors<'_>,
    frame_ref_opt: Option<&ReferenceFrame<T>>,
    rec: ReferenceFrame<T>,
    global_mv: [MotionVector; 2],
    lambda: u32,
    range: MvRange,
    blk_w: usize,
    blk_h: usize,
)
    requires
        range_in_blocks(range),
        DiamondSearch::ss2_defined(
            fi,
            ts,
            pmvs,
            tile_bo_adj,
            tile_mvs,
            frame_ref_opt,
            rec,
            global_mv,
            lambda,
            range,
            blk_w,
            blk_h,
        ),
    ensures
        ({
            let mv = DiamondSearch::ss2_outcome(
                (zero_mv(), u64::MAX),
                fi,
                ts,
                pmvs,
                tile_bo_adj,
                tile_mvs,
                frame_ref_opt,
                rec,
                global_mv,
                lambda,
                range,
                blk_w,
                blk_h,
            ).0;
            &&& range.x_min <= 2 * mv.col <= range.x_max
            &&& range.y_min <= 2 * mv.row <= range.y_max
            &&& (forall|k: int| 0 <= k < 3 ==> #[trigger] pmvs[k] is None) ==> mv == zero_mv()
        }),
{
    let cost = DiamondSearch::half_cost(
        fi,
        ts,
        rec,
        tile_bo_adj,
        lambda,
        global_mv,
        range,
        blk_w,
        blk_h,
    );
    let outcome_of = |pmv: MotionVector|
        crate::search::diamond_search(
            false,
            fi.allow_high_precision_mv,
            DiamondSearch::half_starts(tile_bo_adj, pmv, tile_mvs, frame_ref_opt),
            cost,
        );
    lemma_from_last((zero_mv(), u64::MAX), pmvs@, outcome_of);
    assert forall|k: int| 0 <= k < 3 && pmvs@[k] is Some implies range.halved().contains(
        outcome_of((#[trigger] pmvs@[k])->0).0,
    ) by {
        assert(pmvs[k] is Some);
        law_diamond_search_stays_in_range(
            false,
            cost_params(
                fi.allow_high_precision_mv,
                global_mv,
                lambda,
                range.halved(),
                blk_w / 2,
                blk_h / 2,
            ),
            *ts.input_hres,
            rec.input_hres,
            fi.predictor,
            RefType::LAST_FRAME,
            ts.frame_bo(tile_bo_adj).pixel_offset(2),
            DiamondSearch::half_starts(tile_bo_adj, pmvs[k]->0, tile_mvs, frame_ref_opt),
        );
    }
}

/// A diamond search at half resolution finds a vector within the bounds on the vectors of
/// the block; without any vector to start from, it is zero.
pub proof fn law_diamond_ss2_vector_in_range<T: Pixel, I: InterPredictor<T>>(
    fi: FrameInvariants<T, I>,
    ts: TileState<'_, T>,
    pmvs: [Option<MotionVector>; 3],
    tile_bo_adj: BlockOffset,
    tile_mvs: TileMotionVectors<'_>,
    frame_ref_opt: Option<&ReferenceFrame<T>>,
    rec: ReferenceFrame<T>,
    global_mv: [MotionVector; 2],
    lambda: u32,
    bsize: BlockSize,
)
    requires
        block_range_defined(fi, ts, tile_bo_adj, bsize),
        DiamondSearch::ss2_defined(
            fi,
            ts,
            pmvs,
            tile_bo_adj,
            tile_mvs,
            frame_ref_opt,
            rec,
            global_mv,
            lambda,
            block_range(fi, ts, tile_bo_adj, bsize),
            bsize.dimensions().0,
            bsize.dimensions().1,
        ),
    ensures
        ({
            let mv = DiamondSearch::ss2_outcome(
                (zero_mv(), u64::MAX),
                fi,
                ts,
                pmvs,
                tile_bo_adj,
                tile_mvs,
                frame_ref_opt,
                rec,
                global_mv,
                lambda,
                block_range(fi, ts, tile_bo_adj, bsize),
                bsize.dimensions().0,
                bsize.dimensions().1,
            ).0;
            let range = block_range(fi, ts, tile_bo_adj, bsize);
            &&& range.x_min <= 2 * mv.col <= range.x_max
            &&& range.y_min <= 2 * mv.row <= range.y_max
            &&& can_scale(mv, 2) ==> range.contains(scaled_mv(mv, 2))
            &&& (forall|k: int| 0 <= k < 3 ==> #[trigger] pmvs[k] is None) ==> mv == zero_mv()
        }),
{
    lemma_block_range_multiples(fi, ts, tile_bo_adj, bsize);
    lemma_diamond_ss2_vector_in_range(
        fi,
        ts,
        pmvs,
        tile_bo_adj,
        tile_mvs,
        frame_ref_opt,
        rec,
        global_mv,
        lambda,
        block_range(fi, ts, tile_bo_adj, bsize),
        bsize.dimensions().0,
        bsize.dimensions().1,
    );
}

/// The last vector that is there is one of the vectors.
pub proof fn lemma_from_last<A>(
    start: A,
    mvs: Seq<Option<MotionVector>>,
    f: spec_fn(MotionVector) -> A,
)
    ensures
        (forall|k: int| 0 <= k < mvs.len() ==> #[trigger] mvs[k] is None) ==> from_last(
            start,
            mvs,
            f,
        ) == start,
        from_last(start, mvs, f) == start || exists|k: int|
            0 <= k < mvs.len() && (#[trigger] mvs[k]) is Some && from_last(start, mvs, f) == f(
                mvs[k]->0,
            ),
    decreases mvs.len(),
{
    if mvs.len() > 0 {
        let shorter = mvs.drop_last();
        lemma_from_last(start, shorter, f);
        if mvs.last() is None {
            if forall|k: int| 0 <= k < mvs.len() ==> #[trigger] mvs[k] is None {
                assert forall|k: int| 0 <= k < shorter.len() implies #[trigger] shorter[k]
                    is None by {
                    assert(shorter[k] == mvs[k]);
                }
            }
            if from_last(start, shorter, f) != start {
                let k = choose|k: int|
                    0 <= k < shorter.len() && (#[trigger] shorter[k]) is Some && from_last(
                        start,
                        shorter,
                        f,
                    ) == f(shorter[k]->0);
                assert(mvs[k] == shorter[k]);
            }
        } else {
            assert(mvs[mvs.len() - 1] is Some);
        }
    }
}

proof fn lemma_full_search_ss2_vector_in_range<T: Pixel, I: InterPredictor<T>>(
    fi: FrameInvariants<T, I>,
    ts: TileState<'_, T>,
    pmvs: [Option<MotionVector>; 3],
    tile_bo_adj: BlockOffset,
    tile_mvs: TileMotionVectors<'_>,
    frame_ref_opt: Option<&ReferenceFrame<T>>,
    rec: ReferenceFrame<T>,
    global_mv: [MotionVector; 2],
    lambda: u32,
    range: MvRange,
    blk_w: usize,
    blk_h: usize,
)
    requires
        range_in_blocks(range),
        FullSearch::ss2_defined(
            fi,
            ts,
            pmvs,
            tile_bo_adj,
            tile_mvs,
            frame_ref_opt,
            rec,
            global_mv,
            lambda,
            range,
            blk_w,
            blk_h,
        ),
    ensures
        ({
            let mv = FullSearch::ss2_outcome(
                (zero_mv(), u64::MAX),
                fi,
                ts,
                pmvs,
                tile_bo_adj,
                tile_mvs,
                frame_ref_opt,
                rec,
                global_mv,
                lambda,
                range,
                blk_w,
                blk_h,
            ).0;
            &&& range.x_min <= 2 * mv.col <= range.x_max
            &&& range.y_min <= 2 * mv.row <= range.y_max
            &&& (forall|k: int| 0 <= k < 3 ==> #[trigger] pmvs[k] is None) ==> mv == zero_mv()
        }),
{
    let po = ts.frame_bo(tile_bo_adj).pixel_offset(2);
    let params = FullSearch::half_params(fi, ts, rec, po, lambda, blk_w, blk_h);
    let outcome_of = |pmv: MotionVector| params.outcome(FullSearch::grid(po, pmv, range, 2, 1));
    lemma_from_last((zero_mv(), u64::MAX), pmvs@, outcome_of);
    assert forall|k: int| 0 <= k < 3 && pmvs@[k] is Some implies {
        let mv = outcome_of((#[trigger] pmvs@[k])->0).0;
        &&& range.x_min <= 2 * mv.col <= range.x_max
        &&& range.y_min <= 2 * mv.row <= range.y_max
    } by {
        assert(pmvs[k] is Some);
        lemma_half_vector(params, pmvs[k]->0, range);
    }
}

/// A search over all positions at half resolution finds a vector within the bounds on the
/// vectors of the block; without any vector to start from, it is zero.
pub proof fn law_full_search_ss2_vector_in_range<T: Pixel, I: InterPredictor<T>>(
    fi: FrameInvariants<T, I>,
    ts: TileState<'_, T>,
    pmvs: [Option<MotionVector>; 3],
    tile_bo_adj: BlockOffset,
    tile_mvs: TileMotionVectors<'_>,
    frame_ref_opt: Option<&ReferenceFrame<T>>,
    rec: ReferenceFrame<T>,
    global_mv: [MotionVector; 2],
    lambda: u32,
    bsize: BlockSize,
)
    requires
        block_range_defined(fi, ts, tile_bo_adj, bsize),
        FullSearch::ss2_defined(
            fi,
            ts,
            pmvs,
            tile_bo_adj,
            tile_mvs,
            frame_ref_opt,
            rec,
            global_mv,
            lambda,
            block_range(fi, ts, tile_bo_adj, bsize),
            bsize.dimensions().0,
            bsize.dimensions().1,
        ),
    ensures
        ({
            let mv = FullSearch::ss2_outcome(
                (zero_mv(), u64::MAX),
                fi,
                ts,
                pmvs,
                tile_bo_adj,
                tile_mvs,
                frame_ref_opt,
                rec,
                global_mv,
                lambda,
                block_range(fi, ts, tile_bo_adj, bsize),
                bsize.dimensions().0,
                bsize.dimensions().1,
            ).0;
            let range = block_range(fi, ts, tile_bo_adj, bsize);
            &&& range.x_min <= 2 * mv.col <= range.x_max
            &&& range.y_min <= 2 * mv.row <= range.y_max
            &&& can_scale(mv, 2) ==> range.contains(scaled_mv(mv, 2))
            &&& (forall|k: int| 0 <= k < 3 ==> #[trigger] pmvs[k] is None) ==> mv == zero_mv()
        }),
{
    lemma_block_range_multiples(fi, ts, tile_bo_adj, bsize);
    lemma_full_search_ss2_vector_in_range(
        fi,
        ts,
        pmvs,
        tile_bo_adj,
        tile_mvs,
        frame_ref_opt,
        rec,
        global_mv,
        lambda,
        block_range(fi, ts, tile_bo_adj, bsize),
        bsize.dimensions().0,
        bsize.dimensions().1,
    );
}

/// The vector that diamond searches find for a block, over whole pixels and over fractions
/// then, lies within the bounds on the vectors of the block.
pub proof fn law_diamond_estimation_in_range<T: Pixel, I: InterPredictor<T>>(
    fi: FrameInvariants<T, I>,
    ts: TileState<'_, T>,
    rec: ReferenceFrame<T>,
    bsize: BlockSize,
    tile_bo: BlockOffset,
    ref_frame: RefType,
    lambda: u32,
    cmv: MotionVector,
    pmv: [MotionVector; 2],
)
    requires
        DiamondSearch::sub_pixel_defined(
            DiamondSearch::full_pixel_outcome(
                (zero_mv(), u64::MAX),
                fi,
                ts,
                rec,
                tile_bo,
                lambda,
                cmv,
                pmv,
                block_range(fi, ts, tile_bo, bsize),
                bsize.dimensions().0,
                bsize.dimensions().1,
                ref_frame,
            ),
            fi,
            ts,
            rec,
            tile_bo,
            lambda,
            pmv,
            block_range(fi, ts, tile_bo, bsize),
            bsize.dimensions().0,
            bsize.dimensions().1,
            ref_frame,
        ),
    ensures
        block_range(fi, ts, tile_bo, bsize).contains(
            DiamondSearch::sub_pixel_outcome(
                DiamondSearch::full_pixel_outcome(
                    (zero_mv(), u64::MAX),
                    fi,
                    ts,
                    rec,
                    tile_bo,
                    lambda,
                    cmv,
                    pmv,
                    block_range(fi, ts, tile_bo, bsize),
                    bsize.dimensions().0,
                    bsize.dimensions().1,
                    ref_frame,
                ),
                fi,
                ts,
                rec,
                tile_bo,
                lambda,
                pmv,
                block_range(fi, ts, tile_bo, bsize),
                bsize.dimensions().0,
                bsize.dimensions().1,
                ref_frame,
            ).0,
        ),
{
    law_diamond_sub_pixel_outcome(
        DiamondSearch::full_pixel_outcome(
            (zero_mv(), u64::MAX),
            fi,
            ts,
            rec,
            tile_bo,
            lambda,
            cmv,
            pmv,
            block_range(fi, ts, tile_bo, bsize),
            bsize.dimensions().0,
            bsize.dimensions().1,
            ref_frame,
        ),
        fi,
        ts,
        rec,
        tile_bo,
        lambda,
        pmv,
        block_range(fi, ts, tile_bo, bsize),
        bsize.dimensions().0,
        bsize.dimensions().1,
        ref_frame,
    );
}

/// The vector that a search over all positions and its refinement find for a block lies
/// within the bounds on the vectors of the block, and the refinement does not raise the cost.
pub proof fn law_full_search_estimation_in_range<T: Pixel, I: InterPredictor<T>>(
    fi: FrameInvariants<T, I>,
    ts: TileState<'_, T>,
    rec: ReferenceFrame<T>,
    bsize: BlockSize,
    tile_bo: BlockOffset,
    ref_frame: RefType,
    lambda: u32,
    cmv: MotionVector,
    pmv: [MotionVector; 2],
)
    requires
        block_range_defined(fi, ts, tile_bo, bsize),
        FullSearch::full_pixel_defined(
            fi,
            ts,
            rec,
            tile_bo,
            lambda,
            cmv,
            pmv,
            block_range(fi, ts, tile_bo, bsize),
            bsize.dimensions().0,
            bsize.dimensions().1,
            ref_frame,
        ),
    ensures
        ({
            let (blk_w, blk_h) = bsize.dimensions();
            let range = block_range(fi, ts, tile_bo, bsize);
            let full = FullSearch::full_pixel_outcome(
                (zero_mv(), u64::MAX),
                fi,
                ts,
                rec,
                tile_bo,
                lambda,
                cmv,
                pmv,
                range,
                blk_w,
                blk_h,
                ref_frame,
            );
            let end = FullSearch::sub_pixel_outcome(
                full,
                fi,
                ts,
                rec,
                tile_bo,
                lambda,
                pmv,
                range,
                blk_w,
                blk_h,
                ref_frame,
            );
            range.contains(end.0) && end.1 <= full.1
        }),
{
    let (blk_w, blk_h) = bsize.dimensions();
    let range = block_range(fi, ts, tile_bo, bsize);
    let full = FullSearch::full_pixel_outcome(
        (zero_mv(), u64::MAX),
        fi,
        ts,
        rec,
        tile_bo,
        lambda,
        cmv,
        pmv,
        range,
        blk_w,
        blk_h,
        ref_frame,
    );
    lemma_block_range_multiples(fi, ts, tile_bo, bsize);
    law_full_search_full_pixel_outcome(
        (zero_mv(), u64::MAX),
        fi,
        ts,
        rec,
        tile_bo,
        lambda,
        cmv,
        pmv,
        range,
        blk_w,
        blk_h,
        ref_frame,
    );
    law_full_search_sub_pixel_outcome(
        full,
        fi,
        ts,
        rec,
        tile_bo,
        lambda,
        pmv,
        range,
        blk_w,
        blk_h,
        ref_frame,
    );
}

} // verus!
