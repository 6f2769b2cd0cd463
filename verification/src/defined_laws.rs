//! Where the searches for a block are defined: conditions on the planes and the bounds alone
//! under which they are, whatever way they take.
use crate::coarse::{
    quarter_bounds, quarter_grid, quarter_grid_fits, quarter_params, ss4_defined,
};
use crate::cost::{
    codable_range, cost_params, lemma_codable_in_range, mv_cost, mv_cost_defined, sub_pixel_cost,
    sub_pixel_defined, CostParams,
};
use crate::diamond::DiamondSearch;
use crate::estimation_laws::{
    law_diamond_full_pixel_outcome, law_diamond_ss2_vector_in_range,
    law_full_search_full_pixel_outcome, lemma_from_last, lemma_outcome_in_grid,
};
use crate::exhaustive::FullSearch;
use crate::frame::{
    FrameInvariants, InterPredictor, ReferenceFrame, TileMotionVectors, TileState,
};
use crate::full::{
    lemma_grid_corners, lemma_grid_inside, position_mv, FullSearchParams, Grid,
};
use crate::geometry::{BlockOffset, BlockSize, MvRange, PlaneOffset, RefType};
use crate::laws::{
    law_cost_tells_range, law_diamond_search_defined_within_bounds,
    law_diamond_search_defined_within_plane, law_full_search_defined_at_corners,
    law_improve_finds_first_cheapest, law_subset_predictors_shape, lemma_wrapped_difference,
};
use crate::me::{block_range, block_range_defined, can_scale, position_defined, MotionSearch};
use crate::mv::{zero_mv, MotionVector};
use crate::num::trunc_div;
use crate::plane::{searchable, Pixel, Plane};
use crate::predictors::subset_predictors_defined;
use crate::refine::{ring, telescopic_search_defined, telescopic_steps};
use crate::search::{diamond_radius_start, diamond_search_defined, improve, room_in_range};
use vstd::prelude::*;

verus! {

/// Whether the block at `po` can be predicted at every vector in range.
pub open spec fn predictable<T: Pixel, I: InterPredictor<T>>(
    predictor: I,
    ref_frame: RefType,
    po: PlaneOffset,
    blk_w: usize,
    blk_h: usize,
    range: MvRange,
) -> bool {
    forall|mv: MotionVector|
        range.contains(mv) ==> #[trigger] predictor.can_predict(ref_frame, po, blk_w, blk_h, mv)
}

/// Where a block can be predicted at every vector in range, the costs that count fractions of
/// pixels are defined, and less than the largest number for vectors in range only.
proof fn lemma_sub_pixel_always_defined<T: Pixel, I: InterPredictor<T>>(
    params: CostParams,
    p_org: Plane<T>,
    predictor: I,
    ref_frame: RefType,
    po: PlaneOffset,
)
    requires
        searchable(params.blk_w, params.blk_h),
        p_org.holds_block(po.x as int, po.y as int, params.blk_w as int, params.blk_h as int),
        codable_range(params.range, params.pmv, params.allow_high_precision_mv),
        predictable(predictor, ref_frame, po, params.blk_w, params.blk_h, params.range),
    ensures
        forall|mv: MotionVector| #[trigger]
            sub_pixel_defined(params, p_org, predictor, ref_frame, po)(mv),
        forall|mv: MotionVector|
            sub_pixel_cost(params, p_org, predictor, ref_frame, po)(mv) < u64::MAX
                <==> #[trigger] params.range.contains(mv),
{
    let defined = sub_pixel_defined(params, p_org, predictor, ref_frame, po);
    assert forall|mv: MotionVector| #[trigger] defined(mv) by {
        if params.range.contains(mv) {
            lemma_codable_in_range(params.range, params.pmv, params.allow_high_precision_mv, mv);
            assert(predictor.can_predict(ref_frame, po, params.blk_w, params.blk_h, mv));
        }
    }
    assert forall|mv: MotionVector|
        sub_pixel_cost(params, p_org, predictor, ref_frame, po)(mv) < u64::MAX
            <==> #[trigger] params.range.contains(mv) by {
        assert(defined(mv));
        law_cost_tells_range(true, params, p_org, p_org, predictor, ref_frame, po, mv);
    }
}

/// Motion estimation by diamond search is defined for a block of the frame whose bounds leave
/// room for vectors, where the reference plane holds the blocks at both ends of the bounds
/// and the block can be predicted at every vector in between.
pub proof fn law_diamond_estimation_defined<T: Pixel, I: InterPredictor<T>>(
    start: (MotionVector, u64),
    fi: FrameInvariants<T, I>,
    ts: TileState<'_, T>,
    rec: ReferenceFrame<T>,
    tile_bo: BlockOffset,
    lambda: u32,
    cmv: MotionVector,
    pmv: [MotionVector; 2],
    range: MvRange,
    blk_w: usize,
    blk_h: usize,
    ref_frame: RefType,
)
    requires
        ref_frame.is_inter(),
        fi.has_slot(RefType::LAST_FRAME),
        ref_frame.ref_index() < ts.mvs@.len(),
        subset_predictors_defined(
            tile_bo,
            ts.mvs@[ref_frame.ref_index()],
            fi.reference(RefType::LAST_FRAME),
            ref_frame.ref_index() as usize,
        ),
        position_defined(ts, tile_bo),
        searchable(blk_w, blk_h),
        range.contains(zero_mv()),
        room_in_range(range, diamond_radius_start(false) as int),
        codable_range(range, pmv, fi.allow_high_precision_mv),
        ({
            let po = ts.frame_bo(tile_bo).pixel_offset(4);
            &&& ts.input.holds_block(po.x as int, po.y as int, blk_w as int, blk_h as int)
            &&& rec.frame.holds_block(
                po.x + trunc_div(range.x_min as int, 8),
                po.y + trunc_div(range.y_min as int, 8),
                blk_w as int,
                blk_h as int,
            )
            &&& rec.frame.holds_block(
                po.x + trunc_div(range.x_max as int, 8),
                po.y + trunc_div(range.y_max as int, 8),
                blk_w as int,
                blk_h as int,
            )
            &&& predictable(fi.predictor, ref_frame, po, blk_w, blk_h, range)
        }),
    ensures
        DiamondSearch::full_pixel_defined(
            fi,
            ts,
            rec,
            tile_bo,
            lambda,
            cmv,
            pmv,
            range,
            blk_w,
            blk_h,
            ref_frame,
        ),
        DiamondSearch::sub_pixel_defined(
            DiamondSearch::full_pixel_outcome(
                start,
                fi,
                ts,
                rec,
                tile_bo,
                lambda,
                cmv,
                pmv,
                range,
                blk_w,
                blk_h,
                ref_frame,
            ),
            fi,
            ts,
            rec,
            tile_bo,
            lambda,
            pmv,
            range,
            blk_w,
            blk_h,
            ref_frame,
        ),
{
    let params = cost_params(fi.allow_high_precision_mv, pmv, lambda, range, blk_w, blk_h);
    let po = ts.frame_bo(tile_bo).pixel_offset(4);
    let starts = DiamondSearch::starts(fi, ts, tile_bo, cmv, ref_frame);
    law_subset_predictors_shape(
        tile_bo,
        cmv,
        ts.mvs@[ref_frame.ref_index()],
        fi.reference(RefType::LAST_FRAME),
        ref_frame.ref_index() as usize,
    );
    law_diamond_search_defined_within_plane(
        params,
        *ts.input,
        rec.frame,
        fi.predictor,
        ref_frame,
        po,
        starts,
        0,
    );
    law_diamond_full_pixel_outcome(
        start,
        fi,
        ts,
        rec,
        tile_bo,
        lambda,
        cmv,
        pmv,
        range,
        blk_w,
        blk_h,
        ref_frame,
    );
    let full = DiamondSearch::full_pixel_outcome(
        start,
        fi,
        ts,
        rec,
        tile_bo,
        lambda,
        cmv,
        pmv,
        range,
        blk_w,
        blk_h,
        ref_frame,
    );
    lemma_sub_pixel_always_defined(params, *ts.input, fi.predictor, ref_frame, po);
    law_diamond_search_defined_within_bounds(
        true,
        fi.allow_high_precision_mv,
        seq![full.0],
        mv_cost(true, params, *ts.input, rec.frame, fi.predictor, ref_frame, po),
        mv_cost_defined(true, params, *ts.input, rec.frame, fi.predictor, ref_frame, po),
        range,
        0,
    );
}

/// A refinement is defined where the costs of all vectors are, from a vector in range on, where
/// the range leaves room for the steps.
proof fn lemma_telescopic_search_defined(
    best: (MotionVector, u64),
    steps: Seq<int>,
    cost: spec_fn(MotionVector) -> u64,
    defined: spec_fn(MotionVector) -> bool,
    range: MvRange,
)
    requires
        room_in_range(range, 8),
        range.contains(best.0),
        forall|k: int| 0 <= k < steps.len() ==> 0 <= #[trigger] steps[k] <= 8,
        forall|mv: MotionVector| #[trigger] defined(mv),
        forall|mv: MotionVector| cost(mv) < u64::MAX <==> #[trigger] range.contains(mv),
    ensures
        telescopic_search_defined(best, steps, cost, defined),
    decreases steps.len(),
{
    if steps.len() > 0 {
        let next = improve(best, ring(best.0, steps[0]), cost);
        law_improve_finds_first_cheapest(best, ring(best.0, steps[0]), cost);
        assert(range.contains(next.0)) by {
            if next != best {
                assert(next.1 == cost(next.0));
                assert(cost(next.0) < u64::MAX);
            }
        }
        assert forall|k: int| 0 <= k < steps.skip(1).len() implies 0 <= #[trigger] steps.skip(1)[k]
            <= 8 by {
            assert(steps.skip(1)[k] == steps[k + 1]);
        }
        lemma_telescopic_search_defined(next, steps.skip(1), cost, defined, range);
    }
}

/// The bounds of a search near a component of a vector are in order, and near the start.
pub proof fn lemma_bounds_near(start: isize, component: i16, low: isize, high: isize, scale: int)
    requires
        low <= 0 <= high,
        scale == 1 || scale == 2,
    ensures
        ({
            let bounds = FullSearch::bounds(start, component, low, high, scale);
            start - 5000 <= bounds.0 <= bounds.1 <= start + 5000
        }),
{
}

/// The corners of the grid have costs that are defined.
pub open spec fn corners_defined<T: Pixel>(params: FullSearchParams<T>, grid: Grid) -> bool {
    params.defined(grid.x_lo as int, grid.y_lo as int) && params.defined(
        grid.x_last(),
        grid.y_last(),
    )
}

/// The vectors of the corners of the grid fit in 16 bits in a plane that is `scale` times as
/// wide and high.
pub open spec fn corners_scale(po: PlaneOffset, grid: Grid, scale: int) -> bool {
    can_scale(position_mv(po, grid.x_lo as int, grid.y_lo as int), scale) && can_scale(
        position_mv(po, grid.x_last(), grid.y_last()),
        scale,
    )
}

/// A search over a grid near the block is defined where its corners are; where the vectors of
/// the corners can be scaled up, so can what it finds.
proof fn lemma_near_grid_defined<T: Pixel>(params: FullSearchParams<T>, grid: Grid, scale: int)
    requires
        grid.wf(),
        -60000 <= grid.x_lo - params.po.x && grid.x_hi - params.po.x <= 60000,
        -60000 <= grid.y_lo - params.po.y && grid.y_hi - params.po.y <= 60000,
        corners_defined(params, grid),
        scale >= 0,
    ensures
        params.grid_defined(grid),
        corners_scale(params.po, grid, scale) ==> can_scale(params.outcome(grid).0, scale),
{
    let x = params.po.x as int;
    let y = params.po.y as int;
    lemma_grid_corners(grid);
    lemma_grid_inside(grid, 0);
    lemma_wrapped_difference(grid.x_lo as int, x);
    lemma_wrapped_difference(grid.x_last(), x);
    lemma_wrapped_difference(grid.y_lo as int, y);
    lemma_wrapped_difference(grid.y_last(), y);
    law_full_search_defined_at_corners(params, grid);
    lemma_outcome_in_grid(params, grid);
    let mv = params.outcome(grid).0;
    let first = position_mv(params.po, grid.x_lo as int, grid.y_lo as int);
    let last = position_mv(params.po, grid.x_last(), grid.y_last());
    lemma_scaled_between(first.col as int, mv.col as int, last.col as int, scale);
    lemma_scaled_between(first.row as int, mv.row as int, last.row as int, scale);
}

/// Scaling keeps the order.
proof fn lemma_scaled_between(low: int, a: int, high: int, scale: int)
    by (nonlinear_arith)
    requires
        low <= a <= high,
        scale >= 0,
    ensures
        scale * low <= scale * a <= scale * high,
{
}

/// Motion estimation over all positions is defined for a block whose bounds leave room for the
/// first step of the refinement and for coding, where the first and the last of the positions
/// near the coarse vector have defined costs, and the block can be predicted at every vector
/// within the bounds.
pub proof fn law_full_search_estimation_defined<T: Pixel, I: InterPredictor<T>>(
    start: (MotionVector, u64),
    fi: FrameInvariants<T, I>,
    ts: TileState<'_, T>,
    rec: ReferenceFrame<T>,
    tile_bo: BlockOffset,
    lambda: u32,
    cmv: MotionVector,
    pmv: [MotionVector; 2],
    range: MvRange,
    blk_w: usize,
    blk_h: usize,
    ref_frame: RefType,
)
    requires
        position_defined(ts, tile_bo),
        searchable(blk_w, blk_h),
        range.contains(zero_mv()),
        room_in_range(range, telescopic_steps(fi.allow_high_precision_mv)[0]),
        codable_range(range, pmv, fi.allow_high_precision_mv),
        ({
            let params = FullSearch::full_params(
                fi,
                ts,
                rec,
                tile_bo,
                lambda,
                pmv,
                blk_w,
                blk_h,
            );
            &&& FullSearch::grid_fits(params.po, cmv, range, 1)
            &&& corners_defined(params, FullSearch::grid(params.po, cmv, range, 1, 2))
            &&& predictable(fi.predictor, ref_frame, params.po, blk_w, blk_h, range)
        }),
    ensures
        FullSearch::full_pixel_defined(
            fi,
            ts,
            rec,
            tile_bo,
            lambda,
            cmv,
            pmv,
            range,
            blk_w,
            blk_h,
            ref_frame,
        ),
        FullSearch::sub_pixel_defined(
            FullSearch::full_pixel_outcome(
                start,
                fi,
                ts,
                rec,
                tile_bo,
                lambda,
                cmv,
                pmv,
                range,
                blk_w,
                blk_h,
                ref_frame,
            ),
            fi,
            ts,
            rec,
            tile_bo,
            lambda,
            pmv,
            range,
            blk_w,
            blk_h,
            ref_frame,
        ),
{
    let po = ts.frame_bo(tile_bo).pixel_offset(4);
    let whole = FullSearch::full_params(fi, ts, rec, tile_bo, lambda, pmv, blk_w, blk_h);
    lemma_bounds_near(po.x, cmv.col, range.x_min, range.x_max, 1);
    lemma_bounds_near(po.y, cmv.row, range.y_min, range.y_max, 1);
    lemma_near_grid_defined(whole, FullSearch::grid(po, cmv, range, 1, 2), 1);
    law_full_search_full_pixel_outcome(
        start,
        fi,
        ts,
        rec,
        tile_bo,
        lambda,
        cmv,
        pmv,
        range,
        blk_w,
        blk_h,
        ref_frame,
    );
    let params = cost_params(fi.allow_high_precision_mv, pmv, lambda, range, blk_w, blk_h);
    lemma_sub_pixel_always_defined(params, *ts.input, fi.predictor, ref_frame, po);
    lemma_telescopic_search_defined(
        FullSearch::full_pixel_outcome(
            start,
            fi,
            ts,
            rec,
            tile_bo,
            lambda,
            cmv,
            pmv,
            range,
            blk_w,
            blk_h,
            ref_frame,
        ),
        telescopic_steps(fi.allow_high_precision_mv),
        sub_pixel_cost(params, *ts.input, fi.predictor, ref_frame, po),
        sub_pixel_defined(params, *ts.input, fi.predictor, ref_frame, po),
        range,
    );
}

/// The search at a quarter of the resolution is defined where the first and the last of its
/// positions have defined costs and vectors that fit in 16 bits at full resolution.
pub proof fn law_ss4_defined<T: Pixel, I: InterPredictor<T>>(
    fi: FrameInvariants<T, I>,
    ts: TileState<'_, T>,
    rec: ReferenceFrame<T>,
    bsize: BlockSize,
    tile_bo_adj: BlockOffset,
)
    requires
        position_defined(ts, tile_bo_adj),
        block_range_defined(fi, ts, tile_bo_adj, bsize),
        ({
            let po = ts.frame_bo(tile_bo_adj).pixel_offset(1);
            let range = block_range(fi, ts, tile_bo_adj, bsize);
            let (blk_w, blk_h) = bsize.dimensions();
            let params = quarter_params(fi, ts, rec, po, blk_w, blk_h);
            let grid = quarter_grid(po, range, fi.me_range_scale);
            &&& quarter_grid_fits(po, range, fi.me_range_scale)
            &&& corners_defined(params, grid)
            &&& corners_scale(po, grid, 4)
        }),
    ensures
        ss4_defined(fi, ts, rec, bsize, tile_bo_adj),
{
    let po = ts.frame_bo(tile_bo_adj).pixel_offset(1);
    let range = block_range(fi, ts, tile_bo_adj, bsize);
    let (blk_w, blk_h) = bsize.dimensions();
    let params = quarter_params(fi, ts, rec, po, blk_w, blk_h);
    lemma_quarter_bounds_near(po.x, 192 * fi.me_range_scale, range.x_min, range.x_max);
    lemma_quarter_bounds_near(po.y, 64 * fi.me_range_scale, range.y_min, range.y_max);
    lemma_near_grid_defined(params, quarter_grid(po, range, fi.me_range_scale), 4);
}

/// The bounds of a search at a quarter of the resolution are in order, and near the start.
pub proof fn lemma_quarter_bounds_near(start: isize, reach: int, low: isize, high: isize)
    requires
        0 <= reach <= 48960,
        low <= 0 <= high,
    ensures
        ({
            let bounds = quarter_bounds(start, reach, low, high);
            start - 12240 <= bounds.0 <= bounds.1 <= start + 12240
        }),
{
}

/// A diamond search at half resolution is defined for a block of the frame whose bounds leave
/// room for vectors, where the planes hold the blocks at both ends of the bounds, and what it
/// finds fits in 16 bits at full resolution.
pub proof fn law_diamond_ss2_defined<T: Pixel, I: InterPredictor<T>>(
    fi: FrameInvariants<T, I>,
    ts: TileState<'_, T>,
    pmvs: [Option<MotionVector>; 3],
    tile_bo_adj: BlockOffset,
    tile_mvs: TileMotionVectors<'_>,
    frame_ref_opt: Option<&ReferenceFrame<T>>,
    rec: ReferenceFrame<T>,
    global_mv: [MotionVector; 2],
    lambda: u32,
    bsize: BlockSize,
)
    requires
        position_defined(ts, tile_bo_adj),
        block_range_defined(fi, ts, tile_bo_adj, bsize),
        (exists|k: int| 0 <= k < 3 && (#[trigger] pmvs[k]) is Some) ==> {
            let po = ts.frame_bo(tile_bo_adj).pixel_offset(2);
            let range = block_range(fi, ts, tile_bo_adj, bsize);
            let half = range.halved();
            let blk_w = bsize.dimensions().0 / 2;
            let blk_h = bsize.dimensions().1 / 2;
            &&& subset_predictors_defined(tile_bo_adj, tile_mvs, frame_ref_opt, 0)
            &&& room_in_range(range, 0)
            &&& room_in_range(half, diamond_radius_start(false) as int)
            &&& codable_range(half, global_mv, fi.allow_high_precision_mv)
            &&& ts.input_hres.holds_block(po.x as int, po.y as int, blk_w as int, blk_h as int)
            &&& rec.input_hres.holds_block(
                po.x + trunc_div(half.x_min as int, 8),
                po.y + trunc_div(half.y_min as int, 8),
                blk_w as int,
                blk_h as int,
            )
            &&& rec.input_hres.holds_block(
                po.x + trunc_div(half.x_max as int, 8),
                po.y + trunc_div(half.y_max as int, 8),
                blk_w as int,
                blk_h as int,
            )
        },
    ensures
        DiamondSearch::ss2_defined(
            fi,
            ts,
            pmvs,
            tile_bo_adj,
            tile_mvs,
            frame_ref_opt,
            rec,
            global_mv,
            lambda,
            block_range(fi, ts, tile_bo_adj, bsize),
            bsize.dimensions().0,
            bsize.dimensions().1,
        ),
        can_scale(
            DiamondSearch::ss2_outcome(
                (zero_mv(), u64::MAX),
                fi,
                ts,
                pmvs,
                tile_bo_adj,
                tile_mvs,
                frame_ref_opt,
                rec,
                global_mv,
                lambda,
                block_range(fi, ts, tile_bo_adj, bsize),
                bsize.dimensions().0,
                bsize.dimensions().1,
            ).0,
            2,
        ),
{
    let range = block_range(fi, ts, tile_bo_adj, bsize);
    lemma_half_searchable(bsize);
    assert forall|k: int| 0 <= k < 3 && #[trigger] pmvs[k] is Some implies {
        let (blk_w, blk_h) = bsize.dimensions();
        diamond_search_defined(
            false,
            fi.allow_high_precision_mv,
            DiamondSearch::half_starts(tile_bo_adj, pmvs[k]->0, tile_mvs, frame_ref_opt),
            DiamondSearch::half_cost(
                fi,
                ts,
                rec,
                tile_bo_adj,
                lambda,
                global_mv,
                range,
                blk_w,
                blk_h,
            ),
            DiamondSearch::half_cost_defined(
                fi,
                ts,
                rec,
                tile_bo_adj,
                lambda,
                global_mv,
                range,
                blk_w,
                blk_h,
            ),
        )
    } by {
        law_subset_predictors_shape(tile_bo_adj, pmvs[k]->0, tile_mvs, frame_ref_opt, 0);
        law_diamond_search_defined_within_plane(
            cost_params(
                fi.allow_high_precision_mv,
                global_mv,
                lambda,
                range.halved(),
                bsize.dimensions().0 / 2,
                bsize.dimensions().1 / 2,
            ),
            *ts.input_hres,
            rec.input_hres,
            fi.predictor,
            RefType::LAST_FRAME,
            ts.frame_bo(tile_bo_adj).pixel_offset(2),
            DiamondSearch::half_starts(tile_bo_adj, pmvs[k]->0, tile_mvs, frame_ref_opt),
            0,
        );
    }
    law_diamond_ss2_vector_in_range(
        fi,
        ts,
        pmvs,
        tile_bo_adj,
        tile_mvs,
        frame_ref_opt,
        rec,
        global_mv,
        lambda,
        bsize,
    );
}

/// A block of half the width and height can be searched for.
proof fn lemma_half_searchable(bsize: BlockSize)
    ensures
        searchable(bsize.dimensions().0 / 2, bsize.dimensions().1 / 2),
{
    let w = bsize.dimensions().0 / 2;
    let h = bsize.dimensions().1 / 2;
    assert(w * h <= 64 * 64) by (nonlinear_arith)
        requires
            w <= 64,
            h <= 64,
    ;
}

/// A search over all positions at half resolution is defined where, near each of the vectors to
/// start from, the first and the last position have defined costs and vectors that fit in 16
/// bits at full resolution; what it finds does so too.
pub proof fn law_full_search_ss2_defined<T: Pixel, I: InterPredictor<T>>(
    fi: FrameInvariants<T, I>,
    ts: TileState<'_, T>,
    pmvs: [Option<MotionVector>; 3],
    tile_bo_adj: BlockOffset,
    tile_mvs: TileMotionVectors<'_>,
    frame_ref_opt: Option<&ReferenceFrame<T>>,
    rec: ReferenceFrame<T>,
    global_mv: [MotionVector; 2],
    lambda: u32,
    bsize: BlockSize,
)
    requires
        position_defined(ts, tile_bo_adj),
        block_range_defined(fi, ts, tile_bo_adj, bsize),
        ({
            let po = ts.frame_bo(tile_bo_adj).pixel_offset(2);
            let range = block_range(fi, ts, tile_bo_adj, bsize);
            let (blk_w, blk_h) = bsize.dimensions();
            let params = FullSearch::half_params(fi, ts, rec, po, lambda, blk_w, blk_h);
            forall|k: int|
                0 <= k < 3 ==> (#[trigger] pmvs[k] matches Some(pmv) ==> {
                    let grid = FullSearch::grid(po, pmv, range, 2, 1);
                    &&& FullSearch::grid_fits(po, pmv, range, 2)
                    &&& corners_defined(params, grid)
                    &&& corners_scale(po, grid, 2)
                })
        }),
    ensures
        FullSearch::ss2_defined(
            fi,
            ts,
            pmvs,
            tile_bo_adj,
            tile_mvs,
            frame_ref_opt,
            rec,
            global_mv,
            lambda,
            block_range(fi, ts, tile_bo_adj, bsize),
            bsize.dimensions().0,
            bsize.dimensions().1,
        ),
        can_scale(
            FullSearch::ss2_outcome(
                (zero_mv(), u64::MAX),
                fi,
                ts,
                pmvs,
                tile_bo_adj,
                tile_mvs,
                frame_ref_opt,
                rec,
                global_mv,
                lambda,
                block_range(fi, ts, tile_bo_adj, bsize),
                bsize.dimensions().0,
                bsize.dimensions().1,
            ).0,
            2,
        ),
{
    let po = ts.frame_bo(tile_bo_adj).pixel_offset(2);
    let range = block_range(fi, ts, tile_bo_adj, bsize);
    let (blk_w, blk_h) = bsize.dimensions();
    let params = FullSearch::half_params(fi, ts, rec, po, lambda, blk_w, blk_h);
    lemma_half_searchable(bsize);
    let outcome_of = |pmv: MotionVector| params.outcome(FullSearch::grid(po, pmv, range, 2, 1));
    assert forall|k: int| 0 <= k < 3 && (#[trigger] pmvs[k]) is Some implies {
        &&& params.grid_defined(FullSearch::grid(po, pmvs[k]->0, range, 2, 1))
        &&& can_scale(outcome_of(pmvs[k]->0).0, 2)
    } by {
        let pmv = pmvs[k]->0;
        lemma_bounds_near(po.x, pmv.col, range.x_min, range.x_max, 2);
        lemma_bounds_near(po.y, pmv.row, range.y_min, range.y_max, 2);
        lemma_near_grid_defined(params, FullSearch::grid(po, pmv, range, 2, 1), 2);
    }
    lemma_from_last((zero_mv(), u64::MAX), pmvs@, outcome_of);
    assert forall|k: int| 0 <= k < 3 && (#[trigger] pmvs@[k]) is Some implies can_scale(
        outcome_of(pmvs@[k]->0).0,
        2,
    ) by {
        assert(pmvs[k] is Some);
    }
}

} // verus!
