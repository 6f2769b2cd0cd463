//! What each stage of motion estimation finds: in which planes it compares which blocks, how
//! far it looks, and where it starts.
use crate::coarse::{quarter_grid, quarter_params, ss4_defined, ss4_outcome};
use crate::cost::{cost_params, mv_cost, rd_cost, CostParams};
use crate::defined_laws::{lemma_bounds_near, lemma_quarter_bounds_near};
use crate::diamond::DiamondSearch;
use crate::estimation_laws::law_ss4_vector_in_range;
use crate::exhaustive::{bounded_pixels, FullSearch};
use crate::frame::{
    scaled_lambda, FrameInvariants, FrameMotionVectors, InterPredictor, ReferenceFrame,
    TileMotionVectors, TileState,
};
use crate::full::{position_mv, FullSearchParams, Grid};
use crate::geometry::{BlockOffset, BlockSize, MvRange, PlaneOffset, RefType};
use crate::laws::{law_diamond_search_ends_at_local_minimum, lemma_wrapped_difference};
use crate::me::{block_range, MotionSearch};
use crate::mv::{zero_mv, MotionVector};
use crate::num::trunc_div;
use crate::plane::{block_sad, searchable, Pixel, Plane};
use crate::predictors::{
    col_total, frame_block_offset, halved_mv, halved_mvs, mean_mv, non_zero, only_if, row_total,
    spatial_neighbours, subset_predictors, temporal_neighbours,
};
use crate::refine::{telescopic_search, telescopic_steps};
use crate::search::diamond_search;
use crate::search_laws::{
    law_cost_of_a_position, law_diamond_search_leaves_nothing_cheaper_beside,
    law_full_search_finds_the_first_best_position, law_last_vector_counts,
};
use vstd::prelude::*;

verus! {

/// The cost of moving the block at `po` by whole pixels.
spec fn displacement_cost<T: Pixel>(
    p_org: Plane<T>,
    p_ref: Plane<T>,
    po: PlaneOffset,
    blk_w: usize,
    blk_h: usize,
    pmv: [MotionVector; 2],
    lambda: u32,
    hp: bool,
    dx: int,
    dy: int,
) -> int {
    rd_cost(
        block_sad(
            p_org.pixels_from(po.x as int, po.y as int),
            p_ref.pixels_from(po.x + dx, po.y + dy),
            blk_w as nat,
            blk_h as nat,
        ),
        MotionVector { row: (8 * dy) as i16, col: (8 * dx) as i16 },
        pmv,
        lambda,
        hp,
    )
}

/// The same with the parameters of a full search.
spec fn params_cost<T: Pixel>(params: FullSearchParams<T>, dx: int, dy: int) -> int {
    displacement_cost(
        params.p_org,
        params.p_ref,
        params.po,
        params.blk_w,
        params.blk_h,
        params.pmv,
        params.lambda,
        params.allow_high_precision_mv,
        dx,
        dy,
    )
}

/// A position near the block has the cost of the displacement to it.
proof fn lemma_cost_near<T: Pixel>(params: FullSearchParams<T>, x: int, y: int)
    requires
        searchable(params.blk_w, params.blk_h),
        params.defined(x, y),
        -60000 <= x - params.po.x <= 60000,
        -60000 <= y - params.po.y <= 60000,
    ensures
        params.cost(x, y) == params_cost(params, x - params.po.x, y - params.po.y),
        position_mv(params.po, x, y).col == 8 * (x - params.po.x),
        position_mv(params.po, x, y).row == 8 * (y - params.po.y),
{
    law_cost_of_a_position(params, x, y);
    lemma_wrapped_difference(x, params.po.x as int);
    lemma_wrapped_difference(y, params.po.y as int);
}

/// What a full search over a grid near the block finds costs no more than any displacement to
/// a position of the grid, and is the first of these.
#[verifier::spinoff_prover]
#[verifier::rlimit(40)]
proof fn lemma_best_displacement<T: Pixel>(
    params: FullSearchParams<T>,
    grid: Grid,
    dx: int,
    dy: int,
)
    requires
        searchable(params.blk_w, params.blk_h),
        grid.wf(),
        params.grid_defined(grid),
        -60000 <= grid.x_lo - params.po.x && grid.x_hi - params.po.x <= 60000,
        -60000 <= grid.y_lo - params.po.y && grid.y_hi - params.po.y <= 60000,
        grid.x_lo <= params.po.x + dx <= grid.x_hi,
        grid.y_lo <= params.po.y + dy <= grid.y_hi,
        (params.po.x + dx - grid.x_lo) % grid.step as int == 0,
        (params.po.y + dy - grid.y_lo) % grid.step as int == 0,
    ensures
        ({
            let found = params.outcome(grid);
            let right = found.0.col as int / 8;
            let down = found.0.row as int / 8;
            &&& found.0.col as int % 8 == 0 && found.0.row as int % 8 == 0
            &&& found.1 == params_cost(params, right, down)
            &&& found.1 <= params_cost(params, dx, dy)
            &&& dy < down || (dy == down && dx < right) ==> found.1 < params_cost(params, dx, dy)
            &&& grid.x_lo <= params.po.x + right <= grid.x_hi
            &&& grid.y_lo <= params.po.y + down <= grid.y_hi
            &&& (params.po.x + right - grid.x_lo) % grid.step as int == 0
            &&& (params.po.y + down - grid.y_lo) % grid.step as int == 0
        }),
{
    let step = grid.step as int;
    let found = params.outcome(grid);
    law_full_search_finds_the_first_best_position(
        params,
        grid.x_lo,
        grid.x_hi,
        grid.y_lo,
        grid.y_hi,
        grid.step,
    );
    assert(found == params.outcome(
        Grid {
            x_lo: grid.x_lo,
            x_hi: grid.x_hi,
            y_lo: grid.y_lo,
            y_hi: grid.y_hi,
            step: grid.step,
        },
    ));
    let (x, y) = choose|x: int, y: int|
        {
            &&& grid.x_lo <= x <= grid.x_hi && (x - grid.x_lo) % step == 0
            &&& grid.y_lo <= y <= grid.y_hi && (y - grid.y_lo) % step == 0
            &&& found == (position_mv(params.po, x, y), #[trigger] params.cost(x, y))
            &&& forall|p: int, q: int|
                grid.x_lo <= p <= grid.x_hi && (p - grid.x_lo) % step == 0 && grid.y_lo <= q
                    <= grid.y_hi && (q - grid.y_lo) % step == 0 ==> {
                    &&& found.1 <= #[trigger] params.cost(p, q)
                    &&& q < y || (q == y && p < x) ==> found.1 < params.cost(p, q)
                }
        };
    let p = params.po.x + dx;
    let q = params.po.y + dy;
    assert(found.1 <= params.cost(p, q));
    assert(params.defined(x, y) && params.defined(p, q)) by {
        lemma_position_defined(params, grid, x, y);
        lemma_position_defined(params, grid, p, q);
    }
    lemma_cost_near(params, x, y);
    lemma_cost_near(params, p, q);
}

/// The cost of each position of the grid is defined.
proof fn lemma_position_defined<T: Pixel>(
    params: FullSearchParams<T>,
    grid: Grid,
    x: int,
    y: int,
)
    requires
        grid.wf(),
        params.grid_defined(grid),
        crate::full::on_grid(grid, x, y),
    ensures
        params.defined(x, y),
{
    let k = crate::full::lemma_grid_has_position(grid, x, y);
    assert(params.defined(grid.x(k), grid.y(k)));
}

/// The coarsest search finds a displacement of the plane of a quarter of the width and height
/// that costs no more than any other up to 192 pixels to the left or right and 64 up or down at
/// full resolution, times the scale, within the bounds on the vectors of the block. Of equal
/// ones it is the highest, and of these the leftmost. The blocks that are compared are a
/// quarter as wide and high, and lambda is a sixty-fourth.
pub proof fn law_ss4_finds_the_best_displacement<T: Pixel, I: InterPredictor<T>>(
    fi: FrameInvariants<T, I>,
    ts: TileState<'_, T>,
    rec: ReferenceFrame<T>,
    bsize: BlockSize,
    tile_bo_adj: BlockOffset,
    dx: int,
    dy: int,
)
    requires
        ss4_defined(fi, ts, rec, bsize, tile_bo_adj),
        -(192 * fi.me_range_scale) <= 4 * dx <= 192 * fi.me_range_scale,
        -(64 * fi.me_range_scale) <= 4 * dy <= 64 * fi.me_range_scale,
        ({
            let range = block_range(fi, ts, tile_bo_adj, bsize);
            &&& range.x_min <= 8 * (4 * dx) <= range.x_max
            &&& range.y_min <= 8 * (4 * dy) <= range.y_max
        }),
    ensures
        ({
            let x = ts.origin.x + tile_bo_adj.x;
            let y = ts.origin.y + tile_bo_adj.y;
            let cost = |right: int, down: int|
                rd_cost(
                    block_sad(
                        ts.input_qres.pixels_from(x, y),
                        rec.input_qres.pixels_from(x + right, y + down),
                        (bsize.dimensions().0 / 4) as nat,
                        (bsize.dimensions().1 / 4) as nat,
                    ),
                    MotionVector { row: (8 * down) as i16, col: (8 * right) as i16 },
                    [MotionVector { row: 0, col: 0 }, MotionVector { row: 0, col: 0 }],
                    scaled_lambda(fi.me_lambda, 64),
                    fi.allow_high_precision_mv,
                );
            let mv = ss4_outcome(fi, ts, rec, bsize, tile_bo_adj);
            let right = mv.col as int / 8;
            let down = mv.row as int / 8;
            let range = block_range(fi, ts, tile_bo_adj, bsize);
            &&& mv.col == 8 * right && mv.row == 8 * down
            &&& -(192 * fi.me_range_scale) <= 4 * right <= 192 * fi.me_range_scale
            &&& -(64 * fi.me_range_scale) <= 4 * down <= 64 * fi.me_range_scale
            &&& range.x_min <= 8 * (4 * right) <= range.x_max
            &&& range.y_min <= 8 * (4 * down) <= range.y_max
            &&& cost(right, down) <= cost(dx, dy)
            &&& dy < down || (dy == down && dx < right) ==> cost(right, down) < cost(dx, dy)
        }),
{
    let po = ts.frame_bo(tile_bo_adj).pixel_offset(1);
    let range = block_range(fi, ts, tile_bo_adj, bsize);
    let (blk_w, blk_h) = bsize.dimensions();
    let params = quarter_params(fi, ts, rec, po, blk_w, blk_h);
    let grid = quarter_grid(po, range, fi.me_range_scale);
    lemma_quarter_bounds_near(po.x, 192 * fi.me_range_scale, range.x_min, range.x_max);
    lemma_quarter_bounds_near(po.y, 64 * fi.me_range_scale, range.y_min, range.y_max);
    assert((blk_w / 4) * (blk_h / 4) <= 32 * 32) by (nonlinear_arith)
        requires
            blk_w <= 128,
            blk_h <= 128,
    ;
    lemma_best_displacement(params, grid, dx, dy);
    law_ss4_vector_in_range(fi, ts, rec, bsize, tile_bo_adj);
    assert([zero_mv(), zero_mv()] =~= [
        MotionVector { row: 0, col: 0 },
        MotionVector { row: 0, col: 0 },
    ]);
}

/// The search over whole pixels finds a displacement that costs no more than any other within
/// sixteen pixels of the coarse vector, in steps of two pixels from the first, as far as the
/// bounds on vectors allow, and is one of these. Of equal ones it is the highest, and of these
/// the leftmost.
pub proof fn law_full_search_stage_finds_the_best_displacement<T: Pixel, I: InterPredictor<T>>(
    start: (MotionVector, u64),
    fi: FrameInvariants<T, I>,
    ts: TileState<'_, T>,
    rec: ReferenceFrame<T>,
    tile_bo: BlockOffset,
    lambda: u32,
    cmv: MotionVector,
    pmv: [MotionVector; 2],
    range: MvRange,
    blk_w: usize,
    blk_h: usize,
    ref_frame: RefType,
    dx: int,
    dy: int,
)
    requires
        FullSearch::full_pixel_defined(
            fi,
            ts,
            rec,
            tile_bo,
            lambda,
            cmv,
            pmv,
            range,
            blk_w,
            blk_h,
            ref_frame,
        ),
        range.contains(zero_mv()),
        ({
            let col = trunc_div(cmv.col as int, 8);
            let row = trunc_div(cmv.row as int, 8);
            let first_x = bounded_pixels(col - 16, range.x_min, range.x_max);
            let first_y = bounded_pixels(row - 16, range.y_min, range.y_max);
            &&& first_x <= dx <= bounded_pixels(col + 16, range.x_min, range.x_max)
            &&& first_y <= dy <= bounded_pixels(row + 16, range.y_min, range.y_max)
            &&& (dx - first_x) % 2 == 0 && (dy - first_y) % 2 == 0
        }),
    ensures
        ({
            let x = 4 * (ts.origin.x + tile_bo.x);
            let y = 4 * (ts.origin.y + tile_bo.y);
            let cost = |right: int, down: int|
                rd_cost(
                    block_sad(
                        ts.input.pixels_from(x, y),
                        rec.frame.pixels_from(x + right, y + down),
                        blk_w as nat,
                        blk_h as nat,
                    ),
                    MotionVector { row: (8 * down) as i16, col: (8 * right) as i16 },
                    pmv,
                    lambda,
                    fi.allow_high_precision_mv,
                );
            let found = FullSearch::full_pixel_outcome(
                start,
                fi,
                ts,
                rec,
                tile_bo,
                lambda,
                cmv,
                pmv,
                range,
                blk_w,
                blk_h,
                ref_frame,
            );
            let right = found.0.col as int / 8;
            let down = found.0.row as int / 8;
            let first_x = bounded_pixels(
                trunc_div(cmv.col as int, 8) - 16,
                range.x_min,
                range.x_max,
            );
            let first_y = bounded_pixels(
                trunc_div(cmv.row as int, 8) - 16,
                range.y_min,
                range.y_max,
            );
            &&& (right - first_x) % 2 == 0 && (down - first_y) % 2 == 0
            &&& first_x <= right && right <= bounded_pixels(
                trunc_div(cmv.col as int, 8) + 16,
                range.x_min,
                range.x_max,
            )
            &&& first_y <= down && down <= bounded_pixels(
                trunc_div(cmv.row as int, 8) + 16,
                range.y_min,
                range.y_max,
            )
            &&& found.0.col == 8 * right && found.0.row == 8 * down
            &&& found.1 == cost(right, down)
            &&& found.1 <= cost(dx, dy)
            &&& dy < down || (dy == down && dx < right) ==> found.1 < cost(dx, dy)
        }),
{
    let params = FullSearch::full_params(fi, ts, rec, tile_bo, lambda, pmv, blk_w, blk_h);
    let grid = FullSearch::grid(params.po, cmv, range, 1, 2);
    lemma_bounds_near(params.po.x, cmv.col, range.x_min, range.x_max, 1);
    lemma_bounds_near(params.po.y, cmv.row, range.y_min, range.y_max, 1);
    lemma_best_displacement(params, grid, dx, dy);
}

/// The search over all positions at half resolution goes by the last of the vectors that is
/// there. It finds a displacement of the plane of half the width and height that costs no more
/// than any other within sixteen pixels of that vector at full resolution, as far as the bounds
/// on vectors allow, and is one of these. Of equal ones it is the highest, and of these the
/// leftmost. The blocks that are compared are half as wide and high.
pub proof fn law_full_search_half_stage_finds_the_best_displacement<
    T: Pixel,
    I: InterPredictor<T>,
>(
    start: (MotionVector, u64),
    fi: FrameInvariants<T, I>,
    ts: TileState<'_, T>,
    pmvs: [Option<MotionVector>; 3],
    tile_bo_adj: BlockOffset,
    tile_mvs: TileMotionVectors<'_>,
    frame_ref_opt: Option<&ReferenceFrame<T>>,
    rec: ReferenceFrame<T>,
    global_mv: [MotionVector; 2],
    lambda: u32,
    range: MvRange,
    blk_w: usize,
    blk_h: usize,
    k: int,
    pmv: MotionVector,
    dx: int,
    dy: int,
)
    requires
        FullSearch::ss2_defined(
            fi,
            ts,
            pmvs,
            tile_bo_adj,
            tile_mvs,
            frame_ref_opt,
            rec,
            global_mv,
            lambda,
            range,
            blk_w,
            blk_h,
        ),
        range.contains(zero_mv()),
        0 <= k < 3,
        pmvs[k] == Some(pmv),
        forall|m: int| k < m < 3 ==> (#[trigger] pmvs[m]) is None,
        ({
            let col = trunc_div(pmv.col as int, 8);
            let row = trunc_div(pmv.row as int, 8);
            &&& bounded_pixels(col - 16, range.x_min, range.x_max) / 2 <= dx
            &&& dx <= bounded_pixels(col + 16, range.x_min, range.x_max) / 2
            &&& bounded_pixels(row - 16, range.y_min, range.y_max) / 2 <= dy
            &&& dy <= bounded_pixels(row + 16, range.y_min, range.y_max) / 2
        }),
    ensures
        ({
            let x = 2 * (ts.origin.x + tile_bo_adj.x);
            let y = 2 * (ts.origin.y + tile_bo_adj.y);
            let cost = |right: int, down: int|
                rd_cost(
                    block_sad(
                        ts.input_hres.pixels_from(x, y),
                        rec.input_hres.pixels_from(x + right, y + down),
                        (blk_w / 2) as nat,
                        (blk_h / 2) as nat,
                    ),
                    MotionVector { row: (8 * down) as i16, col: (8 * right) as i16 },
                    [MotionVector { row: 0, col: 0 }, MotionVector { row: 0, col: 0 }],
                    lambda,
                    fi.allow_high_precision_mv,
                );
            let found = FullSearch::ss2_outcome(
                start,
                fi,
                ts,
                pmvs,
                tile_bo_adj,
                tile_mvs,
                frame_ref_opt,
                rec,
                global_mv,
                lambda,
                range,
                blk_w,
                blk_h,
            );
            let right = found.0.col as int / 8;
            let down = found.0.row as int / 8;
            let col = trunc_div(pmv.col as int, 8);
            let row = trunc_div(pmv.row as int, 8);
            &&& bounded_pixels(col - 16, range.x_min, range.x_max) / 2 <= right
            &&& right <= bounded_pixels(col + 16, range.x_min, range.x_max) / 2
            &&& bounded_pixels(row - 16, range.y_min, range.y_max) / 2 <= down
            &&& down <= bounded_pixels(row + 16, range.y_min, range.y_max) / 2
            &&& found.0.col == 8 * right && found.0.row == 8 * down
            &&& found.1 == cost(right, down)
            &&& found.1 <= cost(dx, dy)
            &&& dy < down || (dy == down && dx < right) ==> found.1 < cost(dx, dy)
        }),
{
    let po = ts.frame_bo(tile_bo_adj).pixel_offset(2);
    let params = FullSearch::half_params(fi, ts, rec, po, lambda, blk_w, blk_h);
    let grid = FullSearch::grid(po, pmv, range, 2, 1);
    let outcome_of = |mv: MotionVector| params.outcome(FullSearch::grid(po, mv, range, 2, 1));
    assert forall|m: int| k + 1 <= m < pmvs@.len() implies (#[trigger] pmvs@[m]) is None by {
        assert(pmvs[m] is None);
    }
    law_last_vector_counts(start, pmvs@, outcome_of, k + 1);
    assert(pmvs@[k] == Some(pmv));
    lemma_bounds_near(po.x, pmv.col, range.x_min, range.x_max, 2);
    lemma_bounds_near(po.y, pmv.row, range.y_min, range.y_max, 2);
    assert(params.grid_defined(grid));
    lemma_best_displacement(params, grid, dx, dy);
    assert([zero_mv(), zero_mv()] =~= [
        MotionVector { row: 0, col: 0 },
        MotionVector { row: 0, col: 0 },
    ]);
}

/// The refinement of a vector after the search over all positions goes by the costs that count
/// fractions, for the block of the luma plane.
pub proof fn law_full_search_stage_refines<T: Pixel, I: InterPredictor<T>>(
    start: (MotionVector, u64),
    fi: FrameInvariants<T, I>,
    ts: TileState<'_, T>,
    rec: ReferenceFrame<T>,
    tile_bo: BlockOffset,
    lambda: u32,
    pmv: [MotionVector; 2],
    range: MvRange,
    blk_w: usize,
    blk_h: usize,
    ref_frame: RefType,
)
    ensures
        FullSearch::sub_pixel_outcome(
            start,
            fi,
            ts,
            rec,
            tile_bo,
            lambda,
            pmv,
            range,
            blk_w,
            blk_h,
            ref_frame,
        ) == telescopic_search(
            start,
            telescopic_steps(fi.allow_high_precision_mv),
            mv_cost(
                true,
                CostParams {
                    pmv,
                    lambda,
                    allow_high_precision_mv: fi.allow_high_precision_mv,
                    range,
                    blk_w,
                    blk_h,
                },
                *ts.input,
                rec.frame,
                fi.predictor,
                ref_frame,
                ts.frame_bo(tile_bo).pixel_offset(4),
            ),
        ),
{
}

/// The parameters of a cost, put together.
pub proof fn law_cost_params(
    allow_high_precision_mv: bool,
    pmv: [MotionVector; 2],
    lambda: u32,
    range: MvRange,
    blk_w: usize,
    blk_h: usize,
)
    ensures
        cost_params(allow_high_precision_mv, pmv, lambda, range, blk_w, blk_h) == (CostParams {
            pmv,
            lambda,
            allow_high_precision_mv,
            range,
            blk_w,
            blk_h,
        }),
{
}

/// The diamond search over whole pixels compares the block of the luma plane with blocks of the
/// reconstructed reference. It ends no dearer than the zero vector, the coarse vector and each
/// other vector to start from, and no vector one pixel away from its end is cheaper.
pub proof fn law_diamond_stage_beats_its_starts<T: Pixel, I: InterPredictor<T>>(
    start: (MotionVector, u64),
    fi: FrameInvariants<T, I>,
    ts: TileState<'_, T>,
    rec: ReferenceFrame<T>,
    tile_bo: BlockOffset,
    lambda: u32,
    cmv: MotionVector,
    pmv: [MotionVector; 2],
    range: MvRange,
    blk_w: usize,
    blk_h: usize,
    ref_frame: RefType,
)
    ensures
        ({
            let cost = mv_cost(
                false,
                CostParams {
                    pmv,
                    lambda,
                    allow_high_precision_mv: fi.allow_high_precision_mv,
                    range,
                    blk_w,
                    blk_h,
                },
                *ts.input,
                rec.frame,
                fi.predictor,
                ref_frame,
                ts.frame_bo(tile_bo).pixel_offset(4),
            );
            let starts = subset_predictors(
                tile_bo,
                cmv,
                ts.mvs@[ref_frame.ref_index()],
                fi.reference(RefType::LAST_FRAME),
                ref_frame.ref_index() as usize,
            );
            let found = DiamondSearch::full_pixel_outcome(
                start,
                fi,
                ts,
                rec,
                tile_bo,
                lambda,
                cmv,
                pmv,
                range,
                blk_w,
                blk_h,
                ref_frame,
            );
            let row = found.0.row;
            let col = found.0.col;
            &&& found == diamond_search(false, fi.allow_high_precision_mv, starts, cost)
            &&& found.1 < u64::MAX ==> found.1 == cost(found.0)
            &&& found.1 <= cost(MotionVector { row: 0, col: 0 })
            &&& found.1 <= cost(cmv.fullpel())
            &&& forall|k: int| 0 <= k < starts.len() ==> found.1 <= cost(#[trigger] starts[k])
            &&& found.1 <= cost(MotionVector { row: (row + 8) as i16, col })
            &&& found.1 <= cost(MotionVector { row: (row - 8) as i16, col })
            &&& found.1 <= cost(MotionVector { row, col: (col + 8) as i16 })
            &&& found.1 <= cost(MotionVector { row, col: (col - 8) as i16 })
        }),
{
    let hp = fi.allow_high_precision_mv;
    let cost = DiamondSearch::cost(
        false,
        fi,
        ts,
        rec,
        tile_bo,
        lambda,
        pmv,
        range,
        blk_w,
        blk_h,
        ref_frame,
    );
    let starts = DiamondSearch::starts(fi, ts, tile_bo, cmv, ref_frame);
    law_diamond_search_ends_at_local_minimum(false, hp, starts, cost);
    law_diamond_search_leaves_nothing_cheaper_beside(false, hp, starts, cost);
    crate::laws::law_subset_predictors_shape(
        tile_bo,
        cmv,
        ts.mvs@[ref_frame.ref_index()],
        fi.reference(RefType::LAST_FRAME),
        ref_frame.ref_index() as usize,
    );
    assert(cost(starts[0]) == cost(MotionVector { row: 0, col: 0 }));
    assert(cost(starts[1]) == cost(cmv.fullpel()));
}

/// The diamond search over fractions of pixels starts from the vector found so far, by the costs
/// that count fractions. It ends no dearer, and no vector as far from its end as vectors are
/// fine is cheaper.
pub proof fn law_diamond_stage_refines<T: Pixel, I: InterPredictor<T>>(
    start: (MotionVector, u64),
    fi: FrameInvariants<T, I>,
    ts: TileState<'_, T>,
    rec: ReferenceFrame<T>,
    tile_bo: BlockOffset,
    lambda: u32,
    pmv: [MotionVector; 2],
    range: MvRange,
    blk_w: usize,
    blk_h: usize,
    ref_frame: RefType,
)
    ensures
        ({
            let cost = mv_cost(
                true,
                CostParams {
                    pmv,
                    lambda,
                    allow_high_precision_mv: fi.allow_high_precision_mv,
                    range,
                    blk_w,
                    blk_h,
                },
                *ts.input,
                rec.frame,
                fi.predictor,
                ref_frame,
                ts.frame_bo(tile_bo).pixel_offset(4),
            );
            let found = DiamondSearch::sub_pixel_outcome(
                start,
                fi,
                ts,
                rec,
                tile_bo,
                lambda,
                pmv,
                range,
                blk_w,
                blk_h,
                ref_frame,
            );
            let row = found.0.row;
            let col = found.0.col;
            let r: int = if fi.allow_high_precision_mv {
                1
            } else {
                2
            };
            &&& found == diamond_search(true, fi.allow_high_precision_mv, seq![start.0], cost)
            &&& found.1 < u64::MAX ==> found.1 == cost(found.0)
            &&& found.1 <= cost(start.0)
            &&& found.1 <= cost(MotionVector { row: (row + r) as i16, col })
            &&& found.1 <= cost(MotionVector { row: (row - r) as i16, col })
            &&& found.1 <= cost(MotionVector { row, col: (col + r) as i16 })
            &&& found.1 <= cost(MotionVector { row, col: (col - r) as i16 })
        }),
{
    let hp = fi.allow_high_precision_mv;
    let cost = DiamondSearch::cost(
        true,
        fi,
        ts,
        rec,
        tile_bo,
        lambda,
        pmv,
        range,
        blk_w,
        blk_h,
        ref_frame,
    );
    let starts = seq![start.0];
    law_diamond_search_ends_at_local_minimum(true, hp, starts, cost);
    law_diamond_search_leaves_nothing_cheaper_beside(true, hp, starts, cost);
    assert(cost(starts[0]) == cost(start.0));
}

/// The diamond search at half resolution goes by the last of the vectors that is there. It
/// compares blocks of half the width and height, within halved bounds, and starts from the
/// halves of the vectors of the neighbours, of zero and of that vector in whole pixels.
pub proof fn law_diamond_half_stage_beats_its_starts<T: Pixel, I: InterPredictor<T>>(
    start: (MotionVector, u64),
    fi: FrameInvariants<T, I>,
    ts: TileState<'_, T>,
    pmvs: [Option<MotionVector>; 3],
    tile_bo_adj: BlockOffset,
    tile_mvs: TileMotionVectors<'_>,
    frame_ref_opt: Option<&ReferenceFrame<T>>,
    rec: ReferenceFrame<T>,
    global_mv: [MotionVector; 2],
    lambda: u32,
    range: MvRange,
    blk_w: usize,
    blk_h: usize,
    k: int,
    pmv: MotionVector,
)
    requires
        0 <= k < 3,
        pmvs[k] == Some(pmv),
        forall|m: int| k < m < 3 ==> (#[trigger] pmvs[m]) is None,
    ensures
        ({
            let cost = mv_cost(
                false,
                CostParams {
                    pmv: global_mv,
                    lambda,
                    allow_high_precision_mv: fi.allow_high_precision_mv,
                    range: range.halved(),
                    blk_w: blk_w / 2,
                    blk_h: blk_h / 2,
                },
                *ts.input_hres,
                rec.input_hres,
                fi.predictor,
                RefType::LAST_FRAME,
                ts.frame_bo(tile_bo_adj).pixel_offset(2),
            );
            let full = subset_predictors(tile_bo_adj, pmv, tile_mvs, frame_ref_opt, 0);
            let found = DiamondSearch::ss2_outcome(
                start,
                fi,
                ts,
                pmvs,
                tile_bo_adj,
                tile_mvs,
                frame_ref_opt,
                rec,
                global_mv,
                lambda,
                range,
                blk_w,
                blk_h,
            );
            let row = found.0.row;
            let col = found.0.col;
            &&& found == diamond_search(
                false,
                fi.allow_high_precision_mv,
                Seq::new(full.len(), |m: int| halved_mv(full[m])),
                cost,
            )
            &&& found.1 < u64::MAX ==> found.1 == cost(found.0)
            &&& forall|m: int|
                0 <= m < full.len() ==> found.1 <= cost(halved_mv(#[trigger] full[m]))
            &&& found.1 <= cost(MotionVector { row: (row + 8) as i16, col })
            &&& found.1 <= cost(MotionVector { row: (row - 8) as i16, col })
            &&& found.1 <= cost(MotionVector { row, col: (col + 8) as i16 })
            &&& found.1 <= cost(MotionVector { row, col: (col - 8) as i16 })
        }),
{
    let hp = fi.allow_high_precision_mv;
    let cost = DiamondSearch::half_cost(
        fi,
        ts,
        rec,
        tile_bo_adj,
        lambda,
        global_mv,
        range,
        blk_w,
        blk_h,
    );
    let outcome_of = |mv: MotionVector|
        diamond_search(
            false,
            hp,
            DiamondSearch::half_starts(tile_bo_adj, mv, tile_mvs, frame_ref_opt),
            cost,
        );
    assert forall|m: int| k + 1 <= m < pmvs@.len() implies (#[trigger] pmvs@[m]) is None by {
        assert(pmvs[m] is None);
    }
    law_last_vector_counts(start, pmvs@, outcome_of, k + 1);
    assert(pmvs@[k] == Some(pmv));
    let full = subset_predictors(tile_bo_adj, pmv, tile_mvs, frame_ref_opt, 0);
    let starts = DiamondSearch::half_starts(tile_bo_adj, pmv, tile_mvs, frame_ref_opt);
    assert(starts =~= Seq::new(full.len(), |m: int| halved_mv(full[m])));
    law_diamond_search_ends_at_local_minimum(false, hp, starts, cost);
    law_diamond_search_leaves_nothing_cheaper_beside(false, hp, starts, cost);
    let found = diamond_search(false, hp, starts, cost);
    assert forall|m: int| 0 <= m < full.len() implies found.1 <= cost(
        halved_mv(#[trigger] full[m]),
    ) by {
        assert(starts[m] == halved_mv(full[m]));
    }
}

/// Without any vector, a search at half resolution leaves what it was given.
pub proof fn law_half_stage_without_vectors<T: Pixel, I: InterPredictor<T>>(
    start: (MotionVector, u64),
    fi: FrameInvariants<T, I>,
    ts: TileState<'_, T>,
    pmvs: [Option<MotionVector>; 3],
    tile_bo_adj: BlockOffset,
    tile_mvs: TileMotionVectors<'_>,
    frame_ref_opt: Option<&ReferenceFrame<T>>,
    rec: ReferenceFrame<T>,
    global_mv: [MotionVector; 2],
    lambda: u32,
    range: MvRange,
    blk_w: usize,
    blk_h: usize,
)
    requires
        forall|m: int| 0 <= m < 3 ==> (#[trigger] pmvs[m]) is None,
    ensures
        DiamondSearch::ss2_outcome(
            start,
            fi,
            ts,
            pmvs,
            tile_bo_adj,
            tile_mvs,
            frame_ref_opt,
            rec,
            global_mv,
            lambda,
            range,
            blk_w,
            blk_h,
        ) == start,
        FullSearch::ss2_outcome(
            start,
            fi,
            ts,
            pmvs,
            tile_bo_adj,
            tile_mvs,
            frame_ref_opt,
            rec,
            global_mv,
            lambda,
            range,
            blk_w,
            blk_h,
        ) == start,
{
    let cost = DiamondSearch::half_cost(
        fi,
        ts,
        rec,
        tile_bo_adj,
        lambda,
        global_mv,
        range,
        blk_w,
        blk_h,
    );
    let by_diamonds = |mv: MotionVector|
        diamond_search(
            false,
            fi.allow_high_precision_mv,
            DiamondSearch::half_starts(tile_bo_adj, mv, tile_mvs, frame_ref_opt),
            cost,
        );
    let po = ts.frame_bo(tile_bo_adj).pixel_offset(2);
    let params = FullSearch::half_params(fi, ts, rec, po, lambda, blk_w, blk_h);
    let by_positions = |mv: MotionVector| params.outcome(FullSearch::grid(po, mv, range, 2, 1));
    assert forall|m: int| 0 <= m < pmvs@.len() implies (#[trigger] pmvs@[m]) is None by {
        assert(pmvs[m] is None);
    }
    law_last_vector_counts(start, pmvs@, by_diamonds, 0);
    law_last_vector_counts(start, pmvs@, by_positions, 0);
}

/// What is left of two lists without the zero vectors is what is left of each.
proof fn lemma_non_zero_concat(a: Seq<MotionVector>, b: Seq<MotionVector>)
    ensures
        non_zero(a + b) == non_zero(a) + non_zero(b),
    decreases b.len(),
{
    if b.len() == 0 {
        assert(a + b =~= a);
        assert(non_zero(a) + non_zero(b) =~= non_zero(a));
    } else {
        assert((a + b).drop_last() =~= a + b.drop_last());
        lemma_non_zero_concat(a, b.drop_last());
        assert(non_zero(a + b) =~= non_zero(a) + non_zero(b));
    }
}

proof fn lemma_non_zero_single(condition: bool, mv: MotionVector)
    ensures
        non_zero(only_if(condition, mv)) == if condition && mv != zero_mv() {
            seq![mv]
        } else {
            seq![]
        },
        row_total(only_if(condition, mv)) == if condition {
            mv.row as int
        } else {
            0
        },
        col_total(only_if(condition, mv)) == if condition {
            mv.col as int
        } else {
            0
        },
{
    reveal_with_fuel(non_zero, 2);
    reveal_with_fuel(row_total, 2);
    reveal_with_fuel(col_total, 2);
    let one = only_if(condition, mv);
    if condition {
        assert(one.drop_last() =~= seq![]);
        assert(one.last() == mv);
        assert(non_zero(one) =~= if mv != zero_mv() {
            seq![mv]
        } else {
            seq![]
        });
    } else {
        assert(one =~= seq![]);
    }
}

proof fn lemma_totals_concat(a: Seq<MotionVector>, b: Seq<MotionVector>)
    ensures
        row_total(a + b) == row_total(a) + row_total(b),
        col_total(a + b) == col_total(a) + col_total(b),
    decreases b.len(),
{
    if b.len() == 0 {
        assert(a + b =~= a);
    } else {
        assert((a + b).drop_last() =~= a + b.drop_last());
        lemma_totals_concat(a, b.drop_last());
    }
}

/// A list of `mv` if it is there and not zero, else an empty one.
spec fn kept(there: bool, mv: MotionVector) -> Seq<MotionVector> {
    if there && mv != zero_mv() {
        seq![mv]
    } else {
        seq![]
    }
}

/// The neighbours in the tile, without the zero vectors, and their mean.
proof fn lemma_spatial_predictors(tile_bo: BlockOffset, tile_mvs: TileMotionVectors<'_>)
    ensures
        ({
            let x = tile_mvs.x + tile_bo.x;
            let y = tile_mvs.y + tile_bo.y;
            let has_left = tile_bo.x > 0;
            let has_top = tile_bo.y > 0;
            let has_corner = tile_bo.y > 0 && tile_bo.x + 1 < tile_mvs.cols;
            let left = tile_mvs.frame_mvs.at(x - 1, y);
            let top = tile_mvs.frame_mvs.at(x, y - 1);
            let corner = tile_mvs.frame_mvs.at(x + 1, y - 1);
            let spatial = spatial_neighbours(tile_bo, tile_mvs);
            &&& non_zero(spatial) == kept(has_left, left) + kept(has_top, top) + kept(
                has_corner,
                corner,
            )
            &&& spatial.len() == (if has_left {
                1int
            } else {
                0
            }) + (if has_top {
                1int
            } else {
                0
            }) + (if has_corner {
                1int
            } else {
                0
            })
            &&& row_total(spatial) == (if has_left {
                left.row as int
            } else {
                0
            }) + (if has_top {
                top.row as int
            } else {
                0
            }) + (if has_corner {
                corner.row as int
            } else {
                0
            })
            &&& col_total(spatial) == (if has_left {
                left.col as int
            } else {
                0
            }) + (if has_top {
                top.col as int
            } else {
                0
            }) + (if has_corner {
                corner.col as int
            } else {
                0
            })
        }),
{
    let x = tile_mvs.x + tile_bo.x;
    let y = tile_mvs.y + tile_bo.y;
    let left = tile_mvs.frame_mvs.at(x - 1, y);
    let top = tile_mvs.frame_mvs.at(x, y - 1);
    let corner = tile_mvs.frame_mvs.at(x + 1, y - 1);
    assert(tile_mvs.at(tile_bo.x - 1, tile_bo.y as int) == left);
    assert(tile_mvs.at(tile_bo.x as int, tile_bo.y - 1) == top);
    assert(tile_mvs.at(tile_bo.x + 1, tile_bo.y - 1) == corner);
    let a = only_if(tile_bo.x > 0, left);
    let b = only_if(tile_bo.y > 0, top);
    let c = only_if(tile_bo.y > 0 && tile_bo.x < tile_mvs.cols - 1, corner);
    assert(spatial_neighbours(tile_bo, tile_mvs) == a + b + c);
    lemma_non_zero_concat(a + b, c);
    lemma_non_zero_concat(a, b);
    lemma_totals_concat(a + b, c);
    lemma_totals_concat(a, b);
    lemma_non_zero_single(tile_bo.x > 0, left);
    lemma_non_zero_single(tile_bo.y > 0, top);
    lemma_non_zero_single(tile_bo.y > 0 && tile_bo.x < tile_mvs.cols - 1, corner);
}

/// The neighbours in another frame, without the zero vectors.
proof fn lemma_temporal_predictors(bo: BlockOffset, mvs: FrameMotionVectors)
    ensures
        ({
            let x = bo.x as int;
            let y = bo.y as int;
            non_zero(temporal_neighbours(bo, mvs)) == kept(x > 0, mvs.at(x - 1, y)) + kept(
                y > 0,
                mvs.at(x, y - 1),
            ) + kept(x + 1 < mvs.cols, mvs.at(x + 1, y)) + kept(
                y + 1 < mvs.rows,
                mvs.at(x, y + 1),
            ) + kept(true, mvs.at(x, y))
        }),
{
    let p = only_if(bo.x > 0, mvs.at(bo.x - 1, bo.y as int));
    let q = only_if(bo.y > 0, mvs.at(bo.x as int, bo.y - 1));
    let r = only_if(bo.x < mvs.cols - 1, mvs.at(bo.x + 1, bo.y as int));
    let s = only_if(bo.y < mvs.rows - 1, mvs.at(bo.x as int, bo.y + 1));
    let t = only_if(true, mvs.at(bo.x as int, bo.y as int));
    assert(temporal_neighbours(bo, mvs) == p + q + r + s + t);
    lemma_non_zero_concat(p + q + r + s, t);
    lemma_non_zero_concat(p + q + r, s);
    lemma_non_zero_concat(p + q, r);
    lemma_non_zero_concat(p, q);
    lemma_non_zero_single(bo.x > 0, mvs.at(bo.x - 1, bo.y as int));
    lemma_non_zero_single(bo.y > 0, mvs.at(bo.x as int, bo.y - 1));
    lemma_non_zero_single(bo.x < mvs.cols - 1, mvs.at(bo.x + 1, bo.y as int));
    lemma_non_zero_single(bo.y < mvs.rows - 1, mvs.at(bo.x as int, bo.y + 1));
    lemma_non_zero_single(true, mvs.at(bo.x as int, bo.y as int));
}

/// All the vectors from which a search starts, in order: zero, the coarse vector in whole
/// pixels, those of the blocks to the left, above, and above to the right in the tile, their
/// mean in whole pixels, and those of the blocks to the left, above, to the right, below and in
/// the same place of the reference frame. All but the first two are left out where they are zero
/// or where there is no such block.
#[verifier::spinoff_prover]
#[verifier::rlimit(60)]
pub proof fn law_all_predictors<T: Pixel>(
    tile_bo: BlockOffset,
    cmv: MotionVector,
    tile_mvs: TileMotionVectors<'_>,
    frame_ref_opt: Option<&ReferenceFrame<T>>,
    ref_frame_id: usize,
)
    requires
        tile_mvs.x + tile_bo.x <= usize::MAX && tile_mvs.y + tile_bo.y <= usize::MAX,
    ensures
        ({
            let unless_zero = |there: bool, mv: MotionVector|
                if there && !(mv.row == 0 && mv.col == 0) {
                    seq![mv]
                } else {
                    seq![]
                };
            let among = |there: bool, number: int|
                if there {
                    number
                } else {
                    0
                };
            let x = tile_mvs.x + tile_bo.x;
            let y = tile_mvs.y + tile_bo.y;
            let has_left = tile_bo.x > 0;
            let has_top = tile_bo.y > 0;
            let has_corner = tile_bo.y > 0 && tile_bo.x + 1 < tile_mvs.cols;
            let left = tile_mvs.frame_mvs.at(x - 1, y);
            let top = tile_mvs.frame_mvs.at(x, y - 1);
            let corner = tile_mvs.frame_mvs.at(x + 1, y - 1);
            let n = among(has_left, 1) + among(has_top, 1) + among(has_corner, 1);
            let rows = among(has_left, left.row as int) + among(has_top, top.row as int) + among(
                has_corner,
                corner.row as int,
            );
            let cols = among(has_left, left.col as int) + among(has_top, top.col as int) + among(
                has_corner,
                corner.col as int,
            );
            let mean = MotionVector {
                row: trunc_div(rows, n) as i16,
                col: trunc_div(cols, n) as i16,
            };
            let before = match frame_ref_opt {
                Some(frame_ref) => {
                    let mvs = frame_ref.frame_mvs@[ref_frame_id as int];
                    unless_zero(x > 0, mvs.at(x - 1, y)) + unless_zero(y > 0, mvs.at(x, y - 1))
                        + unless_zero(x + 1 < mvs.cols, mvs.at(x + 1, y)) + unless_zero(
                        y + 1 < mvs.rows,
                        mvs.at(x, y + 1),
                    ) + unless_zero(true, mvs.at(x, y))
                },
                None => seq![],
            };
            subset_predictors(tile_bo, cmv, tile_mvs, frame_ref_opt, ref_frame_id) == seq![
                MotionVector { row: 0, col: 0 },
                cmv.fullpel(),
            ] + unless_zero(has_left, left) + unless_zero(has_top, top) + unless_zero(
                has_corner,
                corner,
            ) + unless_zero(n > 0, mean.fullpel()) + before
        }),
{
    let spatial = spatial_neighbours(tile_bo, tile_mvs);
    let bo = frame_block_offset(tile_bo, tile_mvs);
    lemma_spatial_predictors(tile_bo, tile_mvs);
    lemma_non_zero_single(spatial.len() > 0, mean_mv(spatial).fullpel());
    if let Some(frame_ref) = frame_ref_opt {
        lemma_temporal_predictors(bo, frame_ref.frame_mvs@[ref_frame_id as int]);
    }
    let x = tile_mvs.x + tile_bo.x;
    let y = tile_mvs.y + tile_bo.y;
    let left = kept(tile_bo.x > 0, tile_mvs.frame_mvs.at(x - 1, y));
    let top = kept(tile_bo.y > 0, tile_mvs.frame_mvs.at(x, y - 1));
    let corner = kept(
        tile_bo.y > 0 && tile_bo.x + 1 < tile_mvs.cols,
        tile_mvs.frame_mvs.at(x + 1, y - 1),
    );
    let first = seq![zero_mv(), cmv.fullpel()];
    assert(first + (left + top + corner) =~= first + left + top + corner);
}

/// Halving a list of vectors halves each of them.
pub proof fn law_halved_vectors(mvs: Seq<MotionVector>, k: int)
    requires
        0 <= k < mvs.len(),
    ensures
        halved_mvs(mvs).len() == mvs.len(),
        halved_mvs(mvs)[k] == halved_mv(mvs[k]),
{
}

} // verus!
