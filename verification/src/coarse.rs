//! The coarsest search, in planes of a quarter of the width and height.
use crate::frame::{
    scale_lambda, scaled_lambda, FrameInvariants, InterPredictor, ReferenceFrame, TileState,
};
use crate::full::{full_search, FullSearchParams, Grid};
use crate::geometry::{
    adjust_bo, adjusted_bo, get_mv_range, BlockOffset, BlockSize, MvRange, PlaneOffset,
};
use crate::me::{
    adjustable, block_range, block_range_defined, can_scale, position_defined, scaled_mv,
};
use crate::mv::{zero_mv, MotionVector};
use crate::num::{fits_isize, max_int, min_int, quarter_isize, trunc_div};
use crate::plane::Pixel;
use vstd::prelude::*;

verus! {

/// The least and the greatest position of a search around `start`, both columns or both
/// rows: up to `reach` pixels of the full plane away, within the bounds on vectors.
pub open spec fn quarter_bounds(start: isize, reach: int, low: isize, high: isize) -> (int, int) {
    (
        start + max_int(-reach, trunc_div(low as int, 8)) / 4,
        start + min_int(reach, trunc_div(high as int, 8)) / 4,
    )
}

/// The positions that are tried for a block at `po`: up to 192 pixels to the left and
/// right and 64 up and down, times `scale`.
pub open spec fn quarter_grid(po: PlaneOffset, range: MvRange, scale: u8) -> Grid {
    let columns = quarter_bounds(po.x, 192 * scale, range.x_min, range.x_max);
    let rows = quarter_bounds(po.y, 64 * scale, range.y_min, range.y_max);
    Grid {
        x_lo: columns.0 as isize,
        x_hi: columns.1 as isize,
        y_lo: rows.0 as isize,
        y_hi: rows.1 as isize,
        step: 1,
    }
}

/// Whether these positions can be represented.
pub open spec fn quarter_grid_fits(po: PlaneOffset, range: MvRange, scale: u8) -> bool {
    let columns = quarter_bounds(po.x, 192 * scale, range.x_min, range.x_max);
    let rows = quarter_bounds(po.y, 64 * scale, range.y_min, range.y_max);
    &&& fits_isize(columns.0) && fits_isize(columns.1)
    &&& fits_isize(rows.0) && fits_isize(rows.1)
}

/// The search at a quarter of the resolution, for a block at `po`.
pub open spec fn quarter_params<T: Pixel, I: InterPredictor<T>>(
    fi: FrameInvariants<T, I>,
    ts: TileState<'_, T>,
    rec: ReferenceFrame<T>,
    po: PlaneOffset,
    blk_w: usize,
    blk_h: usize,
) -> FullSearchParams<T> {
    FullSearchParams {
        p_org: *ts.input_qres,
        p_ref: rec.input_qres,
        po,
        blk_w: blk_w / 4,
        blk_h: blk_h / 4,
        lambda: scaled_lambda(fi.me_lambda, 64),
        pmv: [zero_mv(), zero_mv()],
        allow_high_precision_mv: fi.allow_high_precision_mv,
    }
}

/// The vector that the search finds, at a quarter of the resolution.
pub open spec fn ss4_outcome<T: Pixel, I: InterPredictor<T>>(
    fi: FrameInvariants<T, I>,
    ts: TileState<'_, T>,
    rec: ReferenceFrame<T>,
    bsize: BlockSize,
    tile_bo_adj: BlockOffset,
) -> MotionVector {
    let po = ts.frame_bo(tile_bo_adj).pixel_offset(1);
    let (blk_w, blk_h) = bsize.dimensions();
    let params = quarter_params(fi, ts, rec, po, blk_w, blk_h);
    params.outcome(
        quarter_grid(po, block_range(fi, ts, tile_bo_adj, bsize), fi.me_range_scale),
    ).0
}

/// Whether the search is defined: the block lies in the frame, all blocks that it is
/// compared with in the reference plane, and the vector fits in 16 bits.
pub open spec fn ss4_defined<T: Pixel, I: InterPredictor<T>>(
    fi: FrameInvariants<T, I>,
    ts: TileState<'_, T>,
    rec: ReferenceFrame<T>,
    bsize: BlockSize,
    tile_bo_adj: BlockOffset,
) -> bool {
    let po = ts.frame_bo(tile_bo_adj).pixel_offset(1);
    let (blk_w, blk_h) = bsize.dimensions();
    let params = quarter_params(fi, ts, rec, po, blk_w, blk_h);
    let range = block_range(fi, ts, tile_bo_adj, bsize);
    &&& position_defined(ts, tile_bo_adj)
    &&& block_range_defined(fi, ts, tile_bo_adj, bsize)
    &&& quarter_grid_fits(po, range, fi.me_range_scale)
    &&& params.grid_defined(quarter_grid(po, range, fi.me_range_scale))
    &&& can_scale(ss4_outcome(fi, ts, rec, bsize, tile_bo_adj), 4)
}

/// The block at `tile_bo`, moved into the tile if it sticks out.
pub open spec fn block_in_tile<T: Pixel>(
    ts: TileState<'_, T>,
    tile_bo: BlockOffset,
    bsize: BlockSize,
) -> BlockOffset {
    adjusted_bo(tile_bo, ts.mi_width, ts.mi_height, bsize.dimensions().0, bsize.dimensions().1)
}

/// Tries all positions around a block at `po`, at a quarter of the resolution.
fn search_quarter<T: Pixel, I: InterPredictor<T>>(
    fi: &FrameInvariants<T, I>,
    ts: &TileState<'_, T>,
    rec: &ReferenceFrame<T>,
    po: PlaneOffset,
    mvx_min: isize,
    mvx_max: isize,
    mvy_min: isize,
    mvy_max: isize,
    blk_w: usize,
    blk_h: usize,
) -> (r: MotionVector)
    requires
        blk_w <= 128 && blk_h <= 128,
        mvx_min <= 0 <= mvx_max && mvy_min <= 0 <= mvy_max,
        quarter_grid_fits(
            po,
            MvRange { x_min: mvx_min, x_max: mvx_max, y_min: mvy_min, y_max: mvy_max },
            fi.me_range_scale,
        ),
        quarter_params(*fi, *ts, *rec, po, blk_w, blk_h).grid_defined(
            quarter_grid(
                po,
                MvRange { x_min: mvx_min, x_max: mvx_max, y_min: mvy_min, y_max: mvy_max },
                fi.me_range_scale,
            ),
        ),
    ensures
        r == quarter_params(*fi, *ts, *rec, po, blk_w, blk_h).outcome(
            quarter_grid(
                po,
                MvRange { x_min: mvx_min, x_max: mvx_max, y_min: mvy_min, y_max: mvy_max },
                fi.me_range_scale,
            ),
        ).0,
{
    let range_x: isize = 192 * fi.me_range_scale as isize;
    let range_y: isize = 64 * fi.me_range_scale as isize;
    let x_lo: isize = po.x + quarter_isize((-range_x).max(mvx_min / 8));
    let x_hi: isize = po.x + quarter_isize(range_x.min(mvx_max / 8));
    let y_lo: isize = po.y + quarter_isize((-range_y).max(mvy_min / 8));
    let y_hi: isize = po.y + quarter_isize(range_y.min(mvy_max / 8));

    let mut lowest_cost: u64 = u64::MAX;
    let mut best_mv: MotionVector = MotionVector::default();

    // A sixteenth accounts for subsampling, a further quarter is a fudge factor
    let lambda: u32 = scale_lambda(fi.me_lambda, 64);
    let no_mvs: [MotionVector; 2] = [MotionVector::default(), MotionVector::default()];
    assert(no_mvs =~= [zero_mv(), zero_mv()]);
    proof {
        assert((blk_w / 4) * (blk_h / 4) <= 32 * 32) by (nonlinear_arith)
            requires
                blk_w <= 128,
                blk_h <= 128,
        ;
    }
    full_search(
        x_lo,
        x_hi,
        y_lo,
        y_hi,
        blk_h / 4,
        blk_w / 4,
        ts.input_qres,
        &rec.input_qres,
        &mut best_mv,
        &mut lowest_cost,
        po,
        1,
        lambda,
        no_mvs,
        fi.allow_high_precision_mv,
    );
    best_mv
}

/// Finds a coarse vector of a block by trying all positions around it at a quarter of
/// the resolution, and gives it at full resolution. The block is moved into the tile if
/// it sticks out. Without the reference frame in slot `ref_idx` there is no vector.
pub fn estimate_motion_ss4<T: Pixel, I: InterPredictor<T>>(
    fi: &FrameInvariants<T, I>,
    ts: &TileState<'_, T>,
    bsize: BlockSize,
    ref_idx: usize,
    tile_bo: BlockOffset,
) -> (r: Option<MotionVector>)
    requires
        ref_idx < 8,
        fi.slot(ref_idx as int) matches Some(rec) ==> {
            &&& adjustable(*ts, tile_bo)
            &&& ss4_defined(*fi, *ts, *rec, bsize, block_in_tile(*ts, tile_bo, bsize))
        },
    ensures
        r == match fi.slot(ref_idx as int) {
            Some(rec) => Some(
                scaled_mv(
                    ss4_outcome(*fi, *ts, *rec, bsize, block_in_tile(*ts, tile_bo, bsize)),
                    4,
                ),
            ),
            None => None,
        },
{
    if let Some(rec) = fi.frame_in_slot(ref_idx) {
        let blk_w: usize = bsize.width();
        let blk_h: usize = bsize.height();
        let tile_bo_adj = adjust_bo(tile_bo, ts.mi_width, ts.mi_height, blk_w, blk_h);
        let frame_bo_adj = ts.to_frame_block_offset(tile_bo_adj);
        let po = frame_bo_adj.to_quarter_plane_offset();

        let (mvx_min, mvx_max, mvy_min, mvy_max) = get_mv_range(
            fi.w_in_b,
            fi.h_in_b,
            frame_bo_adj,
            blk_w,
            blk_h,
        );
        assert(block_range(*fi, *ts, tile_bo_adj, bsize) == (MvRange {
            x_min: mvx_min,
            x_max: mvx_max,
            y_min: mvy_min,
            y_max: mvy_max,
        }));
        let best_mv: MotionVector = search_quarter(
            fi,
            ts,
            rec,
            po,
            mvx_min,
            mvx_max,
            mvy_min,
            mvy_max,
            blk_w,
            blk_h,
        );
        Some(MotionVector { row: best_mv.row * 4, col: best_mv.col * 4 })
    } else {
        None
    }
}

} // verus!
