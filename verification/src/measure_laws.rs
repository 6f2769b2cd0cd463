//! What bounds, rates, distances and costs are, in plain numbers: what each of them must
//! satisfy, whatever way it is computed.
use crate::coarse::block_in_tile;
use crate::cost::{
    codable, codable_range, codable_span, full_pixel_target, mv_cost, mv_cost_defined, rd_cost,
    scratch_predicted, CostParams,
};
use crate::exhaustive::bounded_pixels;
use crate::frame::{
    scaled_lambda, FrameInvariants, FrameMotionVectors, InterPredictor, ReferenceFrame,
    TileMotionVectors, TileState, WholePixelPredictor,
};
use crate::full::{position_in_reach, position_mv, same_window, FullSearchParams};
use crate::geometry::{
    adjusted, adjusted_bo, mv_border, mv_high, mv_low, mv_range_of, BlockOffset, BlockSize,
    MvRange, PlaneOffset, RefType,
};
use crate::me::{adjustable, block_range, can_scale, position_defined, scaled_mv};
use crate::mv::{codable_diff, codable_mv, component_rate, mv_rate, zero_mv, MotionVector};
use crate::num::{
    abs_int, bit_length, fits_i16, fits_isize, max_int, min_int, trunc_div, wrap16,
};
use crate::plane::{block_sad, row_sad, searchable, sum_below, Pixel, Plane};
use crate::predictors::{
    col_total, halved_mv, row_total, spatial_neighbours, subset_predictors_defined,
};
use crate::search::{cheapest, last_in_range, room_in_range, scratch_compared};
use vstd::arithmetic::power2::{lemma_pow2_unfold, pow2};
use vstd::prelude::*;

verus! {

/// The quotient of a truncating division, multiplied again, is short of the dividend by less
/// than the divisor, on the side of zero.
pub proof fn law_truncating_division(a: int, b: int)
    requires
        b > 0,
    ensures
        a >= 0 ==> a - b < b * trunc_div(a, b) <= a,
        a <= 0 ==> a <= b * trunc_div(a, b) < a + b,
        a >= 0 ==> trunc_div(a, b) >= 0,
        a <= 0 ==> trunc_div(a, b) <= 0,
{
    let n = if a >= 0 {
        a
    } else {
        -a
    };
    vstd::arithmetic::div_mod::lemma_fundamental_div_mod(n, b);
    vstd::arithmetic::div_mod::lemma_mod_bound(n, b);
    vstd::arithmetic::div_mod::lemma_div_pos_is_pos(n, b);
    assert(b * (-(n / b)) == -(b * (n / b))) by (nonlinear_arith);
}

/// Narrowing to 16 bits gives a number of 16 bits that differs by a multiple of their range;
/// a number of 16 bits stays as it is.
pub proof fn law_narrowing(a: int)
    ensures
        -32768 <= wrap16(a) <= 32767,
        (a - wrap16(a)) % 65536 == 0,
        -32768 <= a <= 32767 ==> wrap16(a) == a,
        fits_i16(a) <==> -32768 <= a <= 32767,
{
}

/// The larger and the smaller of two numbers, and the magnitude of one.
pub proof fn law_larger_and_smaller(a: int, b: int)
    ensures
        max_int(a, b) >= a && max_int(a, b) >= b && (max_int(a, b) == a || max_int(a, b) == b),
        min_int(a, b) <= a && min_int(a, b) <= b && (min_int(a, b) == a || min_int(a, b) == b),
        abs_int(a) >= 0 && (abs_int(a) == a || abs_int(a) == -a),
        fits_isize(a) <==> isize::MIN <= a <= isize::MAX,
{
}

/// Rounding to whole pixels gives multiples of eight eighths, less than a pixel nearer to zero.
pub proof fn law_whole_pixels(mv: MotionVector)
    ensures
        mv.fullpel().row as int % 8 == 0 && mv.fullpel().col as int % 8 == 0,
        mv.row >= 0 ==> mv.row - 8 < mv.fullpel().row <= mv.row,
        mv.row <= 0 ==> mv.row <= mv.fullpel().row < mv.row + 8,
        mv.col >= 0 ==> mv.col - 8 < mv.fullpel().col <= mv.col,
        mv.col <= 0 ==> mv.col <= mv.fullpel().col < mv.col + 8,
        zero_mv().row == 0 && zero_mv().col == 0,
{
    law_truncating_division(mv.row as int, 8);
    law_truncating_division(mv.col as int, 8);
}

/// Halving a vector rounds both components down; so does halving bounds.
pub proof fn law_halving(mv: MotionVector, range: MvRange)
    ensures
        2 * halved_mv(mv).row <= mv.row < 2 * halved_mv(mv).row + 2,
        2 * halved_mv(mv).col <= mv.col < 2 * halved_mv(mv).col + 2,
        2 * range.halved().x_min <= range.x_min < 2 * range.halved().x_min + 2,
        2 * range.halved().x_max <= range.x_max < 2 * range.halved().x_max + 2,
        2 * range.halved().y_min <= range.y_min < 2 * range.halved().y_min + 2,
        2 * range.halved().y_max <= range.y_max < 2 * range.halved().y_max + 2,
{
}

/// A vector that can be scaled up is so in both components.
pub proof fn law_scaling(mv: MotionVector, scale: int)
    ensures
        can_scale(mv, scale) <==> -32768 <= scale * mv.row <= 32767 && -32768 <= scale * mv.col
            <= 32767,
        can_scale(mv, scale) ==> scaled_mv(mv, scale).row == scale * mv.row && scaled_mv(
            mv,
            scale,
        ).col == scale * mv.col,
{
}

/// A number of `n` binary digits lies between two powers of two.
proof fn lemma_bit_length_powers(x: nat)
    ensures
        x < pow2(bit_length(x)),
        x > 0 ==> bit_length(x) > 0 && pow2((bit_length(x) - 1) as nat) <= x,
    decreases x,
{
    if x == 0 {
        vstd::arithmetic::power2::lemma2_to64();
    } else {
        lemma_bit_length_powers(x / 2);
        lemma_pow2_unfold(bit_length(x));
        if x == 1 {
            assert(bit_length(0) == 0);
            vstd::arithmetic::power2::lemma2_to64();
        } else {
            lemma_pow2_unfold((bit_length(x) - 1) as nat);
        }
    }
}

/// The bits that a difference costs are twice the number of binary digits of its magnitude:
/// half of them is the least exponent of a power of two beyond it. Without high precision the
/// difference is halved first, rounding down.
pub proof fn law_rate_counts_digits(diff: int, hp: bool)
    ensures
        ({
            let magnitude = if hp {
                abs_int(diff)
            } else {
                abs_int(diff / 2)
            };
            let digits = component_rate(diff, hp) / 2;
            &&& component_rate(diff, hp) == 2 * digits
            &&& digits >= 0
            &&& magnitude < pow2(digits as nat)
            &&& magnitude == 0 ==> digits == 0
            &&& magnitude > 0 ==> digits > 0 && pow2((digits - 1) as nat) <= magnitude
        }),
{
    let magnitude = if hp {
        abs_int(diff)
    } else {
        abs_int(diff / 2)
    };
    lemma_bit_length_powers(magnitude as nat);
    assert(bit_length(0) == 0);
}

/// The bits of a vector are those of its two components, each after the predicted one; it can
/// be coded if both differences fit in 16 bits, the least number left out where its magnitude
/// is needed.
pub proof fn law_rate_of_both_components(a: MotionVector, b: MotionVector, hp: bool)
    ensures
        mv_rate(a, b, hp) == component_rate(a.row - b.row, hp) + component_rate(
            a.col - b.col,
            hp,
        ),
        codable_mv(a, b, hp) <==> {
            &&& -32768 <= a.row - b.row <= 32767 && (hp ==> a.row - b.row != -32768)
            &&& -32768 <= a.col - b.col <= 32767 && (hp ==> a.col - b.col != -32768)
        },
{
}

/// Both predictions must be able to code a vector; bounds can be coded if both ends can.
pub proof fn law_codable_from_both_predictions(
    mv: MotionVector,
    pmv: [MotionVector; 2],
    range: MvRange,
    hp: bool,
)
    ensures
        codable(mv, pmv, hp) <==> codable_mv(mv, pmv[0], hp) && codable_mv(mv, pmv[1], hp),
        codable_range(range, pmv, hp) <==> {
            &&& codable_diff(range.x_min - pmv[0].col, hp)
            &&& codable_diff(range.x_max - pmv[0].col, hp)
            &&& codable_diff(range.y_min - pmv[0].row, hp)
            &&& codable_diff(range.y_max - pmv[0].row, hp)
            &&& codable_diff(range.x_min - pmv[1].col, hp)
            &&& codable_diff(range.x_max - pmv[1].col, hp)
            &&& codable_diff(range.y_min - pmv[1].row, hp)
            &&& codable_diff(range.y_max - pmv[1].row, hp)
        },
{
    let first = pmv[0];
    let second = pmv[1];
    if codable_range(range, pmv, hp) {
        assert(codable_span(range.x_min as int, range.x_max as int, first.col, hp));
        assert(codable_span(range.x_min as int, range.x_max as int, second.col, hp));
    } else {
        let k = choose|k: int|
            0 <= k < 2 && !(codable_span(
                range.x_min as int,
                range.x_max as int,
                (#[trigger] pmv[k]).col,
                hp,
            ) && codable_span(range.y_min as int, range.y_max as int, pmv[k].row, hp));
        assert(k == 0 || k == 1);
    }
}

/// The bounds on the vectors of a block are those with which it stays within sixteen pixels
/// and its own size of the frame. A pixel has eight units, a mode-info block four pixels.
pub proof fn law_range_in_numbers(len: int, pos: int, blk: int)
    ensures
        mv_low(pos, blk) == -(8 * (4 * pos)) - 8 * (16 + blk),
        mv_high(len, pos, blk) == 8 * (4 * (len - pos - blk / 4)) + 8 * (16 + blk),
        mv_border(blk) == 8 * (16 + blk),
{
}

/// The bounds on the vector of a block of a tile, from the place of the block in the frame and
/// the size of both.
pub proof fn law_block_range_in_numbers<T: Pixel, I: InterPredictor<T>>(
    fi: FrameInvariants<T, I>,
    ts: TileState<'_, T>,
    tile_bo: BlockOffset,
    bsize: BlockSize,
)
    requires
        crate::me::block_range_defined(fi, ts, tile_bo, bsize),
    ensures
        ({
            let range = block_range(fi, ts, tile_bo, bsize);
            let x = ts.origin.x + tile_bo.x;
            let y = ts.origin.y + tile_bo.y;
            let w = bsize.dimensions().0 as int;
            let h = bsize.dimensions().1 as int;
            &&& range.x_min == -(32 * x) - (128 + 8 * w)
            &&& range.x_max == 32 * (fi.w_in_b - x - w / 4) + (128 + 8 * w)
            &&& range.y_min == -(32 * y) - (128 + 8 * h)
            &&& range.y_max == 32 * (fi.h_in_b - y - h / 4) + (128 + 8 * h)
        }),
{
}

/// Bounds hold a vector if its column and its row lie between them, the ends included.
pub proof fn law_range_contains(range: MvRange, mv: MotionVector)
    ensures
        range.contains(mv) <==> {
            &&& range.x_min <= mv.col && mv.col <= range.x_max
            &&& range.y_min <= mv.row && mv.row <= range.y_max
        },
{
}

/// Moving a block into an area gives the last position, not beyond the one it had, at which it
/// ends within the area; the first position of all if there is none.
pub proof fn law_adjusted_position_is_the_last(pos: int, len: int, blk: int, other: int)
    requires
        0 <= pos,
        0 <= other <= pos,
        other + blk / 4 <= len,
    ensures
        other <= adjusted(pos, len, blk) <= pos,
        adjusted(pos, len, blk) + blk / 4 <= len,
{
}

/// A block that does not fit in an area is moved to its first position; columns go by widths
/// and rows by heights.
pub proof fn law_adjusted_block(
    bo: BlockOffset,
    mi_width: usize,
    mi_height: usize,
    blk_w: usize,
    blk_h: usize,
)
    ensures
        ({
            let r = adjusted_bo(bo, mi_width, mi_height, blk_w, blk_h);
            &&& r.x == adjusted(bo.x as int, mi_width as int, blk_w as int)
            &&& r.y == adjusted(bo.y as int, mi_height as int, blk_h as int)
            &&& mi_width < blk_w / 4 ==> r.x == 0
            &&& mi_height < blk_h / 4 ==> r.y == 0
        }),
{
}

/// A block size is called by its width and height.
pub proof fn law_block_sizes()
    ensures
        BlockSize::BLOCK_4X4.dimensions() == (4usize, 4usize),
        BlockSize::BLOCK_4X8.dimensions() == (4usize, 8usize),
        BlockSize::BLOCK_8X4.dimensions() == (8usize, 4usize),
        BlockSize::BLOCK_8X8.dimensions() == (8usize, 8usize),
        BlockSize::BLOCK_8X16.dimensions() == (8usize, 16usize),
        BlockSize::BLOCK_16X8.dimensions() == (16usize, 8usize),
        BlockSize::BLOCK_16X16.dimensions() == (16usize, 16usize),
        BlockSize::BLOCK_16X32.dimensions() == (16usize, 32usize),
        BlockSize::BLOCK_32X16.dimensions() == (32usize, 16usize),
        BlockSize::BLOCK_32X32.dimensions() == (32usize, 32usize),
        BlockSize::BLOCK_32X64.dimensions() == (32usize, 64usize),
        BlockSize::BLOCK_64X32.dimensions() == (64usize, 32usize),
        BlockSize::BLOCK_64X64.dimensions() == (64usize, 64usize),
        BlockSize::BLOCK_64X128.dimensions() == (64usize, 128usize),
        BlockSize::BLOCK_128X64.dimensions() == (128usize, 64usize),
        BlockSize::BLOCK_128X128.dimensions() == (128usize, 128usize),
        BlockSize::BLOCK_4X16.dimensions() == (4usize, 16usize),
        BlockSize::BLOCK_16X4.dimensions() == (16usize, 4usize),
        BlockSize::BLOCK_8X32.dimensions() == (8usize, 32usize),
        BlockSize::BLOCK_32X8.dimensions() == (32usize, 8usize),
        BlockSize::BLOCK_16X64.dimensions() == (16usize, 64usize),
        BlockSize::BLOCK_64X16.dimensions() == (64usize, 16usize),
{
}

/// The seven references have the places zero to six; the frame itself and nothing have none.
pub proof fn law_reference_places()
    ensures
        RefType::LAST_FRAME.ref_index() == 0,
        RefType::LAST2_FRAME.ref_index() == 1,
        RefType::LAST3_FRAME.ref_index() == 2,
        RefType::GOLDEN_FRAME.ref_index() == 3,
        RefType::BWDREF_FRAME.ref_index() == 4,
        RefType::ALTREF2_FRAME.ref_index() == 5,
        RefType::ALTREF_FRAME.ref_index() == 6,
        forall|r: RefType| #[trigger]
            r.is_inter() <==> r != RefType::INTRA_FRAME && r != RefType::NONE_FRAME,
{
}

/// A reference names the frame in the slot that the list of references has at its place.
pub proof fn law_reference_names_its_slot<T: Pixel, I: InterPredictor<T>>(
    fi: FrameInvariants<T, I>,
    ref_frame: RefType,
    index: int,
)
    ensures
        fi.slot(index) is Some <==> fi.rec_buffer.frames@[index] is Some,
        fi.slot(index) matches Some(frame) ==> *frame == *(fi.rec_buffer.frames@[index]->0),
        fi.reference(ref_frame) == fi.slot(fi.ref_frames@[ref_frame.ref_index()] as int),
        fi.has_slot(ref_frame) <==> fi.ref_frames@[ref_frame.ref_index()] <= 7,
{
}

/// A position in a tile, in the frame, and in planes in which a mode-info block has a given
/// side.
pub proof fn law_positions<T: Pixel>(ts: TileState<'_, T>, tile_bo: BlockOffset, side: int)
    requires
        position_defined(ts, tile_bo),
        side == 1 || side == 2 || side == 4,
    ensures
        ts.frame_bo(tile_bo).x == ts.origin.x + tile_bo.x,
        ts.frame_bo(tile_bo).y == ts.origin.y + tile_bo.y,
        ts.frame_bo(tile_bo).pixel_offset(side).x == side * (ts.origin.x + tile_bo.x),
        ts.frame_bo(tile_bo).pixel_offset(side).y == side * (ts.origin.y + tile_bo.y),
{
    let bo = ts.frame_bo(tile_bo);
    assert(side * bo.x <= 4 * bo.x && side * bo.y <= 4 * bo.y);
}

/// The vectors of a frame lie row after row; those of a tile are a rectangle of them.
pub proof fn law_vectors_lie_row_by_row(
    frame_mvs: FrameMotionVectors,
    tile: TileMotionVectors<'_>,
    x: int,
    y: int,
)
    requires
        frame_mvs.wf(),
        0 <= x < frame_mvs.cols && 0 <= y < frame_mvs.rows,
    ensures
        frame_mvs.mvs@.len() == frame_mvs.cols * frame_mvs.rows,
        frame_mvs.row(y).len() == frame_mvs.cols,
        frame_mvs.row(y)[x] == frame_mvs.mvs@[y * frame_mvs.cols + x],
        frame_mvs.at(x, y) == frame_mvs.mvs@[y * frame_mvs.cols + x],
        tile.at(x, y) == tile.frame_mvs.at(tile.x + x, tile.y + y),
        tile.wf() ==> tile.x + tile.cols <= tile.frame_mvs.cols && tile.y + tile.rows
            <= tile.frame_mvs.rows && tile.frame_mvs.wf(),
{
    let cols = frame_mvs.cols as int;
    let rows = frame_mvs.rows as int;
    assert((y + 1) * cols <= cols * rows && 0 <= y * cols && (y + 1) * cols == y * cols + cols)
        by (nonlinear_arith)
        requires
            0 <= y,
            y + 1 <= rows,
            cols >= 0,
    ;
}

/// Pixels lie row after row, from the padding before the origin on. A block lies in a plane if
/// its first and its last pixel do.
pub proof fn law_pixels_lie_row_by_row<T: Pixel>(p: Plane<T>, x: int, y: int, i: int, j: int)
    ensures
        p.pixel(x, y) == p.data@[(p.yorigin + y) * p.stride + (p.xorigin + x)].value(),
        p.pixels_from(x, y)(i, j) == p.pixel(x + i, y + j),
        p.holds_block(x, y, i, j) <==> {
            &&& p.wf()
            &&& 0 <= p.xorigin + x && p.xorigin + x + i <= p.stride
            &&& 0 <= p.yorigin + y && p.yorigin + y + j <= p.alloc_height
        },
        p.wf() <==> {
            &&& p.data@.len() == p.stride * p.alloc_height
            &&& p.xorigin <= p.stride && p.stride <= isize::MAX
            &&& p.yorigin <= p.alloc_height && p.alloc_height <= isize::MAX
        },
{
    assert((y + p.yorigin) * p.stride == (p.yorigin + y) * p.stride) by (nonlinear_arith);
}

/// The number that a pixel stands for.
pub proof fn law_pixel_values(a: u8, b: u16)
    ensures
        a.value() == a as int,
        b.value() == b as int,
{
}

/// A sum in which one term differs.
proof fn lemma_sum_changed(n: nat, f: spec_fn(int) -> int, g: spec_fn(int) -> int, k: int)
    requires
        0 <= k < n,
        forall|i: int| 0 <= i < n && i != k ==> #[trigger] f(i) == g(i),
    ensures
        sum_below(n, f) - sum_below(n, g) == f(k) - g(k),
    decreases n,
{
    if k == n - 1 {
        crate::plane::lemma_sum_equal((n - 1) as nat, f, g);
    } else {
        lemma_sum_changed((n - 1) as nat, f, g, k);
        assert(f(n - 1) == g(n - 1));
    }
}

/// Changing one pixel of a block changes its distance from another block by as much as the
/// pixel gets farther from the other block's: each pixel counts, by its absolute difference.
pub proof fn law_sad_counts_each_pixel(
    a: spec_fn(int, int) -> int,
    b: spec_fn(int, int) -> int,
    c: spec_fn(int, int) -> int,
    w: nat,
    h: nat,
    x: int,
    y: int,
)
    requires
        0 <= x < w && 0 <= y < h,
        forall|i: int, j: int|
            0 <= i < w && 0 <= j < h && (i != x || j != y) ==> #[trigger] b(i, j) == c(i, j),
    ensures
        block_sad(a, b, w, h) - block_sad(a, c, w, h) == (if a(x, y) >= b(x, y) {
            a(x, y) - b(x, y)
        } else {
            b(x, y) - a(x, y)
        }) - (if a(x, y) >= c(x, y) {
            a(x, y) - c(x, y)
        } else {
            c(x, y) - a(x, y)
        }),
        block_sad(a, a, w, h) == 0,
{
    let rows_b = |j: int| row_sad(a, b, w, j);
    let rows_c = |j: int| row_sad(a, c, w, j);
    assert forall|j: int| 0 <= j < h && j != y implies #[trigger] rows_b(j) == rows_c(j) by {
        let p = |i: int| abs_int(a(i, j) - b(i, j));
        let q = |i: int| abs_int(a(i, j) - c(i, j));
        assert forall|i: int| 0 <= i < w implies #[trigger] p(i) == q(i) by {
            assert(b(i, j) == c(i, j));
        }
        crate::plane::lemma_sum_equal(w, p, q);
    }
    let p = |i: int| abs_int(a(i, y) - b(i, y));
    let q = |i: int| abs_int(a(i, y) - c(i, y));
    assert forall|i: int| 0 <= i < w && i != x implies #[trigger] p(i) == q(i) by {
        assert(b(i, y) == c(i, y));
    }
    lemma_sum_changed(w, p, q, x);
    assert(rows_b(y) == sum_below(w, p) && rows_c(y) == sum_below(w, q));
    assert(p(x) == abs_int(a(x, y) - b(x, y)) && q(x) == abs_int(a(x, y) - c(x, y)));
    lemma_sum_changed(h, rows_b, rows_c, y);
    crate::laws::law_sad_of_equal_blocks(a, a, w, h);
}

/// The cost of a vector is 256 times the distance of the blocks plus lambda times the bits: the
/// fewer of those after the first prediction and, with one more, after the second.
pub proof fn law_cost_in_numbers(
    sad: int,
    mv: MotionVector,
    pmv: [MotionVector; 2],
    lambda: u32,
    hp: bool,
)
    ensures
        ({
            let first = mv_rate(mv, pmv[0], hp);
            let second = mv_rate(mv, pmv[1], hp) + 1;
            rd_cost(sad, mv, pmv, lambda, hp) == 256 * sad + lambda * (if first <= second {
                first
            } else {
                second
            })
        }),
{
    let first = mv_rate(mv, pmv[0], hp);
    let second = mv_rate(mv, pmv[1], hp) + 1;
    assert(first * lambda == lambda * first) by (nonlinear_arith);
    assert(second * lambda == lambda * second) by (nonlinear_arith);
}

/// What a vector in range is charged for: the block to which it points, eight units to a pixel
/// and fractions dropped towards zero, or the prediction where fractions count. A vector out of
/// range is charged the largest number.
pub proof fn law_cost_compares_the_right_blocks<T: Pixel, I: InterPredictor<T>>(
    params: CostParams,
    p_org: Plane<T>,
    p_ref: Plane<T>,
    predictor: I,
    ref_frame: RefType,
    po: PlaneOffset,
    mv: MotionVector,
)
    ensures
        ({
            let w = params.blk_w as nat;
            let h = params.blk_h as nat;
            let org = p_org.pixels_from(po.x as int, po.y as int);
            let pointed_to = p_ref.pixels_from(
                po.x + trunc_div(mv.col as int, 8),
                po.y + trunc_div(mv.row as int, 8),
            );
            let predicted = predictor.predicted(ref_frame, po, params.blk_w, params.blk_h, mv);
            let hp = params.allow_high_precision_mv;
            let whole = mv_cost(false, params, p_org, p_ref, predictor, ref_frame, po)(mv);
            let fraction = mv_cost(true, params, p_org, p_ref, predictor, ref_frame, po)(mv);
            if params.range.contains(mv) {
                &&& whole == rd_cost(
                    block_sad(org, pointed_to, w, h),
                    mv,
                    params.pmv,
                    params.lambda,
                    hp,
                ) as u64
                &&& fraction == rd_cost(
                    block_sad(org, predicted, w, h),
                    mv,
                    params.pmv,
                    params.lambda,
                    hp,
                ) as u64
            } else {
                whole == u64::MAX && fraction == u64::MAX
            }
        }),
        full_pixel_target(po, mv) == (
            po.x + trunc_div(mv.col as int, 8),
            po.y + trunc_div(mv.row as int, 8),
        ),
{
}

/// The vector of a position near the block is eight times its distance from the block.
pub proof fn law_vector_of_a_position(po: PlaneOffset, x: int, y: int)
    ensures
        same_window(x, po.x as int) <==> wrap16(x) - wrap16(po.x as int) == x - po.x,
        same_window(x, po.x as int) && same_window(y, po.y as int) ==> {
            &&& position_in_reach(po, x, y) <==> -32768 <= 8 * (x - po.x) <= 32767 && -32768 <= 8
                * (y - po.y) <= 32767
            &&& position_in_reach(po, x, y) ==> position_mv(po, x, y).col == 8 * (x - po.x)
                && position_mv(po, x, y).row == 8 * (y - po.y)
        },
{
}

/// A number of pixels is kept within bounds that are given in eighths of pixels.
pub proof fn law_bounded_pixels(pixels: int, low: isize, high: isize)
    requires
        low <= high,
    ensures
        ({
            let lo = trunc_div(low as int, 8);
            let hi = trunc_div(high as int, 8);
            let r = bounded_pixels(pixels, low, high);
            &&& lo <= r <= hi
            &&& lo <= pixels <= hi ==> r == pixels
            &&& pixels <= lo ==> r == lo
            &&& pixels >= hi ==> r == hi
        }),
{
}

/// A weight divided is rounded down, and at most the largest number of 32 bits.
pub proof fn law_weight_is_rounded_down(me_lambda: u64, divisor: int)
    requires
        divisor > 0,
    ensures
        ({
            let r = scaled_lambda(me_lambda, divisor);
            &&& divisor * r <= me_lambda
            &&& r < u32::MAX ==> me_lambda < divisor * (r + 1)
        }),
{
    let q = me_lambda as int / divisor;
    vstd::arithmetic::div_mod::lemma_fundamental_div_mod(me_lambda as int, divisor);
    vstd::arithmetic::div_mod::lemma_mod_bound(me_lambda as int, divisor);
    vstd::arithmetic::div_mod::lemma_div_pos_is_pos(me_lambda as int, divisor);
    let r = scaled_lambda(me_lambda, divisor);
    assert(divisor * r <= divisor * q) by (nonlinear_arith)
        requires
            r <= q,
            divisor > 0,
    ;
    assert(divisor * (q + 1) == divisor * q + divisor) by (nonlinear_arith);
}

/// Prediction without interpolation takes the block to which a vector points, fractions of a
/// pixel rounded down.
pub proof fn law_whole_pixel_prediction<T: Pixel>(
    predictor: WholePixelPredictor<T>,
    ref_frame: RefType,
    po: PlaneOffset,
    blk_w: usize,
    blk_h: usize,
    mv: MotionVector,
    i: int,
    j: int,
)
    ensures
        predictor.predicted(ref_frame, po, blk_w, blk_h, mv)(i, j) == predictor.reference.pixel(
            po.x + mv.col as int / 8 + i,
            po.y + mv.row as int / 8 + j,
        ),
{
}

/// The bounds of a block in a frame, put together.
pub proof fn law_range_of_block(
    w_in_b: usize,
    h_in_b: usize,
    bo: BlockOffset,
    blk_w: usize,
    blk_h: usize,
)
    requires
        crate::geometry::mv_range_defined(w_in_b, h_in_b, bo, blk_w, blk_h),
    ensures
        ({
            let range = mv_range_of(w_in_b, h_in_b, bo, blk_w, blk_h);
            &&& range.x_min == mv_low(bo.x as int, blk_w as int)
            &&& range.x_max == mv_high(w_in_b as int, bo.x as int, blk_w as int)
            &&& range.y_min == mv_low(bo.y as int, blk_h as int)
            &&& range.y_max == mv_high(h_in_b as int, bo.y as int, blk_h as int)
        }),
{
}

/// A block can be searched for if its area is at most that of which the distance fits in 32
/// bits; it has a place if its first pixel can be represented, and can be moved into a tile if
/// all numbers involved can.
pub proof fn law_when_blocks_have_a_place<T: Pixel>(
    ts: TileState<'_, T>,
    tile_bo: BlockOffset,
    bsize: BlockSize,
    blk_w: usize,
    blk_h: usize,
)
    ensures
        blk_w <= 256 && blk_h <= 256 ==> searchable(blk_w, blk_h),
        searchable(blk_w, blk_h) ==> blk_w * blk_h * 65535 <= u32::MAX,
        position_defined(ts, tile_bo) <==> 4 * (ts.origin.x + tile_bo.x) <= isize::MAX && 4 * (
        ts.origin.y + tile_bo.y) <= isize::MAX,
        adjustable(ts, tile_bo) <==> {
            &&& tile_bo.x <= isize::MAX && tile_bo.y <= isize::MAX
            &&& ts.mi_width <= isize::MAX && ts.mi_height <= isize::MAX
        },
        block_in_tile(ts, tile_bo, bsize) == adjusted_bo(
            tile_bo,
            ts.mi_width,
            ts.mi_height,
            bsize.dimensions().0,
            bsize.dimensions().1,
        ),
{
    if blk_w <= 256 && blk_h <= 256 {
        assert(blk_w * blk_h <= 256 * 256) by (nonlinear_arith)
            requires
                blk_w <= 256,
                blk_h <= 256,
        ;
    }
}

/// The vectors of a block have bounds if it ends within the frame and they can be represented.
pub proof fn law_when_vectors_have_bounds<T: Pixel, I: InterPredictor<T>>(
    fi: FrameInvariants<T, I>,
    ts: TileState<'_, T>,
    tile_bo: BlockOffset,
    bsize: BlockSize,
)
    requires
        ts.origin.x + tile_bo.x + bsize.dimensions().0 / 4 <= fi.w_in_b,
        ts.origin.y + tile_bo.y + bsize.dimensions().1 / 4 <= fi.h_in_b,
        32 * fi.w_in_b + 2048 <= isize::MAX,
        32 * fi.h_in_b + 2048 <= isize::MAX,
    ensures
        crate::me::block_range_defined(fi, ts, tile_bo, bsize),
{
    let (w, h) = bsize.dimensions();
    assert(w <= 128 && h <= 128);
}

/// The cost of a vector in range is defined if it can be coded and the blocks it compares lie in
/// their planes, or can be predicted; that of a vector out of range always is.
pub proof fn law_when_costs_are_defined<T: Pixel, I: InterPredictor<T>>(
    params: CostParams,
    p_org: Plane<T>,
    p_ref: Plane<T>,
    predictor: I,
    ref_frame: RefType,
    po: PlaneOffset,
    mv: MotionVector,
)
    ensures
        ({
            let w = params.blk_w as int;
            let h = params.blk_h as int;
            let coded = codable(mv, params.pmv, params.allow_high_precision_mv);
            let original = p_org.holds_block(po.x as int, po.y as int, w, h);
            let pointed_to = p_ref.holds_block(
                po.x + trunc_div(mv.col as int, 8),
                po.y + trunc_div(mv.row as int, 8),
                w,
                h,
            );
            let predicted = predictor.can_predict(
                ref_frame,
                po,
                params.blk_w,
                params.blk_h,
                mv,
            );
            let whole = mv_cost_defined(false, params, p_org, p_ref, predictor, ref_frame, po);
            let fraction = mv_cost_defined(true, params, p_org, p_ref, predictor, ref_frame, po);
            &&& whole(mv) <==> (params.range.contains(mv) ==> coded && original && pointed_to)
            &&& fraction(mv) <==> (params.range.contains(mv) ==> coded && original && predicted)
        }),
{
}

/// The cost of a position is defined if its vector fits in 16 bits and can be coded, and both
/// blocks lie in their planes.
pub proof fn law_when_positions_are_defined<T: Pixel>(
    params: FullSearchParams<T>,
    x: int,
    y: int,
)
    ensures
        params.defined(x, y) <==> {
            let w = params.blk_w as int;
            let h = params.blk_h as int;
            &&& position_in_reach(params.po, x, y)
            &&& codable(
                position_mv(params.po, x, y),
                params.pmv,
                params.allow_high_precision_mv,
            )
            &&& params.p_org.holds_block(params.po.x as int, params.po.y as int, w, h)
            &&& params.p_ref.holds_block(x, y, w, h)
        },
{
}

/// Sums of few vectors that are not too large fit in 16 bits.
proof fn lemma_totals_bounded(mvs: Seq<MotionVector>)
    requires
        forall|k: int|
            0 <= k < mvs.len() ==> -10922 <= (#[trigger] mvs[k]).row <= 10922 && -10922
                <= mvs[k].col <= 10922,
    ensures
        -(10922 * mvs.len()) <= row_total(mvs) <= 10922 * mvs.len(),
        -(10922 * mvs.len()) <= col_total(mvs) <= 10922 * mvs.len(),
    decreases mvs.len(),
{
    if mvs.len() > 0 {
        let shorter = mvs.drop_last();
        assert forall|k: int| 0 <= k < shorter.len() implies -10922 <= (#[trigger] shorter[k]).row
            <= 10922 && -10922 <= shorter[k].col <= 10922 by {
            assert(shorter[k] == mvs[k]);
        }
        lemma_totals_bounded(shorter);
        assert(mvs.last() == mvs[mvs.len() - 1]);
    }
}

/// The vectors from which a search starts are defined for every block of a tile that lies in its
/// frame and in the reference frame, where the vectors of the neighbours are at most a third of
/// what 16 bits hold.
pub proof fn law_when_predictors_are_defined<T: Pixel>(
    tile_bo: BlockOffset,
    tile_mvs: TileMotionVectors<'_>,
    frame_ref_opt: Option<&ReferenceFrame<T>>,
    ref_frame_id: usize,
)
    requires
        tile_mvs.wf(),
        tile_bo.x < tile_mvs.cols && tile_bo.y < tile_mvs.rows,
        forall|x: int, y: int|
            0 <= x < tile_mvs.cols && 0 <= y < tile_mvs.rows ==> -10922 <= (#[trigger] tile_mvs.at(
                x,
                y,
            )).row <= 10922 && -10922 <= tile_mvs.at(x, y).col <= 10922,
        frame_ref_opt matches Some(frame_ref) ==> {
            let mvs = frame_ref.frame_mvs@[ref_frame_id as int];
            &&& ref_frame_id < frame_ref.frame_mvs@.len()
            &&& mvs.wf()
            &&& tile_mvs.x + tile_bo.x < mvs.cols
            &&& tile_mvs.y + tile_bo.y < mvs.rows
        },
    ensures
        subset_predictors_defined(tile_bo, tile_mvs, frame_ref_opt, ref_frame_id),
{
    let mvs = spatial_neighbours(tile_bo, tile_mvs);
    assert(mvs.len() <= 3);
    assert forall|k: int| 0 <= k < mvs.len() implies -10922 <= (#[trigger] mvs[k]).row <= 10922
        && -10922 <= mvs[k].col <= 10922 by {
        let left = tile_mvs.at(tile_bo.x - 1, tile_bo.y as int);
        let top = tile_mvs.at(tile_bo.x as int, tile_bo.y - 1);
        let corner = tile_mvs.at(tile_bo.x + 1, tile_bo.y - 1);
        assert(mvs[k] == left || mvs[k] == top || mvs[k] == corner);
    }
    assert forall|k: int| 0 <= k <= mvs.len() implies fits_i16(row_total(#[trigger] mvs.take(k)))
        && fits_i16(col_total(mvs.take(k))) by {
        let part = mvs.take(k);
        assert forall|m: int| 0 <= m < part.len() implies -10922 <= (#[trigger] part[m]).row
            <= 10922 && -10922 <= part[m].col <= 10922 by {
            assert(part[m] == mvs[m]);
        }
        lemma_totals_bounded(part);
    }
}

/// What a prediction leaves in a scratch plane: the predicted pixels, in a plane of the same
/// layout. Without a plane there is none afterwards.
pub proof fn law_scratch_plane<T: Pixel, I: InterPredictor<T>>(
    before: Plane<T>,
    after: Plane<T>,
    predictor: I,
    ref_frame: RefType,
    po: PlaneOffset,
    blk_w: usize,
    blk_h: usize,
    mv: MotionVector,
    i: int,
    j: int,
)
    requires
        scratch_predicted(
            Some(before),
            Some(after),
            predictor,
            ref_frame,
            po,
            blk_w,
            blk_h,
            mv,
        ),
        0 <= i < blk_w && 0 <= j < blk_h,
    ensures
        after.pixel(i, j) == predictor.predicted(ref_frame, po, blk_w, blk_h, mv)(i, j),
        after.stride == before.stride && after.alloc_height == before.alloc_height,
        after.xorigin == before.xorigin && after.yorigin == before.yorigin,
        !scratch_predicted(None, Some(after), predictor, ref_frame, po, blk_w, blk_h, mv),
        !scratch_predicted(Some(before), None, predictor, ref_frame, po, blk_w, blk_h, mv),
{
}

/// What comparing vectors leaves in a scratch plane: what the last of them in range does, or what
/// was there.
pub proof fn law_scratch_plane_compared<T: Pixel, I: InterPredictor<T>>(
    before: Option<Plane<T>>,
    after: Option<Plane<T>>,
    candidates: Seq<MotionVector>,
    range: MvRange,
    predictor: I,
    ref_frame: RefType,
    po: PlaneOffset,
    blk_w: usize,
    blk_h: usize,
)
    requires
        scratch_compared(
            before,
            after,
            candidates,
            range,
            predictor,
            ref_frame,
            po,
            blk_w,
            blk_h,
        ),
    ensures
        last_in_range(candidates, range) is None ==> after == before,
        last_in_range(candidates, range) matches Some(mv) ==> scratch_predicted(
            before,
            after,
            predictor,
            ref_frame,
            po,
            blk_w,
            blk_h,
            mv,
        ),
{
}

/// The cheapest of some vectors is no dearer than any of them, and is the first that is as
/// cheap. Where none is cheaper than the largest number, it is zero at that cost.
pub proof fn law_cheapest_is_the_first(
    candidates: Seq<MotionVector>,
    cost: spec_fn(MotionVector) -> u64,
    k: int,
)
    requires
        0 <= k < candidates.len(),
    ensures
        cheapest(candidates, cost).1 <= cost(candidates[k]),
        cheapest(candidates, cost).1 < u64::MAX ==> exists|m: int|
            {
                &&& 0 <= m < candidates.len()
                &&& cheapest(candidates, cost) == (
                    #[trigger] candidates[m],
                    cost(candidates[m]),
                )
                &&& forall|n: int|
                    0 <= n < m ==> cost(candidates[m]) < cost(#[trigger] candidates[n])
            },
        cheapest(candidates, cost).1 == u64::MAX ==> cheapest(candidates, cost).0 == (
        MotionVector { row: 0, col: 0 }),
{
    crate::laws::law_improve_finds_first_cheapest((zero_mv(), u64::MAX), candidates, cost);
}

/// Bounds leave room for a step if both ends can be moved by it within 16 bits.
pub proof fn law_room_for_a_step(range: MvRange, reach: int)
    requires
        range.x_min >= -32768 + reach && range.x_max <= 32767 - reach,
        range.y_min >= -32768 + reach && range.y_max <= 32767 - reach,
        range.x_min <= range.x_max && range.y_min <= range.y_max,
        reach >= 0,
    ensures
        room_in_range(range, reach),
{
}

} // verus!
