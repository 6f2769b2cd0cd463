use motion_estimation::frame::{scale_lambda, FrameMotionVectors, TileMotionVectors};
use motion_estimation::geometry::{
    adjust_bo, get_mv_range, BlockOffset, BlockSize, PlaneOffset, RefType,
};
use motion_estimation::mv::{get_mv_rate, MotionVector};
use motion_estimation::num::{half_i16, half_isize, quarter_isize, truncate_i16};

fn mv(row: i16, col: i16) -> MotionVector {
    MotionVector { row, col }
}

#[test]
fn narrowing_and_halving() {
    assert_eq!(truncate_i16(32767), 32767);
    assert_eq!(truncate_i16(32768), -32768);
    assert_eq!(truncate_i16(-32769), 32767);
    assert_eq!(truncate_i16(70000), 4464);
    assert_eq!(half_i16(-5), -3);
    assert_eq!(half_i16(5), 2);
    assert_eq!(half_isize(-7), -4);
    assert_eq!(quarter_isize(-5), -2);
    assert_eq!(quarter_isize(7), 1);
}

#[test]
fn vector_arithmetic_truncates_towards_zero() {
    assert_eq!(MotionVector::default(), mv(0, 0));
    assert!(mv(0, 0).is_zero());
    assert!(!mv(0, 1).is_zero());
    assert!(!mv(1, 0).is_zero());
    assert_eq!(mv(15, -15).quantize_to_fullpel(), mv(8, -8));
    assert_eq!(mv(-7, 16).quantize_to_fullpel(), mv(0, 16));
    assert_eq!(mv(3, -4) + mv(-5, 6), mv(-2, 2));
    assert_eq!(mv(-8, 8) / 3, mv(-2, 2));
    assert_eq!(mv(7, -7) / -2, mv(-3, 3));
}

#[test]
fn rate_counts_two_bits_per_digit() {
    let zero = mv(0, 0);
    assert_eq!(get_mv_rate(mv(5, -9), zero, true), 14);
    assert_eq!(get_mv_rate(mv(5, -9), zero, false), 10);
    assert_eq!(get_mv_rate(mv(32767, 0), zero, true), 30);
    assert_eq!(get_mv_rate(mv(-32768, 0), zero, false), 30);
    assert_eq!(get_mv_rate(mv(100, 40), mv(96, 40), true), 6);
}

#[test]
fn rate_is_zero_for_equal_vectors_and_symmetric_with_high_precision() {
    let a = mv(123, -456);
    let b = mv(-77, 8);
    assert_eq!(get_mv_rate(a, a, true), 0);
    assert_eq!(get_mv_rate(a, a, false), 0);
    assert_eq!(get_mv_rate(a, b, true), get_mv_rate(b, a, true));
    // Without high precision the sign of a difference matters.
    assert_eq!(get_mv_rate(mv(1, 0), mv(0, 0), false), 0);
    assert_eq!(get_mv_rate(mv(0, 0), mv(1, 0), false), 2);
}

#[test]
fn rate_grows_with_the_difference() {
    let zero = mv(0, 0);
    let mut last = 0;
    for d in 0..2000 {
        let rate = get_mv_rate(mv(d, 0), zero, true);
        assert!(rate >= last);
        last = rate;
    }
}

#[test]
fn range_reaches_the_border_of_the_frame() {
    let bo = BlockOffset { x: 2, y: 3 };
    assert_eq!(get_mv_range(16, 12, bo, 16, 8), (-320, 576, -288, 416));
    // The leftmost block starts 16 pixels and its own width before the frame.
    assert_eq!((4 * 2 * 8 - 320) / 8, -(16 + 16));
    assert_eq!(
        get_mv_range(4, 4, BlockOffset { x: 0, y: 0 }, 16, 16),
        (-256, 256, -256, 256)
    );
}

#[test]
fn adjusted_block_lies_within_the_tile() {
    let bo = BlockOffset { x: 14, y: 3 };
    let inside = adjust_bo(bo, 16, 12, 16, 16);
    assert_eq!(inside, BlockOffset { x: 12, y: 3 });
    assert_eq!(adjust_bo(inside, 16, 12, 16, 16), inside);
    // A block larger than the tile starts where the tile does.
    assert_eq!(
        adjust_bo(BlockOffset { x: 1, y: 1 }, 2, 2, 16, 16),
        BlockOffset { x: 0, y: 0 }
    );
}

#[test]
fn block_offsets_in_scaled_planes() {
    let bo = BlockOffset { x: 5, y: 7 };
    assert_eq!(bo.to_luma_plane_offset(), PlaneOffset { x: 20, y: 28 });
    assert_eq!(bo.to_half_plane_offset(), PlaneOffset { x: 10, y: 14 });
    assert_eq!(bo.to_quarter_plane_offset(), PlaneOffset { x: 5, y: 7 });
}

#[test]
fn block_sizes_and_references() {
    assert_eq!(BlockSize::BLOCK_64X16.width(), 64);
    assert_eq!(BlockSize::BLOCK_64X16.height(), 16);
    assert_eq!(BlockSize::BLOCK_4X8.width(), 4);
    assert_eq!(BlockSize::BLOCK_4X8.height(), 8);
    assert_eq!(BlockSize::BLOCK_128X128.width(), 128);
    assert_eq!(BlockSize::BLOCK_128X128.height(), 128);
    assert_eq!(RefType::LAST_FRAME.to_index(), 0);
    assert_eq!(RefType::ALTREF_FRAME.to_index(), 6);
}

#[test]
fn new_frame_has_not_moved() {
    let mvs = FrameMotionVectors::new(3, 2);
    assert_eq!((mvs.cols, mvs.rows), (3, 2));
    for y in 0..2 {
        assert_eq!(mvs[y], [mv(0, 0); 3]);
    }
    let empty = FrameMotionVectors::new(0, 5);
    assert_eq!(empty[4].len(), 0);
    // Without columns there are as many empty rows as one asks for.
    assert_eq!(empty[9].len(), 0);
}

#[test]
fn writing_a_row_leaves_the_others_alone() {
    let mut mvs = FrameMotionVectors::new(3, 3);
    mvs[1][2] = mv(4, -4);
    mvs[1][0] = mv(1, 1);
    assert_eq!(mvs[0], [mv(0, 0); 3]);
    assert_eq!(mvs[1], [mv(1, 1), mv(0, 0), mv(4, -4)]);
    assert_eq!(mvs[2], [mv(0, 0); 3]);
}

#[test]
fn tile_shows_a_rectangle_of_its_frame() {
    let mut mvs = FrameMotionVectors::new(4, 3);
    mvs[1][1] = mv(1, 0);
    mvs[1][2] = mv(2, 0);
    mvs[2][2] = mv(3, 0);
    let tile = TileMotionVectors { frame_mvs: &mvs, x: 1, y: 1, cols: 2, rows: 2 };
    assert_eq!(tile[0], [mv(1, 0), mv(2, 0)]);
    assert_eq!(tile[1], [mv(0, 0), mv(3, 0)]);
}

#[test]
fn fixed_point_lambda_scales_as_the_factor_does() {
    let factors: [f64; 9] =
        [0.0, 0.001, 0.49, 1.0, 3.7, 21.333, 1234.5678, 40000000.0, 1.0e30];
    for factor in factors {
        let lambda = (factor * 128.0) as u64;
        assert_eq!(scale_lambda(lambda, 1), (factor * 256.0 * 0.5) as u32);
        assert_eq!(scale_lambda(lambda, 16), (factor * 256.0 / 4.0 * 0.125) as u32);
        assert_eq!(scale_lambda(lambda, 64), (factor * 256.0 / 16.0 * 0.125) as u32);
    }
    assert_eq!(scale_lambda(1000, 16), 62);
    assert_eq!(scale_lambda(u64::MAX, 64), u32::MAX);
}
