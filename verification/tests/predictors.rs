use motion_estimation::frame::{FrameMotionVectors, ReferenceFrame, TileMotionVectors};
use motion_estimation::geometry::BlockOffset;
use motion_estimation::mv::MotionVector;
use motion_estimation::plane::Plane;
use motion_estimation::predictors::get_subset_predictors;

fn mv(row: i16, col: i16) -> MotionVector {
    MotionVector { row, col }
}

fn reference(mvs: FrameMotionVectors) -> ReferenceFrame<u8> {
    ReferenceFrame {
        frame: Plane::new(1, 1),
        input_hres: Plane::new(1, 1),
        input_qres: Plane::new(1, 1),
        frame_mvs: vec![FrameMotionVectors::new(1, 1), mvs],
    }
}

#[test]
fn first_block_without_reference_has_two_predictors() {
    let mvs = FrameMotionVectors::new(4, 4);
    let tile = TileMotionVectors { frame_mvs: &mvs, x: 0, y: 0, cols: 4, rows: 4 };
    let found =
        get_subset_predictors::<u8>(BlockOffset { x: 0, y: 0 }, mv(13, -13), &tile, None, 0);
    assert_eq!(found.as_slice(), &[mv(0, 0), mv(8, -8)]);
    // The coarse vector is kept though it is zero.
    let still = get_subset_predictors::<u8>(BlockOffset { x: 0, y: 0 }, mv(7, 0), &tile, None, 0);
    assert_eq!(still.as_slice(), &[mv(0, 0), mv(0, 0)]);
}

#[test]
fn neighbours_in_the_tile_and_their_mean() {
    let mut mvs = FrameMotionVectors::new(4, 4);
    mvs[1][0] = mv(16, 0);
    mvs[0][1] = mv(0, 0);
    mvs[0][2] = mv(20, -25);
    let tile = TileMotionVectors { frame_mvs: &mvs, x: 0, y: 0, cols: 4, rows: 4 };
    let found = get_subset_predictors::<u8>(BlockOffset { x: 1, y: 1 }, mv(0, 0), &tile, None, 0);
    // The zero vector above counts in the mean of (36, -25) / 3 = (12, -8), but is left out.
    assert_eq!(
        found.as_slice(),
        &[mv(0, 0), mv(0, 0), mv(16, 0), mv(20, -25), mv(8, -8)]
    );
}

#[test]
fn last_column_has_no_neighbour_above_to_the_right() {
    let mut mvs = FrameMotionVectors::new(3, 2);
    mvs[0][1] = mv(8, 8);
    mvs[0][2] = mv(24, 0);
    let tile = TileMotionVectors { frame_mvs: &mvs, x: 0, y: 0, cols: 2, rows: 2 };
    let found = get_subset_predictors::<u8>(BlockOffset { x: 1, y: 1 }, mv(0, 0), &tile, None, 0);
    // The block to the left is zero, that above is the last of the tile; mean (4, 4) is
    // less than a pixel.
    assert_eq!(found.as_slice(), &[mv(0, 0), mv(0, 0), mv(8, 8)]);
}

#[test]
fn block_below_the_first_column_reads_the_row_above_only() {
    let mut mvs = FrameMotionVectors::new(3, 2);
    mvs[1][0] = mv(16, 0);
    mvs[1][1] = mv(0, 16);
    let tile = TileMotionVectors { frame_mvs: &mvs, x: 0, y: 0, cols: 3, rows: 2 };
    let found = get_subset_predictors::<u8>(BlockOffset { x: 0, y: 2 }, mv(0, 0), &tile, None, 0);
    assert_eq!(
        found.as_slice(),
        &[mv(0, 0), mv(0, 0), mv(16, 0), mv(0, 16), mv(8, 8)]
    );
}

#[test]
fn neighbours_in_the_reference_frame_come_in_order() {
    let current = FrameMotionVectors::new(4, 4);
    let tile = TileMotionVectors { frame_mvs: &current, x: 1, y: 1, cols: 2, rows: 2 };
    let mut previous = FrameMotionVectors::new(4, 4);
    previous[1][0] = mv(1, 0);
    previous[0][1] = mv(2, 0);
    previous[1][2] = mv(3, 0);
    previous[2][1] = mv(4, 0);
    previous[1][1] = mv(5, 0);
    let rec = reference(previous);
    let found =
        get_subset_predictors(BlockOffset { x: 0, y: 0 }, mv(0, 0), &tile, Some(&rec), 1);
    assert_eq!(
        found.as_slice(),
        &[mv(0, 0), mv(0, 0), mv(1, 0), mv(2, 0), mv(3, 0), mv(4, 0), mv(5, 0)]
    );
}

#[test]
fn corner_of_the_reference_frame_has_fewer_neighbours() {
    let current = FrameMotionVectors::new(2, 2);
    let tile = TileMotionVectors { frame_mvs: &current, x: 0, y: 0, cols: 2, rows: 2 };
    let mut previous = FrameMotionVectors::new(2, 2);
    previous[0][0] = mv(1, 0);
    previous[0][1] = mv(2, 0);
    previous[1][0] = mv(3, 0);
    previous[1][1] = mv(4, 0);
    let rec = reference(previous);
    let first = get_subset_predictors(BlockOffset { x: 0, y: 0 }, mv(0, 0), &tile, Some(&rec), 1);
    assert_eq!(
        first.as_slice(),
        &[mv(0, 0), mv(0, 0), mv(2, 0), mv(3, 0), mv(1, 0)]
    );
    let last = get_subset_predictors(BlockOffset { x: 1, y: 1 }, mv(0, 0), &tile, Some(&rec), 1);
    assert_eq!(
        last.as_slice(),
        &[mv(0, 0), mv(0, 0), mv(3, 0), mv(2, 0), mv(4, 0)]
    );
}

#[test]
fn all_eleven_predictors() {
    let mut current = FrameMotionVectors::new(3, 3);
    current[1][0] = mv(30, 3);
    current[0][1] = mv(31, 3);
    current[0][2] = mv(32, 3);
    let tile = TileMotionVectors { frame_mvs: &current, x: 0, y: 0, cols: 3, rows: 3 };
    let mut previous = FrameMotionVectors::new(3, 3);
    previous[1][0] = mv(-1, 0);
    previous[0][1] = mv(-2, 0);
    previous[1][2] = mv(-3, 0);
    previous[2][1] = mv(-4, 0);
    previous[1][1] = mv(-5, 0);
    let rec = reference(previous);
    let mut found =
        get_subset_predictors(BlockOffset { x: 1, y: 1 }, mv(41, -9), &tile, Some(&rec), 1);
    assert_eq!(
        found.as_slice(),
        &[
            mv(0, 0),
            mv(40, -8),
            mv(30, 3),
            mv(31, 3),
            mv(32, 3),
            mv(24, 0),
            mv(-1, 0),
            mv(-2, 0),
            mv(-3, 0),
            mv(-4, 0),
            mv(-5, 0),
        ]
    );
    found.halve();
    assert_eq!(
        found.as_slice(),
        &[
            mv(0, 0),
            mv(20, -4),
            mv(15, 1),
            mv(15, 1),
            mv(16, 1),
            mv(12, 0),
            mv(-1, 0),
            mv(-1, 0),
            mv(-2, 0),
            mv(-2, 0),
            mv(-3, 0),
        ]
    );
}
