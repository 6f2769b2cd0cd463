use motion_estimation::coarse::estimate_motion_ss4;
use motion_estimation::cost::{compute_mv_rd_cost, get_mv_rd_cost};
use motion_estimation::diamond::DiamondSearch;
use motion_estimation::exhaustive::FullSearch;
use motion_estimation::frame::{
    scale_lambda, FrameInvariants, FrameMotionVectors, InterPredictor, ReferenceFrame,
    ReferenceFramesSet, TileMotionVectors, TileState, WholePixelPredictor,
};
use motion_estimation::full::full_search;
use motion_estimation::geometry::{BlockOffset, BlockSize, PlaneOffset, RefType};
use motion_estimation::me::{MotionEstimation, MotionSearch};
use motion_estimation::mv::MotionVector;
use motion_estimation::plane::{get_sad, Plane};
use motion_estimation::refine::telescopic_subpel_search;
use motion_estimation::search::{diamond_me_search, get_best_predictor};
use std::sync::Arc;

type Invariants = FrameInvariants<u8, WholePixelPredictor<u8>>;

fn mv(row: i16, col: i16) -> MotionVector {
    MotionVector { row, col }
}

fn noise(x: isize, y: isize) -> u8 {
    let mut v = (x as i64).wrapping_mul(73856093) ^ (y as i64).wrapping_mul(19349663);
    v ^= v >> 13;
    v = v.wrapping_mul(0x5bd1e995);
    v ^= v >> 15;
    (v & 0xff) as u8
}

fn ramp(x: isize, _y: isize) -> u8 {
    (x + 70) as u8
}

fn plane(size: usize, pad: usize, f: impl Fn(isize, isize) -> u8) -> Plane<u8> {
    let stride = size + 2 * pad;
    let mut data = Vec::new();
    for y in 0..stride {
        for x in 0..stride {
            data.push(f(x as isize - pad as isize, y as isize - pad as isize));
        }
    }
    Plane { data, stride, alloc_height: stride, xorigin: pad, yorigin: pad }
}

fn moved(f: fn(isize, isize) -> u8, dx: isize, dy: isize) -> impl Fn(isize, isize) -> u8 {
    move |x, y| f(x - dx, y - dy)
}

/// The planes of a frame of 64 by 64 pixels.
struct Source {
    input: Plane<u8>,
    hres: Plane<u8>,
    qres: Plane<u8>,
    mvs: FrameMotionVectors,
}

fn source(f: fn(isize, isize) -> u8) -> Source {
    Source {
        input: plane(64, 90, f),
        hres: plane(32, 60, f),
        qres: plane(16, 60, f),
        mvs: FrameMotionVectors::new(16, 16),
    }
}

fn tile(s: &Source) -> TileState<'_, u8> {
    TileState {
        origin: BlockOffset { x: 0, y: 0 },
        mi_width: 16,
        mi_height: 16,
        input: &s.input,
        input_hres: &s.hres,
        input_qres: &s.qres,
        mvs: vec![
            TileMotionVectors { frame_mvs: &s.mvs, x: 0, y: 0, cols: 16, rows: 16 },
            TileMotionVectors { frame_mvs: &s.mvs, x: 0, y: 0, cols: 16, rows: 16 },
        ],
    }
}

/// Invariants with a reference frame in slot 3 only, in which everything has moved by
/// (`dx`, `dy`) pixels, in each of its planes.
fn invariants(f: fn(isize, isize) -> u8, dx: isize, dy: isize) -> Invariants {
    let rec = ReferenceFrame {
        frame: plane(64, 90, moved(f, dx, dy)),
        input_hres: plane(32, 60, moved(f, dx, dy)),
        input_qres: plane(16, 60, moved(f, dx, dy)),
        frame_mvs: vec![FrameMotionVectors::new(16, 16), FrameMotionVectors::new(16, 16)],
    };
    FrameInvariants {
        w_in_b: 16,
        h_in_b: 16,
        ref_frames: [3, 3, 0, 0, 0, 0, 0],
        predictor: WholePixelPredictor { reference: rec.frame.clone() },
        rec_buffer: ReferenceFramesSet {
            frames: [None, None, None, Some(Arc::new(rec)), None, None, None, None],
        },
        me_lambda: 0,
        me_range_scale: 1,
        allow_high_precision_mv: false,
    }
}

fn reference(fi: &Invariants) -> &ReferenceFrame<u8> {
    fi.rec_buffer.frames[3].as_ref().unwrap()
}

const NO_MVS: [MotionVector; 2] = [MotionVector { row: 0, col: 0 }; 2];

#[test]
fn planes_hold_what_is_written() {
    let mut p: Plane<u16> = Plane::new(3, 2);
    p.set(2, 1, 1023);
    assert_eq!(p.get(2, 1), 1023);
    assert_eq!(p.get(1, 1), 0);
    assert_eq!(p.get(2, 0), 0);
    let padded = plane(4, 2, noise);
    assert_eq!(padded.get(-2, -2), noise(-2, -2));
    assert_eq!(padded.get(5, 3), noise(5, 3));
}

#[test]
fn sum_of_absolute_differences() {
    let a = Plane { data: vec![1u8, 2, 3, 4], stride: 2, alloc_height: 2, xorigin: 0, yorigin: 0 };
    let b = Plane { data: vec![0u8, 4, 3, 1], stride: 2, alloc_height: 2, xorigin: 0, yorigin: 0 };
    assert_eq!(get_sad(&a.region(0, 0), &b.region(0, 0), 2, 2), 6);
    assert_eq!(get_sad(&a.region(0, 1), &b.region(0, 0), 2, 1), 3);
    assert_eq!(get_sad(&a.region(0, 0), &a.region(0, 0), 2, 2), 0);
    let white = Plane {
        data: vec![65535u16; 4],
        stride: 2,
        alloc_height: 2,
        xorigin: 1,
        yorigin: 1,
    };
    let black: Plane<u16> = Plane::new(2, 2);
    assert_eq!(get_sad(&white.region(-1, -1), &black.region(0, 0), 2, 2), 4 * 65535);
}

#[test]
fn cost_weighs_distance_and_rate() {
    let a = Plane { data: vec![1u8, 2, 3, 4], stride: 2, alloc_height: 2, xorigin: 0, yorigin: 0 };
    let b = Plane { data: vec![0u8, 4, 3, 1], stride: 2, alloc_height: 2, xorigin: 0, yorigin: 0 };
    // The first prediction would take 6 bits, the second none and one for its choice.
    let pmv = [mv(0, 0), mv(8, 0)];
    let cost =
        compute_mv_rd_cost(false, pmv, 10, 2, 2, mv(8, 0), &a.region(0, 0), &b.region(0, 0));
    assert_eq!(cost, 256 * 6 + 10);
    let swapped = [mv(8, 0), mv(0, 0)];
    let cheaper =
        compute_mv_rd_cost(false, swapped, 10, 2, 2, mv(8, 0), &a.region(0, 0), &b.region(0, 0));
    assert_eq!(cheaper, 256 * 6);
}

#[test]
fn cost_is_largest_out_of_range() {
    let s = source(noise);
    let fi = invariants(noise, 1, 2);
    let rec = reference(&fi);
    let po = PlaneOffset { x: 16, y: 16 };
    let at = |cand: MotionVector, scratch: &mut Option<Plane<u8>>| {
        get_mv_rd_cost(
            &fi, po, &s.input, &rec.frame, NO_MVS, 7, -16, 16, -24, 24, 8, 8, cand, scratch,
            RefType::LAST_FRAME,
        )
    };
    assert_eq!(at(mv(0, 17), &mut None), u64::MAX);
    assert_eq!(at(mv(0, -17), &mut None), u64::MAX);
    assert_eq!(at(mv(25, 0), &mut None), u64::MAX);
    assert_eq!(at(mv(-25, 0), &mut None), u64::MAX);
    // The block is found where it has moved to; 3 and 4 digits are coded.
    assert_eq!(at(mv(16, 8), &mut None), 7 * (2 * 4 + 2 * 3));
    assert_eq!(at(mv(23, 15), &mut None), 7 * (2 * 4 + 2 * 3));
    let mut scratch = Some(Plane::new(8, 8));
    assert_eq!(at(mv(16, 8), &mut scratch), 7 * (2 * 4 + 2 * 3));
    assert!(at(mv(15, 8), &mut scratch) > 256);
    assert!(at(mv(16, 16), &mut scratch) < u64::MAX);
    assert_eq!(at(mv(0, 17), &mut scratch), u64::MAX);
}

#[test]
fn scratch_plane_holds_the_last_prediction_in_range() {
    let s = source(noise);
    let fi = invariants(noise, 1, 2);
    let rec = reference(&fi);
    let po = PlaneOffset { x: 16, y: 16 };
    let fresh = || {
        let mut p: Plane<u8> = Plane::new(8, 8);
        for k in 0..64 {
            p.set(k % 8, k / 8, 77);
        }
        Some(p)
    };
    let mut scratch = fresh();
    for cand in [mv(0, 17), mv(-25, 0)] {
        let cost = get_mv_rd_cost(
            &fi, po, &s.input, &rec.frame, NO_MVS, 7, -16, 16, -24, 24, 8, 8, cand, &mut scratch,
            RefType::LAST_FRAME,
        );
        assert_eq!(cost, u64::MAX);
        assert_eq!(scratch.as_ref().unwrap().data, [77; 64]);
    }
    get_mv_rd_cost(
        &fi, po, &s.input, &rec.frame, NO_MVS, 7, -16, 16, -24, 24, 8, 8, mv(16, -8),
        &mut scratch, RefType::LAST_FRAME,
    );
    for k in 0..64 {
        let (x, y) = (k % 8, k / 8);
        assert_eq!(scratch.as_ref().unwrap().get(x, y), noise(14 + x, 16 + y));
    }
    let compare = |predictors: &[MotionVector]| {
        let mut scratch = fresh();
        let (mut center, mut cost) = (mv(0, 0), 0);
        get_best_predictor(
            &fi, po, &s.input, &rec.frame, predictors, NO_MVS, 0, -16, 16, -24, 24, 8, 8,
            &mut center, &mut cost, &mut scratch, RefType::LAST_FRAME,
        );
        (center, scratch.unwrap())
    };
    // The first is the best, the second the last in range.
    let (center, held) = compare(&[mv(16, 8), mv(-8, 0), mv(0, 24)]);
    assert_eq!(center, mv(16, 8));
    for k in 0..64 {
        let (x, y) = (k % 8, k / 8);
        assert_eq!(held.get(x, y), noise(15 + x, 13 + y));
    }
    let (center, held) = compare(&[mv(0, 24), mv(32, 0)]);
    assert_eq!(center, mv(0, 0));
    assert_eq!(held.data, [77; 64]);
}

#[test]
fn whole_pixel_prediction_copies_the_block() {
    let fi = invariants(noise, 0, 0);
    let mut dst: Plane<u8> = Plane::new(3, 2);
    fi.predictor.predict_inter(
        RefType::LAST_FRAME,
        PlaneOffset { x: 10, y: 20 },
        3,
        2,
        mv(-9, 15),
        &mut dst,
    );
    for y in 0..2 {
        for x in 0..3 {
            assert_eq!(dst.get(x, y), noise(11 + x, 18 + y));
        }
    }
}

#[test]
fn best_predictor_is_the_first_of_the_cheapest() {
    let s = source(ramp);
    let fi = invariants(ramp, 6, 0);
    let rec = reference(&fi);
    let po = PlaneOffset { x: 16, y: 16 };
    let best = |predictors: &[MotionVector]| {
        let mut center = mv(99, 99);
        let mut cost = 5;
        get_best_predictor(
            &fi, po, &s.input, &rec.frame, predictors, NO_MVS, 0, -128, 128, -128, 128, 8, 8,
            &mut center, &mut cost, &mut None, RefType::LAST_FRAME,
        );
        (center, cost)
    };
    // On the ramp only columns matter: each pixel off costs 64.
    assert_eq!(
        best(&[mv(0, 0), mv(8, 40), mv(16, 40), mv(0, 56)]),
        (mv(8, 40), 256 * 64)
    );
    assert_eq!(best(&[mv(0, 200), mv(0, 48)]), (mv(0, 48), 0));
    assert_eq!(best(&[mv(0, 200), mv(200, 0)]), (mv(0, 0), u64::MAX));
    assert_eq!(best(&[]), (mv(0, 0), u64::MAX));
}

#[test]
fn diamond_walks_down_the_ramp() {
    let s = source(ramp);
    let fi = invariants(ramp, 6, 0);
    let rec = reference(&fi);
    let mut center = mv(99, 99);
    let mut cost = 5;
    diamond_me_search(
        &fi,
        PlaneOffset { x: 16, y: 16 },
        &s.input,
        &rec.frame,
        &[mv(0, 0), mv(0, -8)],
        NO_MVS,
        0,
        -128,
        128,
        -128,
        128,
        8,
        8,
        &mut center,
        &mut cost,
        false,
        RefType::LAST_FRAME,
    );
    assert_eq!((center, cost), (mv(0, 48), 0));
}

#[test]
fn diamond_shrinks_to_one_pixel() {
    let s = source(ramp);
    let fi = invariants(ramp, 5, 0);
    let rec = reference(&fi);
    let mut center = mv(0, 0);
    let mut cost = 0;
    diamond_me_search(
        &fi,
        PlaneOffset { x: 16, y: 16 },
        &s.input,
        &rec.frame,
        &[mv(0, 0)],
        NO_MVS,
        0,
        -128,
        128,
        -128,
        128,
        8,
        8,
        &mut center,
        &mut cost,
        false,
        RefType::LAST_FRAME,
    );
    // Two steps of two pixels, one of one.
    assert_eq!((center, cost), (mv(0, 40), 0));
}

#[test]
fn diamond_stays_in_range() {
    let s = source(ramp);
    let fi = invariants(ramp, 6, 0);
    let rec = reference(&fi);
    let mut center = mv(0, 0);
    let mut cost = 0;
    diamond_me_search(
        &fi,
        PlaneOffset { x: 16, y: 16 },
        &s.input,
        &rec.frame,
        &[mv(0, 0)],
        NO_MVS,
        0,
        -128,
        30,
        -128,
        128,
        8,
        8,
        &mut center,
        &mut cost,
        false,
        RefType::LAST_FRAME,
    );
    assert_eq!((center, cost), (mv(0, 24), 3 * 64 * 256));
}

#[test]
fn refinement_takes_the_first_improvement_of_a_ring() {
    let s = source(ramp);
    let ts = tile(&s);
    let mut fi = invariants(ramp, 6, 0);
    for high_precision in [false, true] {
        fi.allow_high_precision_mv = high_precision;
        let mut best = mv(0, 40);
        let mut cost = 64 * 256;
        telescopic_subpel_search(
            &fi,
            &ts,
            PlaneOffset { x: 16, y: 16 },
            0,
            RefType::LAST_FRAME,
            NO_MVS,
            -128,
            128,
            -128,
            128,
            8,
            8,
            &mut best,
            &mut cost,
        );
        assert_eq!((best, cost), (mv(-8, 48), 0));
    }
}

#[test]
fn refinement_never_raises_the_cost() {
    let s = source(noise);
    let ts = tile(&s);
    let fi = invariants(noise, 3, 3);
    let mut best = mv(0, 0);
    let mut cost = 1;
    telescopic_subpel_search(
        &fi,
        &ts,
        PlaneOffset { x: 16, y: 16 },
        0,
        RefType::LAST_FRAME,
        NO_MVS,
        -128,
        128,
        -128,
        128,
        8,
        8,
        &mut best,
        &mut cost,
    );
    assert_eq!((best, cost), (mv(0, 0), 1));
}

#[test]
fn full_search_finds_the_block() {
    let s = source(noise);
    let fi = invariants(noise, 4, -6);
    let rec = reference(&fi);
    let po = PlaneOffset { x: 16, y: 20 };
    let mut best = mv(1, 1);
    let mut cost = 0;
    full_search(
        6, 26, 10, 30, 8, 8, &s.input, &rec.frame, &mut best, &mut cost, po, 2, 3, NO_MVS, false,
    );
    // (-48 >> 1) and (32 >> 1) have 5 digits each.
    assert_eq!((best, cost), (mv(-48, 32), 3 * 20));
    // The block has moved by an odd number of columns, which steps of two miss.
    full_search(
        7, 26, 10, 30, 8, 8, &s.input, &rec.frame, &mut best, &mut cost, po, 2, 3, NO_MVS, false,
    );
    assert!(cost > 256);
}

#[test]
fn full_search_takes_the_first_of_equal_positions() {
    let flat = plane(32, 16, |_, _| 9);
    let mut best = mv(1, 1);
    let mut cost = 77;
    full_search(
        -3, 5, 2, 6, 4, 4, &flat, &flat, &mut best, &mut cost, PlaneOffset { x: 1, y: 4 }, 1, 0,
        NO_MVS, true,
    );
    assert_eq!((best, cost), (mv(-16, -32), 0));
    // A single position.
    full_search(
        3, 3, 5, 5, 4, 4, &flat, &flat, &mut best, &mut cost, PlaneOffset { x: 1, y: 4 }, 7, 1,
        NO_MVS, true,
    );
    assert_eq!((best, cost), (mv(8, 16), 2 * 4 + 2 * 5));
}

#[test]
fn full_search_far_from_the_origin() {
    let wide = Plane {
        data: (0..4 * 40100u32)
            .map(|k| noise((k % 40100) as isize, (k / 40100) as isize))
            .collect(),
        stride: 40100,
        alloc_height: 4,
        xorigin: 0,
        yorigin: 0,
    };
    let mut best = mv(1, 1);
    let mut cost = 0;
    full_search(
        39990, 40010, 0, 2, 2, 2, &wide, &wide, &mut best, &mut cost,
        PlaneOffset { x: 40000, y: 1 }, 1, 0, NO_MVS, true,
    );
    assert_eq!((best, cost), (mv(0, 0), 0));
}

#[test]
fn motion_estimation_finds_the_motion() {
    let s = source(noise);
    let ts = tile(&s);
    let fi = invariants(noise, 4, -6);
    let bo = BlockOffset { x: 4, y: 4 };
    let found = DiamondSearch::motion_estimation(
        &fi, &ts, BlockSize::BLOCK_16X16, bo, RefType::LAST_FRAME, mv(-48, 32), NO_MVS,
    );
    assert_eq!(found, mv(-48, 32));
    // The exhaustive search finds it from a vector that is off.
    let also = FullSearch::motion_estimation(
        &fi, &ts, BlockSize::BLOCK_16X16, bo, RefType::LAST2_FRAME, mv(0, 0), NO_MVS,
    );
    assert_eq!(also, mv(-48, 32));
}

#[test]
fn motion_estimation_without_reference_is_zero() {
    let s = source(noise);
    let ts = tile(&s);
    let fi = invariants(noise, 4, -6);
    let bo = BlockOffset { x: 4, y: 4 };
    let golden = RefType::GOLDEN_FRAME;
    let size = BlockSize::BLOCK_16X16;
    assert_eq!(
        DiamondSearch::motion_estimation(&fi, &ts, size, bo, golden, mv(-48, 32), NO_MVS),
        mv(0, 0)
    );
    assert_eq!(
        FullSearch::motion_estimation(&fi, &ts, size, bo, golden, mv(-48, 32), NO_MVS),
        mv(0, 0)
    );
}

#[test]
fn full_pixel_stage_starts_from_neighbours() {
    let mut s = source(noise);
    s.mvs[4][3] = mv(-48, 32);
    let ts = tile(&s);
    let fi = invariants(noise, 4, -6);
    let mut best = mv(0, 0);
    let mut cost = u64::MAX;
    DiamondSearch::full_pixel_me(
        &fi,
        &ts,
        reference(&fi),
        BlockOffset { x: 4, y: 4 },
        2,
        mv(0, 0),
        NO_MVS,
        -256,
        256,
        -256,
        256,
        16,
        16,
        &mut best,
        &mut cost,
        RefType::LAST_FRAME,
    );
    assert_eq!((best, cost), (mv(-48, 32), 2 * 20));
}

#[test]
fn full_search_stage_keeps_within_its_window() {
    let s = source(noise);
    let ts = tile(&s);
    let fi = invariants(noise, 20, 0);
    let bo = BlockOffset { x: 4, y: 4 };
    let search = |cmv: MotionVector, mvx_max: isize| {
        let mut best = mv(0, 0);
        let mut cost = u64::MAX;
        FullSearch::full_pixel_me(
            &fi, &ts, reference(&fi), bo, 0, cmv, NO_MVS, -256, mvx_max, -256, 256, 16, 16,
            &mut best, &mut cost, RefType::LAST_FRAME,
        );
        (best, cost)
    };
    // Twenty pixels are out of reach from zero, within reach from 39 eighths.
    assert!(search(mv(0, 0), 256).1 > 0);
    assert_eq!(search(mv(0, 39), 256), (mv(0, 160), 0));
    let bounded = search(mv(0, 39), 100);
    assert!(bounded.0.col <= 100 && bounded.1 > 0);
}

#[test]
fn half_resolution_search_uses_the_last_vector() {
    let s = source(noise);
    let ts = tile(&s);
    let fi = invariants(noise, 3, -2);
    let bo = BlockOffset { x: 4, y: 4 };
    let size = BlockSize::BLOCK_16X16;
    // At half resolution the motion is (-16, 24).
    let right = Some(mv(-32, 48));
    let diamond = |pmvs: [Option<MotionVector>; 3]| {
        DiamondSearch::estimate_motion_ss2(&fi, &ts, size, 3, bo, &pmvs, 0)
    };
    assert_eq!(diamond([None, None, right]), Some(mv(-32, 48)));
    assert_eq!(diamond([Some(mv(0, 0)), right, None]), Some(mv(-32, 48)));
    assert_eq!(diamond([None, None, None]), Some(mv(0, 0)));
    let full = |pmvs: [Option<MotionVector>; 3]| {
        FullSearch::estimate_motion_ss2(&fi, &ts, size, 3, bo, &pmvs, 0)
    };
    assert_eq!(full([None, right, None]), Some(mv(-32, 48)));
    assert_eq!(full([None, None, None]), Some(mv(0, 0)));
    // A last vector from which the motion is out of reach decides, though an earlier one
    // found it.
    assert!(full([right, None, Some(mv(0, 250))]) != Some(mv(-32, 48)));
    assert_eq!(full([Some(mv(0, 250)), None, right]), Some(mv(-32, 48)));
}

#[test]
fn half_resolution_search_needs_a_reference() {
    let s = source(noise);
    let ts = tile(&s);
    let fi = invariants(noise, 3, -2);
    let bo = BlockOffset { x: 4, y: 4 };
    let pmvs = [Some(mv(0, 0)), None, None];
    let size = BlockSize::BLOCK_16X16;
    assert_eq!(DiamondSearch::estimate_motion_ss2(&fi, &ts, size, 2, bo, &pmvs, 0), None);
    assert_eq!(FullSearch::estimate_motion_ss2(&fi, &ts, size, 0, bo, &pmvs, 0), None);
}

#[test]
fn quarter_resolution_search_finds_the_motion() {
    let s = source(noise);
    let ts = tile(&s);
    let fi = invariants(noise, 2, -3);
    let size = BlockSize::BLOCK_32X32;
    let bo = BlockOffset { x: 4, y: 4 };
    assert_eq!(estimate_motion_ss4(&fi, &ts, size, 3, bo), Some(mv(-96, 64)));
    assert_eq!(estimate_motion_ss4(&fi, &ts, size, 4, bo), None);
    // A block that sticks out of the tile is moved into it.
    let out = BlockOffset { x: 12, y: 14 };
    assert_eq!(estimate_motion_ss4(&fi, &ts, size, 3, out), Some(mv(-96, 64)));
}

#[test]
fn lambda_is_scaled_down_and_bounded() {
    assert_eq!(scale_lambda(1000, 1), 1000);
    assert_eq!(scale_lambda(1000, 16), 62);
    assert_eq!(scale_lambda(1000, 64), 15);
    assert_eq!(scale_lambda(u64::MAX, 64), u32::MAX);
    assert_eq!(scale_lambda(1 << 33, 16), 1 << 29);
}

#[test]
fn lambda_makes_far_vectors_dear() {
    let flat: fn(isize, isize) -> u8 = |_, _| 50;
    let s = source(flat);
    let ts = tile(&s);
    let mut fi = invariants(flat, 0, 0);
    fi.me_lambda = 128;
    // All blocks look the same, so the predicted vector is the cheapest.
    let found = DiamondSearch::motion_estimation(
        &fi,
        &ts,
        BlockSize::BLOCK_8X8,
        BlockOffset { x: 6, y: 6 },
        RefType::LAST_FRAME,
        mv(16, 16),
        [mv(16, 16), mv(40, 40)],
    );
    assert_eq!(found, mv(16, 16));
}
