//! The vectors from which a search starts: those of the neighbours of a block, in
//! its own frame and in the reference frame, as in the enhanced predictive zonal
//! search (EPZS).
use crate::frame::{FrameMotionVectors, ReferenceFrame, TileMotionVectors};
use crate::geometry::BlockOffset;
use crate::mv::{zero_mv, MotionVector};
use crate::num::{fits_i16, half_i16, trunc_div};
use crate::plane::Pixel;
use arrayvec::ArrayVec;
use vstd::prelude::*;

verus! {

/// Up to eleven vectors, in an `arrayvec::ArrayVec`.
#[verifier::external_body]
pub struct Predictors {
    items: ArrayVec<[MotionVector; 11]>,
}

/// The vectors, in the order in which they were added.
pub uninterp spec fn predictor_items(predictors: Predictors) -> Seq<MotionVector>;

impl View for Predictors {
    type V = Seq<MotionVector>;

    open spec fn view(&self) -> Seq<MotionVector> {
        predictor_items(*self)
    }
}

/// Calls `ArrayVec::new`, which makes an empty vector.
#[verifier::external_body]
fn predictors_new() -> (r: Predictors)
    ensures
        predictor_items(r) == Seq::<MotionVector>::empty(),
{
    Predictors { items: ArrayVec::new() }
}

/// Calls `ArrayVec::push`, which adds `mv` behind the items that are there, and
/// would panic if there were eleven already.
#[verifier::external_body]
fn predictors_push(predictors: &mut Predictors, mv: MotionVector)
    requires
        predictor_items(*old(predictors)).len() < 11,
    ensures
        predictor_items(*final(predictors)) == predictor_items(*old(predictors)).push(mv),
{
    predictors.items.push(mv)
}

/// Calls `ArrayVec::as_slice`, which shows the items.
#[verifier::external_body]
fn predictors_as_slice(predictors: &Predictors) -> (r: &[MotionVector])
    ensures
        r@ == predictor_items(*predictors),
{
    predictors.items.as_slice()
}

/// Calls `ArrayVec::as_mut_slice`, which shows the items to be changed: those that
/// the slice holds in the end are those of the vector.
#[verifier::external_body]
fn predictors_as_mut_slice(predictors: &mut Predictors) -> (r: &mut [MotionVector])
    ensures
        r@ == predictor_items(*old(predictors)),
        predictor_items(*final(predictors)) == final(r)@,
{
    predictors.items.as_mut_slice()
}

impl Predictors {
    /// The vectors as a slice.
    pub fn as_slice(&self) -> (r: &[MotionVector])
        ensures
            r@ == self@,
    {
        predictors_as_slice(self)
    }

    /// Halves both components of each vector, rounding down, for a search in planes
    /// of half the width and height.
    pub fn halve(&mut self)
        ensures
            final(self)@ == halved_mvs(old(self)@),
    {
        halve_all(predictors_as_mut_slice(self));
    }
}

fn halve_all(items: &mut [MotionVector])
    ensures
        final(items)@ == halved_mvs(old(items)@),
{
    let ghost before = items@;
    let len: usize = items.len();
    let mut k: usize = 0;
    while k < len
        invariant
            k <= len,
            items@.len() == len,
            before.len() == len,
            forall|m: int| 0 <= m < k ==> #[trigger] items@[m] == halved_mv(before[m]),
            forall|m: int| k <= m < len ==> #[trigger] items@[m] == before[m],
        decreases len - k,
    {
        let mv: MotionVector = items[k];
        items[k] = MotionVector { row: half_i16(mv.row), col: half_i16(mv.col) };
        k = k + 1;
    }
    assert(items@ =~= halved_mvs(before));
}

/// Up to three vectors, in an `arrayvec::ArrayVec`.
#[verifier::external_body]
pub struct Neighbours {
    items: ArrayVec<[MotionVector; 3]>,
}

/// The vectors, in the order in which they were added.
pub uninterp spec fn neighbour_items(neighbours: Neighbours) -> Seq<MotionVector>;

/// Calls `ArrayVec::new`, which makes an empty vector.
#[verifier::external_body]
fn neighbours_new() -> (r: Neighbours)
    ensures
        neighbour_items(r) == Seq::<MotionVector>::empty(),
{
    Neighbours { items: ArrayVec::new() }
}

/// Calls `ArrayVec::push`, which adds `mv` behind the items that are there, and
/// would panic if there were three already.
#[verifier::external_body]
fn neighbours_push(neighbours: &mut Neighbours, mv: MotionVector)
    requires
        neighbour_items(*old(neighbours)).len() < 3,
    ensures
        neighbour_items(*final(neighbours)) == neighbour_items(*old(neighbours)).push(mv),
{
    neighbours.items.push(mv)
}

/// Calls `ArrayVec::as_slice`, which shows the items.
#[verifier::external_body]
fn neighbours_as_slice(neighbours: &Neighbours) -> (r: &[MotionVector])
    ensures
        r@ == neighbour_items(*neighbours),
{
    neighbours.items.as_slice()
}

/// A vector for a plane of half the width and height.
pub open spec fn halved_mv(mv: MotionVector) -> MotionVector {
    MotionVector { row: (mv.row as int / 2) as i16, col: (mv.col as int / 2) as i16 }
}

/// Each of the vectors halved: see [`halved_mv`].
pub open spec fn halved_mvs(mvs: Seq<MotionVector>) -> Seq<MotionVector> {
    Seq::new(mvs.len(), |k: int| halved_mv(mvs[k]))
}

/// Those of the vectors that are not zero, in the same order.
pub open spec fn non_zero(mvs: Seq<MotionVector>) -> Seq<MotionVector>
    decreases mvs.len(),
{
    if mvs.len() == 0 {
        Seq::empty()
    } else if mvs.last() == zero_mv() {
        non_zero(mvs.drop_last())
    } else {
        non_zero(mvs.drop_last()).push(mvs.last())
    }
}

/// `mv` if `condition` holds, nothing otherwise.
pub open spec fn only_if(condition: bool, mv: MotionVector) -> Seq<MotionVector> {
    if condition {
        seq![mv]
    } else {
        seq![]
    }
}

/// The vectors of the blocks to the left, above, and above to the right of
/// `tile_bo`, as far as the tile has them (subsets A and B).
pub open spec fn spatial_neighbours(
    tile_bo: BlockOffset,
    tile_mvs: TileMotionVectors<'_>,
) -> Seq<MotionVector> {
    only_if(tile_bo.x > 0, tile_mvs.at(tile_bo.x - 1, tile_bo.y as int)) + only_if(
        tile_bo.y > 0,
        tile_mvs.at(tile_bo.x as int, tile_bo.y - 1),
    ) + only_if(
        tile_bo.y > 0 && tile_bo.x < tile_mvs.cols - 1,
        tile_mvs.at(tile_bo.x + 1, tile_bo.y - 1),
    )
}

/// Whether the tile has the blocks to the left and above, where these are read at all.
pub open spec fn has_spatial_neighbours(
    tile_bo: BlockOffset,
    tile_mvs: TileMotionVectors<'_>,
) -> bool {
    &&& tile_bo.x > 0 ==> tile_bo.x <= tile_mvs.cols && tile_bo.y < tile_mvs.rows
    &&& tile_bo.y > 0 ==> tile_bo.x < tile_mvs.cols && tile_bo.y <= tile_mvs.rows
}

/// The vectors that the blocks to the left, above, to the right, below and in the
/// place of `frame_bo` have in another frame, as far as it has them (subset C).
pub open spec fn temporal_neighbours(
    frame_bo: BlockOffset,
    frame_mvs: FrameMotionVectors,
) -> Seq<MotionVector> {
    only_if(frame_bo.x > 0, frame_mvs.at(frame_bo.x - 1, frame_bo.y as int)) + only_if(
        frame_bo.y > 0,
        frame_mvs.at(frame_bo.x as int, frame_bo.y - 1),
    ) + only_if(
        frame_bo.x < frame_mvs.cols - 1,
        frame_mvs.at(frame_bo.x + 1, frame_bo.y as int),
    ) + only_if(
        frame_bo.y < frame_mvs.rows - 1,
        frame_mvs.at(frame_bo.x as int, frame_bo.y + 1),
    ) + seq![frame_mvs.at(frame_bo.x as int, frame_bo.y as int)]
}

/// The sum of the rows of the vectors.
pub open spec fn row_total(mvs: Seq<MotionVector>) -> int
    decreases mvs.len(),
{
    if mvs.len() == 0 {
        0
    } else {
        row_total(mvs.drop_last()) + mvs.last().row
    }
}

/// The sum of the columns of the vectors.
pub open spec fn col_total(mvs: Seq<MotionVector>) -> int
    decreases mvs.len(),
{
    if mvs.len() == 0 {
        0
    } else {
        col_total(mvs.drop_last()) + mvs.last().col
    }
}

/// Whether the vectors can be added up one by one in 16 bits.
pub open spec fn totals_fit(mvs: Seq<MotionVector>) -> bool {
    forall|k: int|
        0 <= k <= mvs.len() ==> fits_i16(row_total(#[trigger] mvs.take(k))) && fits_i16(
            col_total(mvs.take(k)),
        )
}

/// The mean of the vectors, rounded towards zero.
pub open spec fn mean_mv(mvs: Seq<MotionVector>) -> MotionVector {
    MotionVector {
        row: trunc_div(row_total(mvs), mvs.len() as int) as i16,
        col: trunc_div(col_total(mvs), mvs.len() as int) as i16,
    }
}

/// The vectors from which to start the search for the block at `tile_bo`: zero,
/// the result `cmv` of a coarser search, those of the neighbours and their mean,
/// and those around the same block of the reference frame. All but the first two
/// are left out where they are zero.
pub open spec fn subset_predictors<T: Pixel>(
    tile_bo: BlockOffset,
    cmv: MotionVector,
    tile_mvs: TileMotionVectors<'_>,
    frame_ref_opt: Option<&ReferenceFrame<T>>,
    ref_frame_id: usize,
) -> Seq<MotionVector> {
    let neighbours = spatial_neighbours(tile_bo, tile_mvs);
    seq![zero_mv(), cmv.fullpel()] + non_zero(neighbours) + non_zero(
        only_if(neighbours.len() > 0, mean_mv(neighbours).fullpel()),
    ) + match frame_ref_opt {
        Some(frame_ref) => non_zero(
            temporal_neighbours(
                frame_block_offset(tile_bo, tile_mvs),
                frame_ref.frame_mvs@[ref_frame_id as int],
            ),
        ),
        None => seq![],
    }
}

/// The position in the frame of the block at `tile_bo` in a tile.
pub open spec fn frame_block_offset(
    tile_bo: BlockOffset,
    tile_mvs: TileMotionVectors<'_>,
) -> BlockOffset {
    BlockOffset { x: (tile_mvs.x + tile_bo.x) as usize, y: (tile_mvs.y + tile_bo.y) as usize }
}

/// Whether those vectors are defined: the tile has the neighbours that are read, the place of
/// the block in the reference frame exists, and the vectors of the neighbours can be added up.
pub open spec fn subset_predictors_defined<T: Pixel>(
    tile_bo: BlockOffset,
    tile_mvs: TileMotionVectors<'_>,
    frame_ref_opt: Option<&ReferenceFrame<T>>,
    ref_frame_id: usize,
) -> bool {
    &&& tile_mvs.wf()
    &&& has_spatial_neighbours(tile_bo, tile_mvs)
    &&& totals_fit(spatial_neighbours(tile_bo, tile_mvs))
    &&& frame_ref_opt matches Some(frame_ref) ==> {
        &&& ref_frame_id < frame_ref.frame_mvs@.len()
        &&& frame_ref.frame_mvs@[ref_frame_id as int].wf()
        &&& tile_mvs.x + tile_bo.x < frame_ref.frame_mvs@[ref_frame_id as int].cols
        &&& tile_mvs.y + tile_bo.y < frame_ref.frame_mvs@[ref_frame_id as int].rows
    }
}

proof fn lemma_non_zero_push(mvs: Seq<MotionVector>, mv: MotionVector)
    ensures
        non_zero(mvs.push(mv)) == if mv == zero_mv() {
            non_zero(mvs)
        } else {
            non_zero(mvs).push(mv)
        },
{
    assert(mvs.push(mv).drop_last() =~= mvs);
}

/// What is left without the zero vectors is no more, and holds none.
pub proof fn lemma_non_zero(mvs: Seq<MotionVector>)
    ensures
        non_zero(mvs).len() <= mvs.len(),
        forall|k: int| 0 <= k < non_zero(mvs).len() ==> #[trigger] non_zero(mvs)[k] != zero_mv(),
    decreases mvs.len(),
{
    if mvs.len() > 0 {
        lemma_non_zero(mvs.drop_last());
    }
}

/// Adds `mv` to the predictors unless it is zero.
fn push_non_zero(
    predictors: &mut Predictors,
    mv: MotionVector,
    Ghost(before): Ghost<Seq<MotionVector>>,
    Ghost(seen): Ghost<Seq<MotionVector>>,
)
    requires
        old(predictors)@ == before + non_zero(seen),
        before.len() + seen.len() < 11,
    ensures
        final(predictors)@ == before + non_zero(seen.push(mv)),
{
    proof {
        lemma_non_zero(seen);
        lemma_non_zero_push(seen, mv);
    }
    if !mv.is_zero() {
        predictors_push(predictors, mv);
        assert(predictors@ =~= before + non_zero(seen.push(mv)));
    }
}

/// The mean of the vectors, rounded towards zero.
fn mean(mvs: &[MotionVector]) -> (r: MotionVector)
    requires
        0 < mvs@.len() <= 3,
        totals_fit(mvs@),
    ensures
        r == mean_mv(mvs@),
{
    let mut total: MotionVector = MotionVector::default();
    let mut k: usize = 0;
    while k < mvs.len()
        invariant
            k <= mvs@.len(),
            totals_fit(mvs@),
            total.row == row_total(mvs@.take(k as int)),
            total.col == col_total(mvs@.take(k as int)),
        decreases mvs@.len() - k,
    {
        proof {
            let longer = mvs@.take(k + 1);
            assert(longer.drop_last() =~= mvs@.take(k as int));
            assert(fits_i16(row_total(longer)) && fits_i16(col_total(longer)));
        }
        total = total + mvs[k];
        k = k + 1;
    }
    assert(mvs@.take(k as int) =~= mvs@);
    total / (mvs.len() as i16)
}

/// Adds the vectors of the neighbours in the tile (subsets A and B), as far as they
/// are not zero, and returns all of them.
fn push_spatial(
    predictors: &mut Predictors,
    tile_bo: BlockOffset,
    tile_mvs: &TileMotionVectors<'_>,
) -> (r: Neighbours)
    requires
        old(predictors)@.len() <= 2,
        tile_mvs.wf(),
        has_spatial_neighbours(tile_bo, *tile_mvs),
    ensures
        neighbour_items(r) == spatial_neighbours(tile_bo, *tile_mvs),
        final(predictors)@ == old(predictors)@ + non_zero(spatial_neighbours(tile_bo, *tile_mvs)),
{
    let ghost before = predictors@;
    let mut median_preds = neighbours_new();
    assert(predictors@ =~= before + non_zero(neighbour_items(median_preds)));
    if tile_bo.x > 0 {
        let left: MotionVector = tile_mvs[tile_bo.y][tile_bo.x - 1];
        push_non_zero(predictors, left, Ghost(before), Ghost(neighbour_items(median_preds)));
        neighbours_push(&mut median_preds, left);
    }
    let ghost seen_left = only_if(tile_bo.x > 0, tile_mvs.at(tile_bo.x - 1, tile_bo.y as int));
    assert(neighbour_items(median_preds) =~= seen_left);
    if tile_bo.y > 0 {
        let top: MotionVector = tile_mvs[tile_bo.y - 1][tile_bo.x];
        push_non_zero(predictors, top, Ghost(before), Ghost(neighbour_items(median_preds)));
        neighbours_push(&mut median_preds, top);
        let ghost seen_top = seen_left + seq![tile_mvs.at(tile_bo.x as int, tile_bo.y - 1)];
        assert(neighbour_items(median_preds) =~= seen_top);
        if tile_bo.x < tile_mvs.cols - 1 {
            let top_right: MotionVector = tile_mvs[tile_bo.y - 1][tile_bo.x + 1];
            push_non_zero(
                predictors,
                top_right,
                Ghost(before),
                Ghost(neighbour_items(median_preds)),
            );
            neighbours_push(&mut median_preds, top_right);
            assert(neighbour_items(median_preds) =~= seen_top + seq![top_right]);
        }
    }
    assert(neighbour_items(median_preds) =~= spatial_neighbours(tile_bo, *tile_mvs));
    median_preds
}

/// Adds the mean of the vectors, in whole pixels, unless it is zero or there are no
/// vectors.
fn push_mean(predictors: &mut Predictors, mvs: &[MotionVector])
    requires
        old(predictors)@.len() <= 5,
        mvs@.len() <= 3,
        totals_fit(mvs@),
    ensures
        final(predictors)@ == old(predictors)@ + non_zero(
            only_if(mvs@.len() > 0, mean_mv(mvs@).fullpel()),
        ),
{
    let ghost before = predictors@;
    let ghost none: Seq<MotionVector> = seq![];
    assert(predictors@ =~= before + non_zero(none));
    if mvs.len() > 0 {
        let median_mv_quant: MotionVector = mean(mvs).quantize_to_fullpel();
        push_non_zero(predictors, median_mv_quant, Ghost(before), Ghost(none));
        assert(none.push(median_mv_quant) =~= seq![median_mv_quant]);
    } else {
        assert(only_if(mvs@.len() > 0, mean_mv(mvs@).fullpel()) =~= none);
    }
}

/// Adds the vectors around `frame_bo` in another frame (subset C), as far as they
/// are not zero.
fn push_temporal(
    predictors: &mut Predictors,
    frame_bo: BlockOffset,
    prev_frame_mvs: &FrameMotionVectors,
)
    requires
        old(predictors)@.len() <= 6,
        prev_frame_mvs.wf(),
        frame_bo.x < prev_frame_mvs.cols && frame_bo.y < prev_frame_mvs.rows,
    ensures
        final(predictors)@ == old(predictors)@ + non_zero(
            temporal_neighbours(frame_bo, *prev_frame_mvs),
        ),
{
    let ghost before = predictors@;
    let ghost mut seen: Seq<MotionVector> = seq![];
    assert(predictors@ =~= before + non_zero(seen));
    if frame_bo.x > 0 {
        let left: MotionVector = prev_frame_mvs[frame_bo.y][frame_bo.x - 1];
        push_non_zero(predictors, left, Ghost(before), Ghost(seen));
        proof {
            seen = seen.push(left);
        }
    }
    let ghost part1 = only_if(
        frame_bo.x > 0,
        prev_frame_mvs.at(frame_bo.x - 1, frame_bo.y as int),
    );
    assert(seen =~= part1);
    if frame_bo.y > 0 {
        let top: MotionVector = prev_frame_mvs[frame_bo.y - 1][frame_bo.x];
        push_non_zero(predictors, top, Ghost(before), Ghost(seen));
        proof {
            seen = seen.push(top);
        }
    }
    let ghost part2 = part1 + only_if(
        frame_bo.y > 0,
        prev_frame_mvs.at(frame_bo.x as int, frame_bo.y - 1),
    );
    assert(seen =~= part2);
    if frame_bo.x < prev_frame_mvs.cols - 1 {
        let right: MotionVector = prev_frame_mvs[frame_bo.y][frame_bo.x + 1];
        push_non_zero(predictors, right, Ghost(before), Ghost(seen));
        proof {
            seen = seen.push(right);
        }
    }
    let ghost part3 = part2 + only_if(
        frame_bo.x < prev_frame_mvs.cols - 1,
        prev_frame_mvs.at(frame_bo.x + 1, frame_bo.y as int),
    );
    assert(seen =~= part3);
    if frame_bo.y < prev_frame_mvs.rows - 1 {
        let bottom: MotionVector = prev_frame_mvs[frame_bo.y + 1][frame_bo.x];
        push_non_zero(predictors, bottom, Ghost(before), Ghost(seen));
        proof {
            seen = seen.push(bottom);
        }
    }
    let ghost part4 = part3 + only_if(
        frame_bo.y < prev_frame_mvs.rows - 1,
        prev_frame_mvs.at(frame_bo.x as int, frame_bo.y + 1),
    );
    assert(seen =~= part4);
    let previous: MotionVector = prev_frame_mvs[frame_bo.y][frame_bo.x];
    push_non_zero(predictors, previous, Ghost(before), Ghost(seen));
    proof {
        seen = seen.push(previous);
        assert(seen =~= temporal_neighbours(frame_bo, *prev_frame_mvs));
    }
}

/// The vectors from which to start the search for the block at `tile_bo`, of which
/// a coarser search has found `cmv`.
pub fn get_subset_predictors<T: Pixel>(
    tile_bo: BlockOffset,
    cmv: MotionVector,
    tile_mvs: &TileMotionVectors<'_>,
    frame_ref_opt: Option<&ReferenceFrame<T>>,
    ref_frame_id: usize,
) -> (r: Predictors)
    requires
        subset_predictors_defined(tile_bo, *tile_mvs, frame_ref_opt, ref_frame_id),
    ensures
        r@ == subset_predictors(tile_bo, cmv, *tile_mvs, frame_ref_opt, ref_frame_id),
        2 <= r@.len() <= 11,
{
    let mut predictors = predictors_new();

    // Zero motion vector
    predictors_push(&mut predictors, MotionVector::default());

    // Coarse motion estimation.
    predictors_push(&mut predictors, cmv.quantize_to_fullpel());
    assert(predictors@ =~= seq![zero_mv(), cmv.fullpel()]);

    // EPZS subset A and B predictors.
    let median_preds = push_spatial(&mut predictors, tile_bo, tile_mvs);
    let ghost spatial = spatial_neighbours(tile_bo, *tile_mvs);
    let ghost mean_part = only_if(spatial.len() > 0, mean_mv(spatial).fullpel());
    proof {
        lemma_non_zero(spatial);
        lemma_non_zero(mean_part);
    }
    push_mean(&mut predictors, neighbours_as_slice(&median_preds));

    // EPZS subset C predictors.
    if let Some(frame_ref) = frame_ref_opt {
        let prev_frame_mvs = &frame_ref.frame_mvs[ref_frame_id];
        let frame_bo = BlockOffset { x: tile_mvs.x + tile_bo.x, y: tile_mvs.y + tile_bo.y };
        push_temporal(&mut predictors, frame_bo, prev_frame_mvs);
        proof {
            lemma_non_zero(temporal_neighbours(frame_bo, *prev_frame_mvs));
        }
    } else {
        assert(predictors@ =~= predictors@ + Seq::<MotionVector>::empty());
    }
    predictors
}

} // verus!
