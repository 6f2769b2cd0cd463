//! The motion vectors of a frame, and what the search reads of the frame being
//! coded, of its tiles and of its reference frames.
use crate::geometry::{BlockOffset, PlaneOffset, RefType};
use crate::mv::{zero_mv, MotionVector};
use crate::num::{eighth_i16, min_int};
use crate::plane::{Pixel, Plane};
use std::ops::{Index, IndexMut};
use std::sync::Arc;
use vstd::prelude::*;

verus! {

/// One motion vector for each mode-info block of a frame, row after row.
#[derive(Debug, Clone)]
pub struct FrameMotionVectors {
    pub mvs: Vec<MotionVector>,
    pub cols: usize,
    pub rows: usize,
}

impl FrameMotionVectors {
    /// There is one vector for each block.
    pub open spec fn wf(&self) -> bool {
        self.mvs@.len() == self.cols * self.rows
    }

    /// Whether row `y` can be shown. Without columns any row can, being empty, but for the
    /// last number there is.
    pub open spec fn has_row(&self, y: usize) -> bool {
        y < self.rows || (self.cols == 0 && y < usize::MAX)
    }

    /// The vectors of row `y`.
    pub open spec fn row(&self, y: int) -> Seq<MotionVector> {
        self.mvs@.subrange(y * self.cols, (y + 1) * self.cols)
    }

    /// The vector of the block in column `x` of row `y`.
    pub open spec fn at(&self, x: int, y: int) -> MotionVector {
        self.row(y)[x]
    }

    /// The vectors of a frame of `cols` by `rows` blocks, none of which has moved.
    pub fn new(cols: usize, rows: usize) -> (r: Self)
        requires
            cols * rows * 4 <= isize::MAX,
        ensures
            r.wf(),
            r.cols == cols && r.rows == rows,
            forall|x: int, y: int|
                0 <= x < cols && 0 <= y < rows ==> #[trigger] r.at(x, y) == zero_mv(),
    {
        let r = FrameMotionVectors { mvs: vec![MotionVector::default(); cols * rows], cols, rows };
        assert forall|x: int, y: int| 0 <= x < cols && 0 <= y < rows implies #[trigger] r.at(x, y)
            == zero_mv() by {
            lemma_row_bounds(y, cols as int, rows as int);
        }
        r
    }
}

/// Where row `y` of `rows` rows of `cols` items lies.
proof fn lemma_row_bounds(y: int, cols: int, rows: int)
    requires
        0 <= y < rows,
        0 <= cols,
    ensures
        0 <= y * cols,
        (y + 1) * cols == y * cols + cols,
        (y + 1) * cols <= cols * rows,
{
    assert((y + 1) * cols <= cols * rows) by (nonlinear_arith)
        requires
            y + 1 <= rows,
            cols >= 0,
    ;
    assert((y + 1) * cols == y * cols + cols) by (nonlinear_arith);
    assert(y * cols >= 0) by (nonlinear_arith)
        requires
            y >= 0,
            cols >= 0,
    ;
}

/// The items of row `y`, where a row has `cols` items.
spec fn row_of(all: Seq<MotionVector>, y: int, cols: int) -> Seq<MotionVector> {
    all.subrange(y * cols, (y + 1) * cols)
}

/// Putting `row` in the place of row `index` leaves the other rows alone.
proof fn lemma_row_replaced(
    all: Seq<MotionVector>,
    row: Seq<MotionVector>,
    index: int,
    cols: int,
    rows: int,
)
    requires
        0 <= index < rows,
        0 <= cols,
        all.len() == cols * rows,
    ensures
        row.len() == cols ==> {
            let rest = all.subrange(index * cols, all.len() as int);
            let changed = all.subrange(0, index * cols) + (row + rest.subrange(
                cols,
                rest.len() as int,
            ));
            &&& changed.len() == all.len()
            &&& changed.subrange(index * cols, (index + 1) * cols) == row
            &&& forall|y: int|
                0 <= y < rows && y != index ==> changed.subrange(
                    #[trigger] (y * cols),
                    (y + 1) * cols,
                ) == row_of(all, y, cols)
        },
{
    lemma_row_bounds(index, cols, rows);
    if row.len() == cols {
        let rest = all.subrange(index * cols, all.len() as int);
        let changed = all.subrange(0, index * cols) + (row + rest.subrange(
            cols,
            rest.len() as int,
        ));
        assert(changed.subrange(index * cols, (index + 1) * cols) =~= row);
        assert forall|y: int| 0 <= y < rows && y != index implies changed.subrange(
            #[trigger] (y * cols),
            (y + 1) * cols,
        ) == row_of(all, y, cols) by {
            lemma_row_bounds(y, cols, rows);
            lemma_rows_apart(y, index, cols);
            assert(changed.subrange(y * cols, (y + 1) * cols) =~= row_of(all, y, cols));
        }
    }
}

/// Different rows do not overlap.
proof fn lemma_rows_apart(y: int, z: int, cols: int)
    requires
        y != z,
        0 <= cols,
    ensures
        (y + 1) * cols <= z * cols || (z + 1) * cols <= y * cols,
{
    if y < z {
        assert((y + 1) * cols <= z * cols) by (nonlinear_arith)
            requires
                y + 1 <= z,
                cols >= 0,
        ;
    } else {
        assert((z + 1) * cols <= y * cols) by (nonlinear_arith)
            requires
                z + 1 <= y,
                cols >= 0,
        ;
    }
}

impl vstd::std_specs::core::IndexSpecImpl<usize> for FrameMotionVectors {
    open spec fn index_req(&self, index: &usize) -> bool {
        self.wf() && self.has_row(*index)
    }
}

impl Index<usize> for FrameMotionVectors {
    type Output = [MotionVector];

    /// The vectors of row `index`.
    fn index(&self, index: usize) -> (r: &[MotionVector])
        ensures
            r@ == self.row(index as int),
            r@.len() == self.cols,
    {
        proof {
            assert(self.mvs.len() == self.mvs@.len());
            if index < self.rows {
                lemma_row_bounds(index as int, self.cols as int, self.rows as int);
            }
        }
        &self.mvs[index * self.cols..(index + 1) * self.cols]
    }
}

impl IndexMut<usize> for FrameMotionVectors {
    /// The vectors of row `index`, to be changed.
    fn index_mut(&mut self, index: usize) -> (r: &mut [MotionVector])
        requires
            old(self).wf(),
            old(self).has_row(index),
        ensures
            r@ == old(self).row(index as int),
            r@.len() == old(self).cols,
            final(self).cols == old(self).cols,
            final(self).rows == old(self).rows,
            final(r)@.len() == r@.len() ==> {
                &&& final(self).wf()
                &&& final(self).row(index as int) == final(r)@
                &&& forall|y: int|
                    0 <= y < old(self).rows && y != index ==> #[trigger] final(self).row(y) == old(
                        self,
                    ).row(y)
            },
    {
        let cols: usize = self.cols;
        proof {
            assert(self.mvs.len() == self.mvs@.len());
            if index < self.rows {
                lemma_row_bounds(index as int, self.cols as int, self.rows as int);
            }
        }
        let (_, rest) = self.mvs.as_mut_slice().split_at_mut(index * cols);
        let (row, _) = rest.split_at_mut(cols);
        proof {
            if index < old(self).rows {
                lemma_row_replaced(
                    old(self).mvs@,
                    final(row)@,
                    index as int,
                    old(self).cols as int,
                    old(self).rows as int,
                );
            }
        }
        row
    }
}

/// The motion vectors of a tile: a rectangle of those of its frame.
#[derive(Clone, Copy)]
pub struct TileMotionVectors<'a> {
    pub frame_mvs: &'a FrameMotionVectors,
    /// The first column and row of the tile, in blocks of the frame.
    pub x: usize,
    pub y: usize,
    pub cols: usize,
    pub rows: usize,
}

impl<'a> TileMotionVectors<'a> {
    /// The tile lies within its frame.
    pub open spec fn wf(&self) -> bool {
        &&& self.frame_mvs.wf()
        &&& self.x + self.cols <= self.frame_mvs.cols
        &&& self.y + self.rows <= self.frame_mvs.rows
    }

    /// The vector of the block in column `x` of row `y` of the tile.
    pub open spec fn at(&self, x: int, y: int) -> MotionVector {
        self.frame_mvs.at(self.x + x, self.y + y)
    }
}

impl<'a> vstd::std_specs::core::IndexSpecImpl<usize> for TileMotionVectors<'a> {
    open spec fn index_req(&self, index: &usize) -> bool {
        self.wf() && *index < self.rows
    }
}

impl<'a> Index<usize> for TileMotionVectors<'a> {
    type Output = [MotionVector];

    /// The vectors of row `index` of the tile.
    fn index(&self, index: usize) -> (r: &[MotionVector])
        ensures
            r@.len() == self.cols,
            forall|x: int| 0 <= x < self.cols ==> #[trigger] r@[x] == self.at(x, index as int),
    {
        let row = &self.frame_mvs[self.y + index];
        &row[self.x..self.x + self.cols]
    }
}

/// A frame that blocks can be predicted from.
#[derive(Debug, Clone)]
pub struct ReferenceFrame<T: Pixel> {
    /// The luma plane of the reconstructed frame.
    pub frame: Plane<T>,
    /// The luma plane of the source frame at half the width and height.
    pub input_hres: Plane<T>,
    /// The luma plane of the source frame at a quarter of the width and height.
    pub input_qres: Plane<T>,
    /// The motion vectors of the frame, for each of its own references.
    pub frame_mvs: Vec<FrameMotionVectors>,
}

/// The slots in which reference frames are kept.
#[derive(Debug, Clone)]
pub struct ReferenceFramesSet<T: Pixel> {
    pub frames: [Option<Arc<ReferenceFrame<T>>>; 8],
}

/// Prediction of a block from a reference frame at any vector, between pixels too.
pub trait InterPredictor<T: Pixel> {
    /// Whether a prediction is defined: what it reads must be there.
    spec fn can_predict(
        &self,
        ref_frame: RefType,
        po: PlaneOffset,
        blk_w: usize,
        blk_h: usize,
        mv: MotionVector,
    ) -> bool;

    /// The predicted luma pixels of the block at `po`, counted from its corner.
    spec fn predicted(
        &self,
        ref_frame: RefType,
        po: PlaneOffset,
        blk_w: usize,
        blk_h: usize,
        mv: MotionVector,
    ) -> spec_fn(int, int) -> int;

    /// Predicted pixels are pixels.
    proof fn lemma_predicted_range(
        &self,
        ref_frame: RefType,
        po: PlaneOffset,
        blk_w: usize,
        blk_h: usize,
        mv: MotionVector,
        i: int,
        j: int,
    )
        requires
            self.can_predict(ref_frame, po, blk_w, blk_h, mv),
            0 <= i < blk_w && 0 <= j < blk_h,
        ensures
            0 <= self.predicted(ref_frame, po, blk_w, blk_h, mv)(i, j) <= 65535,
    ;

    /// Writes the predicted luma pixels to the first `blk_w` by `blk_h` pixels of
    /// `dst`.
    fn predict_inter(
        &self,
        ref_frame: RefType,
        po: PlaneOffset,
        blk_w: usize,
        blk_h: usize,
        mv: MotionVector,
        dst: &mut Plane<T>,
    )
        requires
            self.can_predict(ref_frame, po, blk_w, blk_h, mv),
            old(dst).holds_block(0, 0, blk_w as int, blk_h as int),
        ensures
            final(dst).wf(),
            final(dst).same_layout(old(dst)),
            forall|i: int, j: int|
                0 <= i < blk_w && 0 <= j < blk_h ==> #[trigger] final(dst).pixel(i, j)
                    == self.predicted(ref_frame, po, blk_w, blk_h, mv)(i, j),
    ;
}

/// Prediction without interpolation: the block of a plane to which the vector
/// points, its fractions of a pixel dropped.
#[derive(Debug, Clone)]
pub struct WholePixelPredictor<T: Pixel> {
    pub reference: Plane<T>,
}

impl<T: Pixel> WholePixelPredictor<T> {
    /// The column and row to which `mv` moves the position `po`.
    pub open spec fn target(po: PlaneOffset, mv: MotionVector) -> (int, int) {
        (po.x + mv.col as int / 8, po.y + mv.row as int / 8)
    }
}

impl<T: Pixel> InterPredictor<T> for WholePixelPredictor<T> {
    open spec fn can_predict(
        &self,
        ref_frame: RefType,
        po: PlaneOffset,
        blk_w: usize,
        blk_h: usize,
        mv: MotionVector,
    ) -> bool {
        let target = Self::target(po, mv);
        self.reference.holds_block(target.0, target.1, blk_w as int, blk_h as int)
    }

    open spec fn predicted(
        &self,
        ref_frame: RefType,
        po: PlaneOffset,
        blk_w: usize,
        blk_h: usize,
        mv: MotionVector,
    ) -> spec_fn(int, int) -> int {
        let target = Self::target(po, mv);
        self.reference.pixels_from(target.0, target.1)
    }

    proof fn lemma_predicted_range(
        &self,
        ref_frame: RefType,
        po: PlaneOffset,
        blk_w: usize,
        blk_h: usize,
        mv: MotionVector,
        i: int,
        j: int,
    ) {
        let target = Self::target(po, mv);
        self.reference.lemma_pixel_range(target.0 + i, target.1 + j);
    }

    fn predict_inter(
        &self,
        ref_frame: RefType,
        po: PlaneOffset,
        blk_w: usize,
        blk_h: usize,
        mv: MotionVector,
        dst: &mut Plane<T>,
    ) {
        let ghost target = Self::target(po, mv);
        let ghost source = self.reference.pixels_from(target.0, target.1);
        let x0: isize = po.x + eighth_i16(mv.col) as isize;
        let y0: isize = po.y + eighth_i16(mv.row) as isize;
        let mut j: usize = 0;
        while j < blk_h
            invariant
                j <= blk_h,
                target.0 == x0 && target.1 == y0,
                source == self.reference.pixels_from(target.0, target.1),
                self.reference.holds_block(target.0, target.1, blk_w as int, blk_h as int),
                dst.holds_block(0, 0, blk_w as int, blk_h as int),
                dst.same_layout(old(dst)),
                forall|p: int, q: int|
                    0 <= p < blk_w && 0 <= q < j ==> #[trigger] dst.pixel(p, q) == source(p, q),
            decreases blk_h - j,
        {
            let mut i: usize = 0;
            while i < blk_w
                invariant
                    i <= blk_w,
                    j < blk_h,
                    target.0 == x0 && target.1 == y0,
                    source == self.reference.pixels_from(target.0, target.1),
                    self.reference.holds_block(target.0, target.1, blk_w as int, blk_h as int),
                    dst.holds_block(0, 0, blk_w as int, blk_h as int),
                    dst.same_layout(old(dst)),
                    forall|p: int, q: int|
                        0 <= p < blk_w && 0 <= q < j ==> #[trigger] dst.pixel(p, q) == source(p, q),
                    forall|p: int|
                        0 <= p < i ==> #[trigger] dst.pixel(p, j as int) == source(p, j as int),
                decreases blk_w - i,
            {
                let value = self.reference.get(x0 + i as isize, y0 + j as isize);
                dst.set(i as isize, j as isize, value);
                i = i + 1;
            }
            j = j + 1;
        }
    }
}

/// What stays the same while a frame is coded, as far as the search reads it.
#[derive(Debug, Clone)]
pub struct FrameInvariants<T: Pixel, I: InterPredictor<T>> {
    /// The width and height of the frame in mode-info blocks.
    pub w_in_b: usize,
    pub h_in_b: usize,
    /// For each reference, the slot in which its frame is kept.
    pub ref_frames: [u8; 7],
    pub rec_buffer: ReferenceFramesSet<T>,
    /// What a bit of rate is worth in distortion, in units of 1/128.
    pub me_lambda: u64,
    /// By how much the range of the coarse search is widened.
    pub me_range_scale: u8,
    /// Whether vectors are coded to an eighth of a pixel, not a quarter.
    pub allow_high_precision_mv: bool,
    /// How blocks are predicted from the reference frames.
    pub predictor: I,
}

impl<T: Pixel, I: InterPredictor<T>> FrameInvariants<T, I> {
    /// The reference frame in a slot, if there is one.
    pub open spec fn slot(&self, index: int) -> Option<&ReferenceFrame<T>> {
        match self.rec_buffer.frames@[index] {
            Some(frame) => Some(&*frame),
            None => None,
        }
    }

    /// The frame that a reference names, if it is there.
    pub open spec fn reference(&self, ref_frame: RefType) -> Option<&ReferenceFrame<T>> {
        self.slot(self.ref_frames@[ref_frame.ref_index()] as int)
    }

    /// Whether the slot of a reference exists.
    pub open spec fn has_slot(&self, ref_frame: RefType) -> bool {
        self.ref_frames@[ref_frame.ref_index()] < 8
    }

    /// The reference frame in a slot, if there is one.
    pub fn frame_in_slot(&self, index: usize) -> (r: Option<&ReferenceFrame<T>>)
        requires
            index < 8,
        ensures
            r == self.slot(index as int),
    {
        match &self.rec_buffer.frames[index] {
            Some(frame) => Some(&**frame),
            None => None,
        }
    }
}

impl<T: Pixel, I: InterPredictor<T>> FrameInvariants<T, I> {
    /// The frame that a reference names, if it is there.
    pub fn frame_of(&self, ref_frame: RefType) -> (r: Option<&ReferenceFrame<T>>)
        requires
            ref_frame.is_inter(),
            self.has_slot(ref_frame),
        ensures
            r == self.reference(ref_frame),
    {
        self.frame_in_slot(self.ref_frames[ref_frame.to_index()] as usize)
    }
}

/// `me_lambda` divided by `divisor`, as far as 32 bits hold it.
pub open spec fn scaled_lambda(me_lambda: u64, divisor: int) -> u32 {
    min_int(me_lambda as int / divisor, u32::MAX as int) as u32
}

/// Divides `me_lambda` by `divisor`; too large a quotient gives the largest number.
pub fn scale_lambda(me_lambda: u64, divisor: u64) -> (r: u32)
    requires
        divisor > 0,
    ensures
        r == scaled_lambda(me_lambda, divisor as int),
        r == min_int(me_lambda as int / divisor as int, u32::MAX as int),
{
    let quotient: u64 = me_lambda / divisor;
    if quotient > u32::MAX as u64 {
        u32::MAX
    } else {
        quotient as u32
    }
}

/// What the search reads of a tile of the frame being coded.
pub struct TileState<'a, T: Pixel> {
    /// The position of the tile in the frame.
    pub origin: BlockOffset,
    /// The width and height of the tile in mode-info blocks.
    pub mi_width: usize,
    pub mi_height: usize,
    /// The luma plane of the source frame.
    pub input: &'a Plane<T>,
    /// The same at half the width and height.
    pub input_hres: &'a Plane<T>,
    /// The same at a quarter of the width and height.
    pub input_qres: &'a Plane<T>,
    /// The vectors found so far in this tile, for each reference.
    pub mvs: Vec<TileMotionVectors<'a>>,
}

impl<'a, T: Pixel> TileState<'a, T> {
    /// The position in the frame of the block at `tile_bo` in the tile.
    pub open spec fn frame_bo(&self, tile_bo: BlockOffset) -> BlockOffset {
        BlockOffset {
            x: (self.origin.x + tile_bo.x) as usize,
            y: (self.origin.y + tile_bo.y) as usize,
        }
    }

    /// Whether that position can be represented.
    pub open spec fn has_frame_bo(&self, tile_bo: BlockOffset) -> bool {
        self.origin.x + tile_bo.x <= usize::MAX && self.origin.y + tile_bo.y <= usize::MAX
    }

    /// The position in the frame of the block at `tile_bo` in the tile.
    pub fn to_frame_block_offset(&self, tile_bo: BlockOffset) -> (r: BlockOffset)
        requires
            self.has_frame_bo(tile_bo),
        ensures
            r == self.frame_bo(tile_bo),
            r.x == self.origin.x + tile_bo.x,
            r.y == self.origin.y + tile_bo.y,
    {
        BlockOffset { x: self.origin.x + tile_bo.x, y: self.origin.y + tile_bo.y }
    }
}

impl<'a, T: Pixel> TileState<'a, T> {
    /// The vectors found so far in this tile for a reference.
    pub fn tile_mvs(&self, ref_frame: usize) -> (r: &TileMotionVectors<'a>)
        requires
            ref_frame < self.mvs@.len(),
        ensures
            *r == self.mvs@[ref_frame as int],
    {
        &self.mvs[ref_frame]
    }
}

} // verus!
