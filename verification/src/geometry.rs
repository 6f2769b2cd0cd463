//! Positions, block sizes and the vectors that a block at a position may have.
use crate::mv::MotionVector;
use crate::num::{fits_isize, half_isize, max_int, min_int, quarter_isize};
use vstd::arithmetic::power2::{lemma2_to64, pow2};
use vstd::bits::lemma_usize_shl_is_mul;
use vstd::prelude::*;

verus! {

/// The side of a mode-info block, in luma pixels.
pub const MI_SIZE: usize = 4;

/// The binary logarithm of [`MI_SIZE`].
pub const BLOCK_TO_PLANE_SHIFT: usize = 2;

/// A position in mode-info blocks.
#[derive(Debug, Copy, Clone, PartialEq, Eq, Structural)]
pub struct BlockOffset {
    pub x: usize,
    pub y: usize,
}

/// A position in pixels, which may lie in the padding around a plane.
#[derive(Debug, Copy, Clone, PartialEq, Eq, Structural)]
pub struct PlaneOffset {
    pub x: isize,
    pub y: isize,
}

impl BlockOffset {
    /// Whether the position in pixels can be represented.
    pub open spec fn in_pixel_range(self) -> bool {
        4 * self.x <= isize::MAX && 4 * self.y <= isize::MAX
    }

    /// The position of the block's first pixel in a plane in which a mode-info
    /// block has a side of `side` pixels.
    pub open spec fn pixel_offset(self, side: int) -> PlaneOffset {
        PlaneOffset { x: (side * self.x) as isize, y: (side * self.y) as isize }
    }

    /// The position of the block's first pixel in the luma plane.
    pub fn to_luma_plane_offset(self) -> (r: PlaneOffset)
        requires
            self.in_pixel_range(),
        ensures
            r == self.pixel_offset(4),
            r.x == 4 * self.x,
            r.y == 4 * self.y,
    {
        proof {
            assert(pow2(2) == 4) by {
                lemma2_to64();
            }
            lemma_usize_shl_is_mul(self.x, BLOCK_TO_PLANE_SHIFT);
            lemma_usize_shl_is_mul(self.y, BLOCK_TO_PLANE_SHIFT);
        }
        PlaneOffset {
            x: (self.x << BLOCK_TO_PLANE_SHIFT) as isize,
            y: (self.y << BLOCK_TO_PLANE_SHIFT) as isize,
        }
    }
}

impl BlockOffset {
    /// The position of the block's first pixel in a plane of half the width and height.
    pub fn to_half_plane_offset(self) -> (r: PlaneOffset)
        requires
            self.in_pixel_range(),
        ensures
            r == self.pixel_offset(2),
            r.x == 2 * self.x,
            r.y == 2 * self.y,
    {
        let po = self.to_luma_plane_offset();
        PlaneOffset { x: half_isize(po.x), y: half_isize(po.y) }
    }

    /// The position of the block's first pixel in a plane of a quarter of the width and
    /// height.
    pub fn to_quarter_plane_offset(self) -> (r: PlaneOffset)
        requires
            self.in_pixel_range(),
        ensures
            r == self.pixel_offset(1),
            r.x == self.x,
            r.y == self.y,
    {
        let po = self.to_luma_plane_offset();
        PlaneOffset { x: quarter_isize(po.x), y: quarter_isize(po.y) }
    }
}

/// The size of a block, named by its width and height in luma pixels.
#[allow(non_camel_case_types)]
#[derive(Debug, Copy, Clone, PartialEq, Eq, Structural)]
pub enum BlockSize {
    BLOCK_4X4,
    BLOCK_4X8,
    BLOCK_8X4,
    BLOCK_8X8,
    BLOCK_8X16,
    BLOCK_16X8,
    BLOCK_16X16,
    BLOCK_16X32,
    BLOCK_32X16,
    BLOCK_32X32,
    BLOCK_32X64,
    BLOCK_64X32,
    BLOCK_64X64,
    BLOCK_64X128,
    BLOCK_128X64,
    BLOCK_128X128,
    BLOCK_4X16,
    BLOCK_16X4,
    BLOCK_8X32,
    BLOCK_32X8,
    BLOCK_16X64,
    BLOCK_64X16,
}

impl BlockSize {
    /// The width and height in pixels.
    pub open spec fn dimensions(self) -> (usize, usize) {
        match self {
            BlockSize::BLOCK_4X4 => (4, 4),
            BlockSize::BLOCK_4X8 => (4, 8),
            BlockSize::BLOCK_8X4 => (8, 4),
            BlockSize::BLOCK_8X8 => (8, 8),
            BlockSize::BLOCK_8X16 => (8, 16),
            BlockSize::BLOCK_16X8 => (16, 8),
            BlockSize::BLOCK_16X16 => (16, 16),
            BlockSize::BLOCK_16X32 => (16, 32),
            BlockSize::BLOCK_32X16 => (32, 16),
            BlockSize::BLOCK_32X32 => (32, 32),
            BlockSize::BLOCK_32X64 => (32, 64),
            BlockSize::BLOCK_64X32 => (64, 32),
            BlockSize::BLOCK_64X64 => (64, 64),
            BlockSize::BLOCK_64X128 => (64, 128),
            BlockSize::BLOCK_128X64 => (128, 64),
            BlockSize::BLOCK_128X128 => (128, 128),
            BlockSize::BLOCK_4X16 => (4, 16),
            BlockSize::BLOCK_16X4 => (16, 4),
            BlockSize::BLOCK_8X32 => (8, 32),
            BlockSize::BLOCK_32X8 => (32, 8),
            BlockSize::BLOCK_16X64 => (16, 64),
            BlockSize::BLOCK_64X16 => (64, 16),
        }
    }

    /// The width in pixels.
    pub fn width(self) -> (r: usize)
        ensures
            r == self.dimensions().0,
            4 <= r <= 128,
    {
        match self {
            BlockSize::BLOCK_4X4 | BlockSize::BLOCK_4X8 | BlockSize::BLOCK_4X16 => 4,
            BlockSize::BLOCK_8X4 | BlockSize::BLOCK_8X8 | BlockSize::BLOCK_8X16
            | BlockSize::BLOCK_8X32 => 8,
            BlockSize::BLOCK_16X4 | BlockSize::BLOCK_16X8 | BlockSize::BLOCK_16X16
            | BlockSize::BLOCK_16X32 | BlockSize::BLOCK_16X64 => 16,
            BlockSize::BLOCK_32X8 | BlockSize::BLOCK_32X16 | BlockSize::BLOCK_32X32
            | BlockSize::BLOCK_32X64 => 32,
            BlockSize::BLOCK_64X16 | BlockSize::BLOCK_64X32 | BlockSize::BLOCK_64X64
            | BlockSize::BLOCK_64X128 => 64,
            BlockSize::BLOCK_128X64 | BlockSize::BLOCK_128X128 => 128,
        }
    }

    /// The height in pixels.
    pub fn height(self) -> (r: usize)
        ensures
            r == self.dimensions().1,
            4 <= r <= 128,
    {
        match self {
            BlockSize::BLOCK_4X4 | BlockSize::BLOCK_8X4 | BlockSize::BLOCK_16X4 => 4,
            BlockSize::BLOCK_4X8 | BlockSize::BLOCK_8X8 | BlockSize::BLOCK_16X8
            | BlockSize::BLOCK_32X8 => 8,
            BlockSize::BLOCK_4X16 | BlockSize::BLOCK_8X16 | BlockSize::BLOCK_16X16
            | BlockSize::BLOCK_32X16 | BlockSize::BLOCK_64X16 => 16,
            BlockSize::BLOCK_8X32 | BlockSize::BLOCK_16X32 | BlockSize::BLOCK_32X32
            | BlockSize::BLOCK_64X32 => 32,
            BlockSize::BLOCK_16X64 | BlockSize::BLOCK_32X64 | BlockSize::BLOCK_64X64
            | BlockSize::BLOCK_128X64 => 64,
            BlockSize::BLOCK_64X128 | BlockSize::BLOCK_128X128 => 128,
        }
    }
}

/// What a block is predicted from: the frame itself, one of seven reference
/// frames, or nothing.
#[allow(non_camel_case_types)]
#[derive(Debug, Copy, Clone, PartialEq, Eq, Structural)]
pub enum RefType {
    INTRA_FRAME,
    LAST_FRAME,
    LAST2_FRAME,
    LAST3_FRAME,
    GOLDEN_FRAME,
    BWDREF_FRAME,
    ALTREF2_FRAME,
    ALTREF_FRAME,
    NONE_FRAME,
}

impl RefType {
    /// Whether this names a reference frame.
    pub open spec fn is_inter(self) -> bool {
        self != RefType::INTRA_FRAME && self != RefType::NONE_FRAME
    }

    /// The place of the reference frame in the list of references.
    pub open spec fn ref_index(self) -> int {
        match self {
            RefType::LAST_FRAME => 0,
            RefType::LAST2_FRAME => 1,
            RefType::LAST3_FRAME => 2,
            RefType::GOLDEN_FRAME => 3,
            RefType::BWDREF_FRAME => 4,
            RefType::ALTREF2_FRAME => 5,
            _ => 6,
        }
    }

    /// The place of the reference frame in the list of references.
    pub fn to_index(self) -> (r: usize)
        requires
            self.is_inter(),
        ensures
            r == self.ref_index(),
            r < 7,
    {
        match self {
            RefType::LAST_FRAME => 0,
            RefType::LAST2_FRAME => 1,
            RefType::LAST3_FRAME => 2,
            RefType::GOLDEN_FRAME => 3,
            RefType::BWDREF_FRAME => 4,
            RefType::ALTREF2_FRAME => 5,
            _ => 6,
        }
    }
}

/// Inclusive bounds on both components of a motion vector.
#[derive(Debug, Copy, Clone, PartialEq, Eq, Structural)]
pub struct MvRange {
    pub x_min: isize,
    pub x_max: isize,
    pub y_min: isize,
    pub y_max: isize,
}

impl MvRange {
    pub open spec fn contains(self, mv: MotionVector) -> bool {
        self.x_min <= mv.col <= self.x_max && self.y_min <= mv.row <= self.y_max
    }

    /// The bounds for a plane of half the width and height.
    pub open spec fn halved(self) -> MvRange {
        MvRange {
            x_min: (self.x_min as int / 2) as isize,
            x_max: (self.x_max as int / 2) as isize,
            y_min: (self.y_min as int / 2) as isize,
            y_max: (self.y_max as int / 2) as isize,
        }
    }
}

/// How far, in eighths of a pixel, a block of `blk` pixels may lie outside the
/// frame: sixteen pixels and its own size.
pub open spec fn mv_border(blk: int) -> int {
    128 + 8 * blk
}

/// The least component of the vector of a block that starts at block `pos`.
pub open spec fn mv_low(pos: int, blk: int) -> int {
    -(32 * pos) - mv_border(blk)
}

/// The greatest component of the vector of a block of `blk` pixels that starts at
/// block `pos`, in a frame of `len` blocks.
pub open spec fn mv_high(len: int, pos: int, blk: int) -> int {
    32 * (len - pos - blk / 4) + mv_border(blk)
}

/// Whether a block of `blk` pixels at block `pos` ends inside a frame of `len`
/// blocks, and the bounds on its vector can be represented.
pub open spec fn mv_axis_defined(len: int, pos: int, blk: int) -> bool {
    &&& pos + blk / 4 <= len
    &&& fits_isize(mv_low(pos, blk))
    &&& fits_isize(mv_high(len, pos, blk))
}

/// Whether the vectors of a block have bounds: see [`mv_axis_defined`].
pub open spec fn mv_range_defined(
    w_in_b: usize,
    h_in_b: usize,
    bo: BlockOffset,
    blk_w: usize,
    blk_h: usize,
) -> bool {
    mv_axis_defined(w_in_b as int, bo.x as int, blk_w as int) && mv_axis_defined(
        h_in_b as int,
        bo.y as int,
        blk_h as int,
    )
}

/// The bounds on the vector of a block in a frame of `w_in_b` by `h_in_b` blocks.
pub open spec fn mv_range_of(
    w_in_b: usize,
    h_in_b: usize,
    bo: BlockOffset,
    blk_w: usize,
    blk_h: usize,
) -> MvRange {
    MvRange {
        x_min: mv_low(bo.x as int, blk_w as int) as isize,
        x_max: mv_high(w_in_b as int, bo.x as int, blk_w as int) as isize,
        y_min: mv_low(bo.y as int, blk_h as int) as isize,
        y_max: mv_high(h_in_b as int, bo.y as int, blk_h as int) as isize,
    }
}

/// The least and greatest column and the least and greatest row, in this order,
/// of the vectors with which the block `bo` stays within the border of a frame of
/// `w_in_b` by `h_in_b` blocks.
pub fn get_mv_range(
    w_in_b: usize,
    h_in_b: usize,
    bo: BlockOffset,
    blk_w: usize,
    blk_h: usize,
) -> (r: (isize, isize, isize, isize))
    requires
        mv_range_defined(w_in_b, h_in_b, bo, blk_w, blk_h),
    ensures
        r.0 == mv_low(bo.x as int, blk_w as int),
        r.1 == mv_high(w_in_b as int, bo.x as int, blk_w as int),
        r.2 == mv_low(bo.y as int, blk_h as int),
        r.3 == mv_high(h_in_b as int, bo.y as int, blk_h as int),
        r.0 <= 0 <= r.1 && r.2 <= 0 <= r.3,
        r.0 == -(32 * bo.x) - (128 + 8 * blk_w),
        r.1 == 32 * (w_in_b - bo.x - blk_w / 4) + (128 + 8 * blk_w),
        r.2 == -(32 * bo.y) - (128 + 8 * blk_h),
        r.3 == 32 * (h_in_b - bo.y - blk_h / 4) + (128 + 8 * blk_h),
{
    let unit: isize = (8 * MI_SIZE) as isize;
    let border_w: isize = 128 + blk_w as isize * 8;
    let border_h: isize = 128 + blk_h as isize * 8;
    let mvx_min: isize = -(bo.x as isize) * unit - border_w;
    let mvx_max: isize = (w_in_b - bo.x - blk_w / MI_SIZE) as isize * unit + border_w;
    let mvy_min: isize = -(bo.y as isize) * unit - border_h;
    let mvy_max: isize = (h_in_b - bo.y - blk_h / MI_SIZE) as isize * unit + border_h;
    (mvx_min, mvx_max, mvy_min, mvy_max)
}

/// The position nearest to `pos`, not beyond it, at which `blk` pixels end within
/// `len` blocks; the first position where there is none.
pub open spec fn adjusted(pos: int, len: int, blk: int) -> int {
    max_int(min_int(pos, len - blk / 4), 0)
}

/// Both coordinates of a block adjusted: see [`adjusted`].
pub open spec fn adjusted_bo(
    bo: BlockOffset,
    mi_width: usize,
    mi_height: usize,
    blk_w: usize,
    blk_h: usize,
) -> BlockOffset {
    BlockOffset {
        x: adjusted(bo.x as int, mi_width as int, blk_w as int) as usize,
        y: adjusted(bo.y as int, mi_height as int, blk_h as int) as usize,
    }
}

/// Moves a block left and up, as far as needed, such that it lies entirely within
/// an area of `mi_width` by `mi_height` blocks.
pub fn adjust_bo(
    bo: BlockOffset,
    mi_width: usize,
    mi_height: usize,
    blk_w: usize,
    blk_h: usize,
) -> (r: BlockOffset)
    requires
        bo.x <= isize::MAX && bo.y <= isize::MAX,
        mi_width <= isize::MAX && mi_height <= isize::MAX,
        blk_w <= isize::MAX && blk_h <= isize::MAX,
    ensures
        r == adjusted_bo(bo, mi_width, mi_height, blk_w, blk_h),
        r.x == adjusted(bo.x as int, mi_width as int, blk_w as int),
        r.y == adjusted(bo.y as int, mi_height as int, blk_h as int),
{
    BlockOffset {
        x: (bo.x as isize).min(mi_width as isize - blk_w as isize / 4).max(0) as usize,
        y: (bo.y as isize).min(mi_height as isize - blk_h as isize / 4).max(0) as usize,
    }
}

} // verus!
