//! Motion vectors, in eighths of a pixel, and the bits that coding one costs.
use crate::num::{
    abs_int, bit_length, fits_i16, half_i16, lemma_bit_length_u16, trunc_div,
};
use vstd::prelude::*;

verus! {

/// The displacement of a block against a reference frame, in eighths of a pixel.
#[derive(Debug, Copy, Clone, PartialEq, Eq, Structural)]
pub struct MotionVector {
    pub row: i16,
    pub col: i16,
}

/// The vector of a block that has not moved.
pub open spec fn zero_mv() -> MotionVector {
    MotionVector { row: 0, col: 0 }
}

impl Default for MotionVector {
    fn default() -> (r: Self)
        ensures
            r == zero_mv(),
    {
        MotionVector { row: 0, col: 0 }
    }
}

impl MotionVector {
    /// The vector with each component rounded towards zero to a whole pixel.
    pub open spec fn fullpel(self) -> MotionVector {
        MotionVector {
            row: (8 * trunc_div(self.row as int, 8)) as i16,
            col: (8 * trunc_div(self.col as int, 8)) as i16,
        }
    }

    /// Rounds both components towards zero to a whole number of pixels.
    pub fn quantize_to_fullpel(self) -> (r: Self)
        ensures
            r == self.fullpel(),
            r.row == 8 * trunc_div(self.row as int, 8),
            r.col == 8 * trunc_div(self.col as int, 8),
    {
        MotionVector { row: (self.row / 8) * 8, col: (self.col / 8) * 8 }
    }

    /// Whether both components are zero.
    pub fn is_zero(self) -> (r: bool)
        ensures
            r == (self == zero_mv()),
    {
        self.row == 0 && self.col == 0
    }
}

impl vstd::std_specs::ops::AddSpecImpl for MotionVector {
    open spec fn obeys_add_spec() -> bool {
        true
    }

    open spec fn add_req(self, rhs: MotionVector) -> bool {
        fits_i16(self.row + rhs.row) && fits_i16(self.col + rhs.col)
    }

    open spec fn add_spec(self, rhs: MotionVector) -> MotionVector {
        MotionVector { row: (self.row + rhs.row) as i16, col: (self.col + rhs.col) as i16 }
    }
}

impl std::ops::Add for MotionVector {
    type Output = MotionVector;

    fn add(self, rhs: MotionVector) -> MotionVector {
        MotionVector { row: self.row + rhs.row, col: self.col + rhs.col }
    }
}

impl vstd::std_specs::ops::DivSpecImpl<i16> for MotionVector {
    open spec fn obeys_div_spec() -> bool {
        true
    }

    open spec fn div_req(self, rhs: i16) -> bool {
        rhs != 0 && !(rhs == -1 && (self.row == i16::MIN || self.col == i16::MIN))
    }

    open spec fn div_spec(self, rhs: i16) -> MotionVector {
        MotionVector {
            row: trunc_div(self.row as int, rhs as int) as i16,
            col: trunc_div(self.col as int, rhs as int) as i16,
        }
    }
}

impl std::ops::Div<i16> for MotionVector {
    type Output = MotionVector;

    fn div(self, rhs: i16) -> MotionVector {
        MotionVector { row: self.row / rhs, col: self.col / rhs }
    }
}

/// The bits that a difference of `diff` in one component costs: two for each
/// binary digit of its magnitude. Without high precision the last digit is not
/// coded.
pub open spec fn component_rate(diff: int, allow_high_precision_mv: bool) -> int {
    let d = if allow_high_precision_mv {
        diff
    } else {
        diff / 2
    };
    2 * bit_length(abs_int(d) as nat) as int
}

/// The bits that coding `a` after the predicted vector `b` costs.
pub open spec fn mv_rate(a: MotionVector, b: MotionVector, allow_high_precision_mv: bool) -> int {
    component_rate(a.row - b.row, allow_high_precision_mv) + component_rate(
        a.col - b.col,
        allow_high_precision_mv,
    )
}

/// Whether the difference `diff` of two components can be coded in 16 bits.
pub open spec fn codable_diff(diff: int, allow_high_precision_mv: bool) -> bool {
    fits_i16(diff) && (allow_high_precision_mv ==> diff != i16::MIN)
}

/// Whether `a` can be coded as a difference from `b`.
pub open spec fn codable_mv(
    a: MotionVector,
    b: MotionVector,
    allow_high_precision_mv: bool,
) -> bool {
    codable_diff(a.row - b.row, allow_high_precision_mv) && codable_diff(
        a.col - b.col,
        allow_high_precision_mv,
    )
}

fn diff_to_rate(diff: i16, allow_high_precision_mv: bool) -> (r: u32)
    requires
        codable_diff(diff as int, allow_high_precision_mv),
    ensures
        r == component_rate(diff as int, allow_high_precision_mv),
        r <= 32,
{
    let d: i16 = if allow_high_precision_mv {
        diff
    } else {
        half_i16(diff)
    };
    if d == 0 {
        0
    } else {
        let magnitude: u16 = if d < 0 {
            (-d) as u16
        } else {
            d as u16
        };
        proof {
            lemma_bit_length_u16(magnitude);
        }
        2 * (16 - magnitude.leading_zeros())
    }
}

/// The bits that coding `a` after the predicted vector `b` costs.
pub fn get_mv_rate(a: MotionVector, b: MotionVector, allow_high_precision_mv: bool) -> (r: u32)
    requires
        codable_mv(a, b, allow_high_precision_mv),
    ensures
        r == mv_rate(a, b, allow_high_precision_mv),
        r <= 64,
{
    diff_to_rate(a.row - b.row, allow_high_precision_mv) + diff_to_rate(
        a.col - b.col,
        allow_high_precision_mv,
    )
}

} // verus!
