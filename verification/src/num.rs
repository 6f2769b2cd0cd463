//! Integer arithmetic that differs from the mathematical one: division that
//! truncates towards zero, narrowing to 16 bits, halving by shifts, and the
//! length of a number in binary.
use vstd::arithmetic::power2::{lemma_pow2_pos, lemma_pow2_unfold, pow2};
use vstd::bits::lemma_u16_shr_is_div;
use vstd::prelude::*;
use vstd::std_specs::bits::{axiom_u16_leading_zeros, u16_leading_zeros};

verus! {

/// The quotient of `a` by `b`, rounded towards zero.
pub open spec fn trunc_div(a: int, b: int) -> int
    recommends
        b != 0,
{
    if a >= 0 {
        a / b
    } else {
        -((-a) / b)
    }
}

/// The 16-bit two's complement number that agrees with `a` in the low 16 bits.
pub open spec fn wrap16(a: int) -> int {
    ((a + 32768) % 65536) - 32768
}

/// Whether `a` is the value of an `i16`.
pub open spec fn fits_i16(a: int) -> bool {
    i16::MIN <= a <= i16::MAX
}

/// Whether `a` is the value of an `isize`.
pub open spec fn fits_isize(a: int) -> bool {
    isize::MIN <= a <= isize::MAX
}

pub open spec fn max_int(a: int, b: int) -> int {
    if a >= b {
        a
    } else {
        b
    }
}

pub open spec fn min_int(a: int, b: int) -> int {
    if a <= b {
        a
    } else {
        b
    }
}

pub open spec fn abs_int(a: int) -> int {
    if a >= 0 {
        a
    } else {
        -a
    }
}

/// The number of binary digits of `n`, none for zero.
pub open spec fn bit_length(n: nat) -> nat
    decreases n,
{
    if n == 0 {
        0
    } else {
        1 + bit_length(n / 2)
    }
}

/// A number between consecutive powers of two has as many digits as the larger
/// exponent says.
pub proof fn lemma_bit_length_between_powers(x: nat, n: nat)
    requires
        n > 0,
        pow2((n - 1) as nat) <= x < pow2(n),
    ensures
        bit_length(x) == n,
    decreases n,
{
    lemma_pow2_unfold(n);
    lemma_pow2_pos((n - 1) as nat);
    if n == 1 {
        assert(pow2(0) == 1) by {
            vstd::arithmetic::power2::lemma2_to64();
        }
        assert(x == 1);
        assert(bit_length(0) == 0);
    } else {
        lemma_pow2_unfold((n - 1) as nat);
        lemma_bit_length_between_powers(x / 2, (n - 1) as nat);
    }
}

/// The digits of a 16-bit number are those that its leading zeros leave.
pub proof fn lemma_bit_length_u16(x: u16)
    ensures
        bit_length(x as nat) == 16 - u16_leading_zeros(x),
        u16_leading_zeros(x) <= 16,
{
    axiom_u16_leading_zeros(x);
    let lz = u16_leading_zeros(x) as u16;
    if x != 0 {
        let n = (16 - lz) as u16;
        let m = (15 - lz) as u16;
        assert(x >> m >= 1) by (bit_vector)
            requires
                (x >> m) & 1u16 != 0u16,
        ;
        lemma_u16_shr_is_div(x, m);
        lemma_pow2_pos(m as nat);
        assert(x >= pow2(m as nat)) by (nonlinear_arith)
            requires
                x as int / pow2(m as nat) as int >= 1,
                pow2(m as nat) > 0,
        ;
        lemma_pow2_unfold(n as nat);
        if lz > 0 {
            lemma_u16_shr_is_div(x, n);
            assert(x < pow2(n as nat)) by (nonlinear_arith)
                requires
                    x as int / pow2(n as nat) as int == 0,
                    pow2(n as nat) > 0,
            ;
        } else {
            assert(pow2(16) == 65536) by {
                vstd::arithmetic::power2::lemma2_to64();
            }
        }
        lemma_bit_length_between_powers(x as nat, n as nat);
    }
}

/// A longer number has at least as many digits.
pub proof fn lemma_bit_length_monotonic(a: nat, b: nat)
    requires
        a <= b,
    ensures
        bit_length(a) <= bit_length(b),
    decreases b,
{
    if a > 0 {
        lemma_bit_length_monotonic(a / 2, b / 2);
    }
}

/// A product with a sign.
pub proof fn lemma_mul_sign(a: int, sign: int)
    ensures
        sign == 1 ==> a * sign == a,
        sign == 0 ==> a * sign == 0,
        sign == -1 ==> a * sign == -a,
{
    assert(a * 1 == a && a * 0 == 0 && a * (-1) == -a) by (nonlinear_arith);
}

/// Narrows `a` to its low 16 bits.
pub fn truncate_i16(a: isize) -> (r: i16)
    ensures
        r == wrap16(a as int),
{
    let r = #[verifier::truncate]
    (a as i16);
    assert(a as i16 == ((a + 32768) % 65536) - 32768) by (bit_vector);
    r
}

/// Halves `a`, rounding down.
pub fn half_i16(a: i16) -> (r: i16)
    ensures
        r == a as int / 2,
{
    assert(a >> 1 == a as int / 2) by (bit_vector);
    a >> 1
}

/// Divides `a` by eight, rounding down.
pub fn eighth_i16(a: i16) -> (r: i16)
    ensures
        r == a as int / 8,
{
    assert(a >> 3 == a as int / 8) by (bit_vector);
    a >> 3
}

/// Halves `a`, rounding down.
pub fn half_isize(a: isize) -> (r: isize)
    ensures
        r == a as int / 2,
{
    assert(a >> 1 == a as int / 2) by (bit_vector);
    a >> 1
}

/// Divides `a` by four, rounding down.
pub fn quarter_isize(a: isize) -> (r: isize)
    ensures
        r == a as int / 4,
{
    assert(a >> 2 == a as int / 4) by (bit_vector);
    a >> 2
}

} // verus!
