//! IEEE-754 binary32 numbers as bit patterns.
//!
//! A pattern has a sign bit (bit 31) and a magnitude (bits 0 to 30). Among the
//! patterns that are numbers, a larger magnitude is a larger absolute value,
//! so the order of the numbers is the order of their `rank`s.

use vstd::prelude::*;
use vstd::arithmetic::power2::{
    lemma2_to64, lemma_pow2_pos, lemma_pow2_strictly_increases, lemma_pow2_unfold, pow2,
};

verus! {

/// The sign bit of a pattern.
pub const SIGN_BIT: u32 = 0x8000_0000;

/// The magnitude of the two infinities; every larger magnitude is a NaN.
pub const INFINITY: u32 = 0x7f80_0000;

/// The pattern of the number one.
pub const ONE: u32 = 0x3f80_0000;

/// The pattern without its sign bit.
pub open spec fn magnitude(bits: u32) -> u32 {
    if bits >= SIGN_BIT {
        (bits - SIGN_BIT) as u32
    } else {
        bits
    }
}

/// Whether the sign bit is set (true of negative zero and of some NaNs too).
pub open spec fn is_negative(bits: u32) -> bool {
    bits >= SIGN_BIT
}

/// Whether the pattern is not a number.
pub open spec fn is_nan(bits: u32) -> bool {
    magnitude(bits) > INFINITY
}

/// Whether the pattern is a number other than the two infinities.
pub open spec fn is_finite(bits: u32) -> bool {
    magnitude(bits) < INFINITY
}

/// Whether the pattern is positive or negative zero.
pub open spec fn is_zero(bits: u32) -> bool {
    magnitude(bits) == 0
}

/// The place of a number on the number line: for patterns `a` and `b` that are
/// numbers, `a` is less than `b` exactly if `rank(a) < rank(b)`, and the two
/// zeros share rank 0.
pub open spec fn rank(bits: u32) -> int {
    if is_negative(bits) {
        -(magnitude(bits) as int)
    } else {
        magnitude(bits) as int
    }
}

/// The exponent field of a pattern: bits 23 to 30.
pub open spec fn exponent_field(bits: u32) -> nat {
    (magnitude(bits) / 0x80_0000) as nat
}

/// The significand of a finite pattern, as a whole number: the 23 fraction
/// bits, below a leading one unless the exponent field is zero.
pub open spec fn significand(bits: u32) -> nat {
    if exponent_field(bits) == 0 {
        (magnitude(bits) % 0x80_0000) as nat
    } else {
        (0x80_0000 + magnitude(bits) % 0x80_0000) as nat
    }
}

/// The power of two that the significand of a finite pattern counts: the
/// absolute value of the number is `significand(bits)` times two to the power
/// `scale(bits)`.
pub open spec fn scale(bits: u32) -> int {
    if exponent_field(bits) == 0 {
        -149
    } else {
        exponent_field(bits) - 150
    }
}

/// The absolute value of a finite pattern, counted in units of the smallest
/// positive number (two to the power -149).
pub open spec fn absolute(bits: u32) -> nat {
    significand(bits) * pow2((scale(bits) + 149) as nat)
}

/// Among finite patterns the order of the magnitudes is the order of the
/// absolute values.
pub proof fn lemma_magnitude_orders_absolute(a: u32, b: u32)
    requires
        is_finite(a),
        is_finite(b),
    ensures
        magnitude(a) < magnitude(b) <==> absolute(a) < absolute(b),
        magnitude(a) == magnitude(b) <==> absolute(a) == absolute(b),
{
    if magnitude(a) < magnitude(b) {
        lemma_absolute_increases(a, b);
    } else if magnitude(b) < magnitude(a) {
        lemma_absolute_increases(b, a);
    }
}

/// A finite pattern of smaller magnitude has the smaller absolute value.
proof fn lemma_absolute_increases(a: u32, b: u32)
    requires
        is_finite(b),
        magnitude(a) < magnitude(b),
    ensures
        absolute(a) < absolute(b),
{
    let sa = significand(a);
    let sb = significand(b);
    let ka = (scale(a) + 149) as nat;
    let kb = (scale(b) + 149) as nat;
    let pa = pow2(ka);
    let pb = pow2(kb);
    lemma_pow2_pos(ka);
    lemma_pow2_pos(kb);
    if exponent_field(a) == exponent_field(b) {
        assert(sa * pa < sb * pb) by (nonlinear_arith)
            requires
                sa < sb,
                pa == pb,
                pa > 0,
        ;
    } else if exponent_field(a) == 0 {
        lemma2_to64();
        assert(sa * pa < sb * pb) by (nonlinear_arith)
            requires
                sa < 0x80_0000,
                sb >= 0x80_0000,
                pa == 1,
                pb >= 1,
        ;
    } else {
        lemma_pow2_unfold(ka + 1);
        if ka + 1 < kb {
            lemma_pow2_strictly_increases(ka + 1, kb);
        }
        assert(sa * pa < sb * pb) by (nonlinear_arith)
            requires
                sa < 0x100_0000,
                sb >= 0x80_0000,
                pa > 0,
                pb >= 2 * pa,
        ;
    }
}

/// The pattern with its sign bit flipped: the negated number.
pub open spec fn negated(bits: u32) -> u32 {
    if bits >= SIGN_BIT {
        (bits - SIGN_BIT) as u32
    } else {
        (bits + SIGN_BIT) as u32
    }
}

/// The smaller of two numbers. A NaN is ignored in favour of the other
/// argument; of two numbers of equal rank the first is taken.
pub open spec fn minimum(a: u32, b: u32) -> u32 {
    if is_nan(a) {
        b
    } else if is_nan(b) {
        a
    } else if rank(b) < rank(a) {
        b
    } else {
        a
    }
}

/// The larger of two numbers. A NaN is ignored in favour of the other
/// argument; of two numbers of equal rank the first is taken.
pub open spec fn maximum(a: u32, b: u32) -> u32 {
    if is_nan(a) {
        b
    } else if is_nan(b) {
        a
    } else if rank(a) < rank(b) {
        b
    } else {
        a
    }
}

/// Computes [`magnitude`].
pub fn magnitude_of(bits: u32) -> (m: u32)
    ensures
        m == magnitude(bits),
{
    if bits >= SIGN_BIT {
        bits - SIGN_BIT
    } else {
        bits
    }
}

/// Tells whether the pattern is not a number.
pub fn nan(bits: u32) -> (r: bool)
    ensures
        r == is_nan(bits),
{
    magnitude_of(bits) > INFINITY
}

/// Tells whether the first number is strictly below the second. False when
/// either pattern is a NaN, and for the two zeros in either order.
pub fn below(a: u32, b: u32) -> (r: bool)
    ensures
        r == (!is_nan(a) && !is_nan(b) && rank(a) < rank(b)),
{
    if nan(a) || nan(b) {
        return false;
    }
    let ma: u32 = magnitude_of(a);
    let mb: u32 = magnitude_of(b);
    if a >= SIGN_BIT {
        if b >= SIGN_BIT {
            mb < ma
        } else {
            ma > 0 || mb > 0
        }
    } else {
        b < SIGN_BIT && ma < mb
    }
}

/// Flips the sign bit.
pub fn negate(bits: u32) -> (r: u32)
    ensures
        r == negated(bits),
{
    if bits >= SIGN_BIT {
        bits - SIGN_BIT
    } else {
        bits + SIGN_BIT
    }
}

/// Computes [`minimum`].
pub fn min(a: u32, b: u32) -> (r: u32)
    ensures
        r == minimum(a, b),
{
    if nan(a) {
        b
    } else if nan(b) {
        a
    } else if below(b, a) {
        b
    } else {
        a
    }
}

/// Computes [`maximum`].
pub fn max(a: u32, b: u32) -> (r: u32)
    ensures
        r == maximum(a, b),
{
    if nan(a) {
        b
    } else if nan(b) {
        a
    } else if below(a, b) {
        b
    } else {
        a
    }
}

} // verus!
