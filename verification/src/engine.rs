//! The distortion of one sample, as far as it is a choice among bit patterns.
//!
//! The effect clamps a sample to the interval between the negated threshold
//! and the threshold, divides by a multiple of the threshold and rounds up to
//! a number of decimal places. The clamp picks one of three patterns and is
//! computed here; the number of decimal places is computed here too. The
//! division and the rounding are float arithmetic and are left to the caller,
//! so a threshold of zero is clamped with like any other: the caller then
//! divides a zero by zero.

use vstd::prelude::*;
use vstd::arithmetic::power2::{lemma2_to64, lemma_pow2_pos, lemma_pow2_strictly_increases, pow2};
use vstd::bits::lemma_u32_shr_is_div;
use crate::sample::{
    absolute, exponent_field, is_finite, is_nan, is_negative, is_zero, magnitude, magnitude_of, max,
    lemma_magnitude_orders_absolute, maximum, min, minimum, negate, negated, rank, scale,
    significand, INFINITY, SIGN_BIT,
};

verus! {

/// The sample clamped to the interval from the negated threshold to the
/// threshold: the smaller of sample and threshold, then the larger of that and
/// the negated threshold.
pub open spec fn clamped(input: u32, threshold: u32) -> u32 {
    maximum(minimum(input, threshold), negated(threshold))
}

/// Clamps a sample to the interval from the negated threshold to the
/// threshold. No threshold is refused: see the laws below for what the result
/// is where the interval is empty or the threshold is no number.
pub fn clamp(input: u32, threshold: u32) -> (r: u32)
    ensures
        r == clamped(input, threshold),
{
    max(min(input, threshold), negate(threshold))
}

/// With a positive threshold the clamped sample is a number whose absolute
/// value is at most the threshold, whatever the sample, a NaN included.
pub proof fn lemma_clamp_within_threshold(input: u32, threshold: u32)
    requires
        !is_nan(threshold),
        rank(threshold) > 0,
    ensures
        !is_nan(clamped(input, threshold)),
        magnitude(clamped(input, threshold)) <= magnitude(threshold),
        -rank(threshold) <= rank(clamped(input, threshold)) <= rank(threshold),
        is_finite(threshold) ==> is_finite(clamped(input, threshold)) && absolute(
            clamped(input, threshold),
        ) <= absolute(threshold),
{
    if is_finite(threshold) {
        lemma_magnitude_orders_absolute(clamped(input, threshold), threshold);
    }
}

/// With a positive threshold a sample inside the interval passes unchanged, a
/// sample above it becomes the threshold, a sample below it the negated
/// threshold, and a NaN becomes the threshold.
pub proof fn lemma_clamp_cases(input: u32, threshold: u32)
    requires
        !is_nan(threshold),
        rank(threshold) > 0,
    ensures
        is_nan(input) ==> clamped(input, threshold) == threshold,
        !is_nan(input) && -rank(threshold) <= rank(input) <= rank(threshold) ==> clamped(
            input,
            threshold,
        ) == input,
        !is_nan(input) && rank(input) > rank(threshold) ==> clamped(input, threshold)
            == threshold,
        !is_nan(input) && rank(input) < -rank(threshold) ==> clamped(input, threshold)
            == negated(threshold),
{
}

/// Clamping twice is clamping once.
pub proof fn lemma_clamp_idempotent(input: u32, threshold: u32)
    ensures
        clamped(clamped(input, threshold), threshold) == clamped(input, threshold),
{
}

/// With a zero threshold every sample, a NaN included, is clamped to a zero.
pub proof fn lemma_clamp_zero_threshold(input: u32, threshold: u32)
    requires
        is_zero(threshold),
    ensures
        is_zero(clamped(input, threshold)),
{
}

/// With a negative threshold the interval is empty and every sample is clamped
/// to the negated threshold. With a NaN for threshold a sample that is a
/// number passes unchanged, and a NaN stays a NaN.
pub proof fn lemma_clamp_degenerate(input: u32, threshold: u32)
    ensures
        !is_nan(threshold) && rank(threshold) < 0 ==> clamped(input, threshold) == negated(
            threshold,
        ),
        is_nan(threshold) && !is_nan(input) ==> clamped(input, threshold) == input,
        is_nan(threshold) && is_nan(input) ==> is_nan(clamped(input, threshold)),
{
}

/// The whole number nearest to `n / d`; of two that are equally near, the even
/// one.
pub open spec fn nearest_even(n: nat, d: nat) -> nat {
    let q = n / d;
    let r = n % d;
    if 2 * r < d || (2 * r == d && q % 2 == 0) {
        q
    } else {
        q + 1
    }
}

/// `nearest_even(n, d)` is within half a unit of `n / d`, and where it is
/// exactly half a unit away it is even: of all whole numbers only one is so.
pub proof fn lemma_nearest_even(n: nat, d: nat)
    requires
        d > 0,
    ensures
        -(d as int) <= 2 * (nearest_even(n, d) * d - n) <= d,
        2 * (nearest_even(n, d) * d - n) == d || 2 * (n - nearest_even(n, d) * d) == d
            ==> nearest_even(n, d) % 2 == 0,
{
    let q = n / d;
    let r = n % d;
    assert(n == q * d + r && 0 <= r < d) by (nonlinear_arith)
        requires
            d > 0,
            q == n / d,
            r == n % d,
    ;
    assert((q + 1) * d == q * d + d) by (nonlinear_arith);
}

/// The number of low bits that a product of fewer than 26 bits has too many
/// for the 24 bits of a significand.
pub open spec fn surplus_bits(product: nat) -> nat {
    if product < 0x100_0000 {
        0
    } else if product < 0x200_0000 {
        1
    } else {
        2
    }
}

/// The whole part of three times the absolute value of a finite number, the
/// product rounded as a binary32 multiplication rounds it, to the nearest
/// number of 24 significant bits and to the even one of two.
///
/// Three times the significand is exact; it is rounded to 24 bits, and what
/// is left is scaled by the power of two that the rounded significand counts.
/// Where the true product is too large for a binary32 number, the result here
/// is above every value that [`decimal_places_of`] tells apart.
pub open spec fn tripled_whole(bits: u32) -> nat {
    let product = 3 * significand(bits);
    let drop = surplus_bits(product);
    let kept = nearest_even(product, pow2(drop));
    let power = scale(bits) + drop;
    if power >= 0 {
        kept * pow2(power as nat)
    } else {
        kept / pow2((-power) as nat)
    }
}

/// The number of decimal places to which the effect rounds: three times the
/// threshold, as binary32 multiplication gives it, cut to its whole part and
/// held to the range of `i8`. Zero for a NaN; the end of the range for an
/// infinity.
pub open spec fn decimal_places_of(threshold: u32) -> int {
    if is_nan(threshold) {
        0
    } else if is_negative(threshold) {
        if !is_finite(threshold) || tripled_whole(threshold) >= 128 {
            -128
        } else {
            -(tripled_whole(threshold) as int)
        }
    } else {
        if !is_finite(threshold) || tripled_whole(threshold) >= 127 {
            127
        } else {
            tripled_whole(threshold) as int
        }
    }
}

/// Computes [`nearest_even`] for a divisor of two or four.
fn round_to_even(n: u32, d: u32) -> (r: u32)
    requires
        d == 2 || d == 4,
    ensures
        r == nearest_even(n as nat, d as nat),
        r <= n / d + 1,
{
    let q: u32 = n / d;
    let r: u32 = n % d;
    if 2 * r < d || (2 * r == d && q % 2 == 0) {
        q
    } else {
        q + 1
    }
}

/// Bounds of a product rounded to 24 bits.
proof fn lemma_rounded_product(product: nat)
    requires
        product < 0x300_0000,
    ensures
        ({
            let drop = surplus_bits(product);
            let kept = nearest_even(product, pow2(drop));
            &&& kept <= 0x100_0000
            &&& drop == 2 ==> kept <= 0xc0_0000
            &&& product >= 0x180_0000 ==> kept >= 0x80_0000
        }),
{
    lemma2_to64();
    let drop = surplus_bits(product);
    if drop == 0 {
        assert(pow2(drop) == 1);
    } else if drop == 1 {
        assert(pow2(drop) == 2);
    } else {
        assert(pow2(drop) == 4);
    }
}

/// A number below a quarter: its triple is below one.
proof fn lemma_tripled_small(bits: u32)
    requires
        exponent_field(bits) < 125,
    ensures
        tripled_whole(bits) == 0,
{
    let product = 3 * significand(bits);
    let drop = surplus_bits(product);
    let kept = nearest_even(product, pow2(drop));
    let power = scale(bits) + drop;
    lemma2_to64();
    lemma_rounded_product(product);
    assert(power <= -24);
    let d = pow2((-power) as nat);
    assert(kept < d) by {
        if power == -24 {
            assert(drop == 2);
        } else if power == -25 {
        } else {
            lemma_pow2_strictly_increases(25, (-power) as nat);
        }
    }
    assert(kept / d == 0) by (nonlinear_arith)
        requires
            0 <= kept < d,
    ;
}

/// A finite number of at least sixty-four: its triple is at least 192.
proof fn lemma_tripled_large(bits: u32)
    requires
        133 <= exponent_field(bits) < 255,
    ensures
        tripled_whole(bits) >= 128,
{
    let product = 3 * significand(bits);
    let drop = surplus_bits(product);
    let kept = nearest_even(product, pow2(drop));
    let power = scale(bits) + drop;
    lemma2_to64();
    lemma_rounded_product(product);
    assert(kept >= 0x80_0000);
    assert(power >= -16);
    if power >= 0 {
        let p = pow2(power as nat);
        lemma_pow2_pos(power as nat);
        assert(kept * p >= 128) by (nonlinear_arith)
            requires
                kept >= 128,
                p >= 1,
        ;
    } else {
        let d = pow2((-power) as nat);
        lemma_pow2_pos((-power) as nat);
        if power > -16 {
            lemma_pow2_strictly_increases((-power) as nat, 16);
        }
        assert(kept / d >= 128) by (nonlinear_arith)
            requires
                kept >= 0x80_0000,
                0 < d <= 0x1_0000,
        ;
    }
}

/// Computes the number of decimal places to which the effect rounds.
pub fn decimal_places(threshold: u32) -> (places: i8)
    ensures
        places == decimal_places_of(threshold),
{
    let m: u32 = magnitude_of(threshold);
    if m > INFINITY {
        return 0;
    }
    let negative: bool = threshold >= SIGN_BIT;
    let field: u32 = m / 0x80_0000;
    if field < 125 {
        proof {
            lemma_tripled_small(threshold);
        }
        return 0;
    }
    if field >= 133 {
        proof {
            if field < 255 {
                lemma_tripled_large(threshold);
            }
        }
        return if negative {
            -128
        } else {
            127
        };
    }
    let product: u32 = 3 * (0x80_0000 + m % 0x80_0000);
    let kept: u32;
    let shift: u32;
    if product < 0x200_0000 {
        kept = round_to_even(product, 2);
        shift = 149 - field;
    } else {
        kept = round_to_even(product, 4);
        shift = 148 - field;
    }
    let whole: u32 = kept >> shift;
    proof {
        lemma2_to64();
        lemma_u32_shr_is_div(kept, shift);
        assert(whole == tripled_whole(threshold));
        lemma_pow2_pos(shift as nat);
        if shift > 16 {
            lemma_pow2_strictly_increases(16, shift as nat);
        }
        let d = pow2(shift as nat);
        assert(kept as nat / d <= 256) by (nonlinear_arith)
            requires
                kept <= 0x100_0000,
                d >= 0x1_0000,
        ;
    }
    if negative {
        if whole >= 128 {
            -128
        } else {
            -(whole as i8)
        }
    } else {
        if whole >= 127 {
            127
        } else {
            whole as i8
        }
    }
}

} // verus!
