//! IEEE 754 binary64 numbers as their 64-bit patterns.
//!
//! A pattern is one sign bit, eleven exponent bits and fifty-two fraction
//! bits. The magnitude of every finite pattern is a whole number of units of
//! `2^-1074`, the smallest positive binary64 value: `units` gives that
//! number, and the predicates of this module are stated over it.

use vstd::arithmetic::power2::{
    lemma2_to64, lemma_pow2_adds, lemma_pow2_pos, lemma_pow2_strictly_increases,
    lemma_pow2_unfold, pow2,
};
use vstd::prelude::*;

verus! {

/// Bit pattern of 0.0.
pub const ZERO: u64 = 0;

/// Bit pattern of 1.0.
pub const ONE: u64 = 0x3FF0_0000_0000_0000;

/// The sign bit alone: the bit pattern of -0.0.
pub const SIGN: u64 = 0x8000_0000_0000_0000;

/// Bit pattern of the tolerance of approximate comparisons: the binary64
/// value nearest to 0.00001.
pub const TOLERANCE: u64 = 0x3EE4_F8B5_88E3_68F1;

/// Bit pattern of the smallest value within the tolerance of 1.0.
pub const NEAR_ONE_LOW: u64 = 0x3FEF_FFEB_074A_771D;

/// Bit pattern of the greatest value within the tolerance of 1.0.
pub const NEAR_ONE_HIGH: u64 = 0x3FF0_000A_7C5A_C471;

/// The sign bit of a pattern is set: a negative number, -0.0, or a NaN that
/// carries the sign.
pub open spec fn sign_bit(bits: u64) -> bool {
    bits >= SIGN
}

/// The eleven exponent bits, as a number in `0..2048`.
pub open spec fn exponent_field(bits: u64) -> int {
    (bits as int / 0x10_0000_0000_0000) % 2048
}

/// The fifty-two fraction bits, as a number below `2^52`.
pub open spec fn fraction_field(bits: u64) -> int {
    bits as int % 0x10_0000_0000_0000
}

/// The pattern is not a number.
pub open spec fn is_nan(bits: u64) -> bool {
    exponent_field(bits) == 2047 && fraction_field(bits) != 0
}

/// The pattern is a number other than an infinity.
pub open spec fn is_finite(bits: u64) -> bool {
    exponent_field(bits) != 2047
}

/// The numerator of the magnitude of a finite pattern: the fraction bits,
/// with the implicit leading bit unless the pattern is subnormal.
pub open spec fn significand(bits: u64) -> int {
    if exponent_field(bits) == 0 {
        fraction_field(bits)
    } else {
        fraction_field(bits) + 0x10_0000_0000_0000
    }
}

/// The power of two by which the significand is multiplied to give the
/// magnitude in units of `2^-1074`.
pub open spec fn unit_shift(bits: u64) -> nat {
    if exponent_field(bits) == 0 {
        0
    } else {
        (exponent_field(bits) - 1) as nat
    }
}

/// The magnitude of a finite pattern, in units of `2^-1074`.
pub open spec fn units(bits: u64) -> int {
    significand(bits) * pow2(unit_shift(bits))
}

/// The pattern with its sign bit flipped.
pub open spec fn negated(bits: u64) -> u64 {
    if bits >= SIGN {
        (bits - SIGN) as u64
    } else {
        (bits + SIGN) as u64
    }
}

/// The pattern is a finite number whose distance from 0.0 is at most the
/// tolerance.
pub open spec fn near_zero(bits: u64) -> bool {
    is_finite(bits) && units(bits) <= units(TOLERANCE)
}

/// The pattern is a finite number whose distance from 1.0 is at most the
/// tolerance.
pub open spec fn near_one(bits: u64) -> bool {
    &&& is_finite(bits)
    &&& !sign_bit(bits)
    &&& units(bits) - units(ONE) <= units(TOLERANCE)
    &&& units(ONE) - units(bits) <= units(TOLERANCE)
}

/// Flipping the sign bit changes nothing else: the fields and the magnitude
/// stay, and flipping twice gives the pattern back.
pub proof fn lemma_negated(bits: u64)
    ensures
        sign_bit(negated(bits)) == !sign_bit(bits),
        exponent_field(negated(bits)) == exponent_field(bits),
        fraction_field(negated(bits)) == fraction_field(bits),
        units(negated(bits)) == units(bits),
        negated(negated(bits)) == bits,
{
}

/// Among patterns without the sign bit, a greater pattern has a greater
/// magnitude.
pub proof fn lemma_units_increase(a: u64, b: u64)
    requires
        a < b < SIGN,
    ensures
        units(a) < units(b),
{
    let sa = significand(a);
    let sb = significand(b);
    let pa = pow2(unit_shift(a)) as int;
    let pb = pow2(unit_shift(b)) as int;
    lemma_pow2_pos(unit_shift(a));
    lemma_pow2_pos(unit_shift(b));
    if exponent_field(a) == exponent_field(b) {
        assert(sa * pa < sb * pa) by (nonlinear_arith)
            requires
                sa < sb,
                pa > 0,
        ;
    } else if exponent_field(a) == 0 {
        lemma2_to64();
        assert(sb * pb >= 0x10_0000_0000_0000) by (nonlinear_arith)
            requires
                sb >= 0x10_0000_0000_0000,
                pb >= 1,
        ;
    } else {
        lemma_pow2_unfold(unit_shift(a) + 1);
        if unit_shift(a) + 1 < unit_shift(b) {
            lemma_pow2_strictly_increases(unit_shift(a) + 1, unit_shift(b));
        }
        assert(sa * pa < sb * pb) by (nonlinear_arith)
            requires
                0 <= sa < 0x20_0000_0000_0000,
                sb >= 0x10_0000_0000_0000,
                pb >= 2 * pa,
                pa > 0,
        ;
    }
}

/// The two bounds are the outermost patterns within the tolerance of 1.0:
/// they are within it, and their neighbours on the far side are not.
proof fn lemma_bounds_around_one()
    ensures
        units(ONE) - units(NEAR_ONE_LOW) <= units(TOLERANCE),
        units(ONE) - units((NEAR_ONE_LOW - 1) as u64) > units(TOLERANCE),
        units(NEAR_ONE_HIGH) - units(ONE) <= units(TOLERANCE),
        units((NEAR_ONE_HIGH + 1) as u64) - units(ONE) > units(TOLERANCE),
        units(NEAR_ONE_LOW) < units(ONE) < units(NEAR_ONE_HIGH),
{
    let q = pow2(1005);
    lemma2_to64();
    lemma_pow2_pos(1005);
    lemma_pow2_adds(16, 1005);
    lemma_pow2_adds(17, 1005);
    assert(pow2(1021) == 0x1_0000 * q);
    assert(pow2(1022) == 0x2_0000 * q);
    assert(units(TOLERANCE) == 0x14_F8B5_88E3_68F1 * q);
    assert(units(ONE) == 0x10_0000_0000_0000 * (0x2_0000 * q));
    assert(units(NEAR_ONE_LOW) == 0x1F_FFEB_074A_771D * (0x1_0000 * q));
    assert(units((NEAR_ONE_LOW - 1) as u64) == 0x1F_FFEB_074A_771C * (0x1_0000 * q));
    assert(units(NEAR_ONE_HIGH) == 0x10_000A_7C5A_C471 * (0x2_0000 * q));
    assert(units((NEAR_ONE_HIGH + 1) as u64) == 0x10_000A_7C5A_C472 * (0x2_0000 * q));
}

/// A number is within the tolerance of 0.0 exactly when its pattern, the
/// sign bit left aside, is at most that of the tolerance.
pub proof fn lemma_near_zero_range(bits: u64)
    ensures
        near_zero(bits) <==> bits % SIGN <= TOLERANCE,
{
    let magnitude = (bits % SIGN) as u64;
    assert(exponent_field(magnitude) == exponent_field(bits));
    assert(fraction_field(magnitude) == fraction_field(bits));
    if magnitude < TOLERANCE {
        lemma_units_increase(magnitude, TOLERANCE);
    }
    if magnitude > TOLERANCE {
        lemma_units_increase(TOLERANCE, magnitude);
    }
}

/// A number is within the tolerance of 1.0 exactly when its pattern lies
/// between the two bounds.
pub proof fn lemma_near_one_range(bits: u64)
    ensures
        near_one(bits) <==> NEAR_ONE_LOW <= bits <= NEAR_ONE_HIGH,
{
    lemma_bounds_around_one();
    if bits < SIGN {
        if bits < NEAR_ONE_LOW - 1 {
            lemma_units_increase(bits, (NEAR_ONE_LOW - 1) as u64);
        }
        if NEAR_ONE_LOW < bits {
            lemma_units_increase(NEAR_ONE_LOW, bits);
        }
        if bits < NEAR_ONE_HIGH {
            lemma_units_increase(bits, NEAR_ONE_HIGH);
        }
        if NEAR_ONE_HIGH + 1 < bits {
            lemma_units_increase((NEAR_ONE_HIGH + 1) as u64, bits);
        }
    }
}

/// Flips the sign of a number.
pub fn negate(bits: u64) -> (flipped: u64)
    ensures
        flipped == negated(bits),
{
    if bits >= SIGN {
        bits - SIGN
    } else {
        bits + SIGN
    }
}

/// Whether a number is within the tolerance of 0.0.
pub fn is_near_zero(bits: u64) -> (near: bool)
    ensures
        near == near_zero(bits),
{
    proof {
        lemma_near_zero_range(bits);
    }
    bits % SIGN <= TOLERANCE
}

/// Whether a number is within the tolerance of 1.0.
pub fn is_near_one(bits: u64) -> (near: bool)
    ensures
        near == near_one(bits),
{
    proof {
        lemma_near_one_range(bits);
    }
    NEAR_ONE_LOW <= bits && bits <= NEAR_ONE_HIGH
}

} // verus!
