//! The reduction of a colour channel to the 8-bit level of a display.
//!
//! The value of a channel is `units(bits) / units(ONE)`. Its level is that
//! value clamped to the unit interval, multiplied by 255 and rounded to the
//! nearest integer, a half upwards.

use crate::binary64::{
    is_nan, lemma_units_increase, sign_bit, significand, unit_shift, units, ONE, SIGN, ZERO,
};
use vstd::arithmetic::div_mod::{lemma_div_is_ordered, lemma_div_multiples_vanish_quotient};
use vstd::arithmetic::power2::{
    lemma2_to64_rest, lemma_pow2_adds, lemma_pow2_pos, lemma_pow2_strictly_increases,
    lemma_pow2_unfold, pow2,
};
use vstd::bits::{lemma_u64_shl_is_mul, lemma_u64_shr_is_div};
use vstd::prelude::*;

verus! {

/// The pattern is a number (an infinity included) strictly greater than 1.0.
pub open spec fn is_above_one(bits: u64) -> bool {
    !is_nan(bits) && !sign_bit(bits) && bits > ONE
}

/// The pattern is a number (an infinity included) strictly less than 0.0.
pub open spec fn is_below_zero(bits: u64) -> bool {
    !is_nan(bits) && bits > SIGN
}

/// The 8-bit level of a channel: 0 for a NaN and for anything with the sign
/// bit set, 255 from 1.0 upwards, and in between the integer part of
/// `255 * value + 1/2`.
pub open spec fn level_of(bits: u64) -> int {
    if is_nan(bits) || sign_bit(bits) {
        0
    } else if bits >= ONE {
        255
    } else {
        (510 * units(bits) + units(ONE)) / (2 * units(ONE))
    }
}

/// Every level fits in eight bits, and a channel outside the unit interval
/// saturates: above 1.0 at 255, below 0.0 at 0.
pub proof fn lemma_level_saturates(bits: u64)
    ensures
        0 <= level_of(bits) <= 255,
        is_above_one(bits) ==> level_of(bits) == 255,
        is_below_zero(bits) ==> level_of(bits) == 0,
        level_of(ZERO) == 0,
        level_of(ONE) == 255,
{
    if bits < ONE {
        lemma_level_below_one(bits);
    }
    lemma_level_below_one(ZERO);
}

/// A greater channel has no smaller level: among numbers without the sign
/// bit, the level follows the order of the patterns.
pub proof fn lemma_level_is_monotone(darker: u64, brighter: u64)
    requires
        !is_nan(darker),
        !is_nan(brighter),
        darker <= brighter < SIGN,
    ensures
        level_of(darker) <= level_of(brighter),
{
    lemma_level_saturates(darker);
    lemma_level_saturates(brighter);
    if darker < brighter < ONE {
        lemma_units_increase(darker, brighter);
        lemma_units_increase(brighter, ONE);
        lemma_div_is_ordered(
            510 * units(darker) + units(ONE),
            510 * units(brighter) + units(ONE),
            2 * units(ONE),
        );
    }
}

/// Below 1.0 the power of two in the magnitude cancels against that of 1.0:
/// the level is the rounded quotient of `255 * significand` by `2^s`, with
/// `s` between 53 and 1074. It is at most 255, and 0 from an `s` of 62 on.
proof fn lemma_level_below_one(bits: u64)
    requires
        bits < ONE,
    ensures
        unit_shift(bits) <= 1021,
        0 <= significand(bits) < 0x20_0000_0000_0000 <= pow2((1074 - unit_shift(bits)) as nat),
        level_of(bits) == (510 * significand(bits) + pow2((1074 - unit_shift(bits)) as nat)) / (
        pow2((1075 - unit_shift(bits)) as nat) as int),
        0 <= level_of(bits) <= 255,
        unit_shift(bits) <= 1012 ==> level_of(bits) == 0,
{
    let m = significand(bits);
    let shift = (1074 - unit_shift(bits)) as nat;
    let k = pow2(unit_shift(bits)) as int;
    let d = pow2(shift) as int;
    lemma2_to64_rest();
    lemma_pow2_pos(unit_shift(bits));
    lemma_pow2_adds(52, 1022);
    lemma_pow2_adds(shift, unit_shift(bits));
    lemma_pow2_unfold(shift + 1);
    if shift > 53 {
        lemma_pow2_strictly_increases(53, shift);
    }
    if shift > 62 {
        lemma_pow2_strictly_increases(62, shift);
    }
    assert(units(ONE) == d * k);
    assert(0 <= m < 0x20_0000_0000_0000 <= d);
    assert(510 * units(bits) + units(ONE) == k * (510 * m + d)) by (nonlinear_arith)
        requires
            units(bits) == m * k,
            units(ONE) == d * k,
    ;
    assert(2 * units(ONE) == k * (2 * d)) by (nonlinear_arith)
        requires
            units(ONE) == d * k,
    ;
    lemma_div_multiples_vanish_quotient(k, 510 * m + d, 2 * d);
    assert(0 <= (510 * m + d) / (2 * d) <= 255) by (nonlinear_arith)
        requires
            0 <= m < d,
    ;
    if shift >= 62 {
        assert(510 * m < 0x4000_0000_0000_0000 <= d);
        assert((510 * m + d) / (2 * d) == 0) by (nonlinear_arith)
            requires
                0 <= 510 * m < d,
        ;
    }
}

/// Reduces a channel to its 8-bit level.
pub fn channel_level(bits: u64) -> (level: u8)
    ensures
        level as int == level_of(bits),
{
    let exponent: u64 = (bits / 0x10_0000_0000_0000) % 2048;
    let fraction: u64 = bits % 0x10_0000_0000_0000;
    if bits >= SIGN || (exponent == 2047 && fraction != 0) {
        return 0;
    }
    if bits >= ONE {
        return 255;
    }
    let numerator: u64 = if exponent == 0 {
        fraction
    } else {
        fraction + 0x10_0000_0000_0000
    };
    let shift: u64 = if exponent == 0 {
        1074
    } else {
        1075 - exponent
    };
    proof {
        lemma_level_below_one(bits);
    }
    if shift >= 62 {
        0
    } else {
        proof {
            lemma2_to64_rest();
            lemma_pow2_strictly_increases(shift as nat, 62);
            lemma_u64_shl_is_mul(1, shift);
        }
        let half: u64 = 1u64 << shift;
        let scaled: u64 = 510 * numerator + half;
        proof {
            lemma_u64_shr_is_div(scaled, (shift + 1) as u64);
        }
        (scaled >> (shift + 1)) as u8
    }
}

} // verus!
