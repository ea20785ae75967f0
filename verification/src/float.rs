//! Truncation of IEEE-754 numbers toward zero, computed on their bit
//! patterns.

use vstd::arithmetic::power2::{
    lemma2_to64,
    lemma2_to64_rest,
    lemma_pow2_pos,
    lemma_pow2_strictly_increases,
    pow2,
};
use vstd::bits::{lemma_u64_shl_is_mul, lemma_u64_shr_is_div};
use vstd::prelude::*;

verus! {

/// The integer part of the magnitude of a finite number whose exponent field
/// is `exponent` and whose fraction field is `fraction`, in a format with
/// `fraction_bits` bits of fraction and the given exponent bias.
///
/// With an exponent field of zero the number is zero or subnormal, below one
/// in magnitude. Otherwise its magnitude is
/// `(2^fraction_bits + fraction) * 2^(exponent - bias - fraction_bits)`.
pub open spec fn magnitude_floor(exponent: nat, fraction: nat, fraction_bits: nat, bias: nat) -> nat {
    let significand = pow2(fraction_bits) + fraction;
    if exponent == 0 {
        0
    } else if exponent >= bias + fraction_bits {
        significand * pow2((exponent - bias - fraction_bits) as nat)
    } else {
        significand / pow2((bias + fraction_bits - exponent) as nat)
    }
}

/// The nearest `i64` to an integer.
pub open spec fn saturated(value: int) -> int {
    if value < i64::MIN {
        i64::MIN as int
    } else if value > i64::MAX {
        i64::MAX as int
    } else {
        value
    }
}

/// A number truncated toward zero to an `i64`: zero for a NaN, the nearest
/// bound for an infinity or a number beyond the range of `i64`.
/// `top` is the exponent field of infinities and NaNs.
pub open spec fn truncated(
    negative: bool,
    exponent: nat,
    fraction: nat,
    fraction_bits: nat,
    bias: nat,
    top: nat,
) -> int {
    if exponent == top {
        if fraction != 0 {
            0
        } else if negative {
            i64::MIN as int
        } else {
            i64::MAX as int
        }
    } else {
        let magnitude = magnitude_floor(exponent, fraction, fraction_bits, bias);
        saturated(
            if negative {
                -magnitude
            } else {
                magnitude as int
            },
        )
    }
}

/// The 32-bit float with the given bits, truncated toward zero: one sign
/// bit, eight bits of exponent with bias 127, 23 bits of fraction.
pub open spec fn f32_truncated(bits: u32) -> int {
    truncated(
        bits >= 0x8000_0000,
        ((bits / 0x80_0000) % 0x100) as nat,
        (bits % 0x80_0000) as nat,
        23,
        127,
        255,
    )
}

/// The 64-bit float with the given bits, truncated toward zero: one sign
/// bit, eleven bits of exponent with bias 1023, 52 bits of fraction.
pub open spec fn f64_truncated(bits: u64) -> int {
    truncated(
        bits >= 0x8000_0000_0000_0000,
        ((bits / 0x10_0000_0000_0000) % 0x800) as nat,
        (bits % 0x10_0000_0000_0000) as nat,
        52,
        1023,
        2047,
    )
}

/// A number below `2^width`, divided by a power of two that is at least
/// `2^width`, gives zero.
proof fn lemma_small_magnitude(significand: nat, width: nat, shift: nat)
    requires
        significand < pow2(width),
        width <= shift,
    ensures
        significand / pow2(shift) == 0,
{
    if width < shift {
        lemma_pow2_strictly_increases(width, shift);
    }
    let divisor = pow2(shift);
    assert(significand / divisor == 0) by (nonlinear_arith)
        requires
            0 <= significand < divisor,
    ;
}

/// A significand of at least `floor`, shifted left by at least `least`
/// places, is at least `floor * 2^least`.
proof fn lemma_large_magnitude(significand: nat, floor: nat, shift: nat, least: nat)
    requires
        floor <= significand,
        least <= shift,
    ensures
        floor * pow2(least) <= significand * pow2(shift),
{
    if least < shift {
        lemma_pow2_strictly_increases(least, shift);
    }
    lemma_pow2_pos(least);
    let a = pow2(least);
    let b = pow2(shift);
    assert(floor * a <= significand * b) by (nonlinear_arith)
        requires
            0 <= floor <= significand,
            0 < a <= b,
    ;
}

/// A significand below `ceiling` shifted left by at most `most` places
/// stays below `ceiling * 2^most`.
proof fn lemma_bounded_magnitude(significand: nat, ceiling: nat, shift: nat, most: nat)
    requires
        significand < ceiling,
        shift <= most,
    ensures
        significand * pow2(shift) < ceiling * pow2(most),
{
    if shift < most {
        lemma_pow2_strictly_increases(shift, most);
    }
    lemma_pow2_pos(shift);
    let a = pow2(shift);
    let b = pow2(most);
    assert(significand * a < ceiling * b) by (nonlinear_arith)
        requires
            0 <= significand < ceiling,
            0 < a <= b,
    ;
}

/// Truncates the 32-bit float with the given bits toward zero.
pub fn truncate_f32(bits: u32) -> (r: i64)
    ensures
        r == f32_truncated(bits),
{
    let negative = bits >= 0x8000_0000;
    let exponent: u64 = ((bits / 0x80_0000) % 0x100) as u64;
    let fraction: u64 = (bits % 0x80_0000) as u64;
    let significand: u64 = 0x80_0000 + fraction;
    proof {
        lemma2_to64();
        lemma2_to64_rest();
    }
    if exponent == 255 {
        if fraction != 0 {
            0
        } else if negative {
            i64::MIN
        } else {
            i64::MAX
        }
    } else if exponent < 127 {
        proof {
            if exponent != 0 {
                lemma_small_magnitude(significand as nat, 24, (150 - exponent) as nat);
            }
        }
        0
    } else if exponent >= 190 {
        proof {
            lemma_large_magnitude(significand as nat, 0x80_0000, (exponent - 150) as nat, 40);
        }
        if negative {
            i64::MIN
        } else {
            i64::MAX
        }
    } else {
        let magnitude: u64 = if exponent >= 150 {
            proof {
                lemma_bounded_magnitude(significand as nat, 0x100_0000, (exponent - 150) as nat, 39);
                lemma_u64_shl_is_mul(significand, (exponent - 150) as u64);
            }
            significand << (exponent - 150)
        } else {
            proof {
                lemma_u64_shr_is_div(significand, (150 - exponent) as u64);
                lemma_pow2_pos((150 - exponent) as nat);
                let divisor = pow2((150 - exponent) as nat);
                assert(significand as nat / divisor <= significand as nat) by (nonlinear_arith)
                    requires
                        divisor > 0,
                ;
            }
            significand >> (150 - exponent)
        };
        if negative {
            -(magnitude as i64)
        } else {
            magnitude as i64
        }
    }
}

/// Truncates the 64-bit float with the given bits toward zero.
pub fn truncate_f64(bits: u64) -> (r: i64)
    ensures
        r == f64_truncated(bits),
{
    let negative = bits >= 0x8000_0000_0000_0000;
    let exponent: u64 = (bits / 0x10_0000_0000_0000) % 0x800;
    let fraction: u64 = bits % 0x10_0000_0000_0000;
    let significand: u64 = 0x10_0000_0000_0000 + fraction;
    proof {
        lemma2_to64();
        lemma2_to64_rest();
    }
    if exponent == 2047 {
        if fraction != 0 {
            0
        } else if negative {
            i64::MIN
        } else {
            i64::MAX
        }
    } else if exponent < 1023 {
        proof {
            if exponent != 0 {
                lemma_small_magnitude(significand as nat, 53, (1075 - exponent) as nat);
            }
        }
        0
    } else if exponent >= 1086 {
        proof {
            lemma_large_magnitude(
                significand as nat,
                0x10_0000_0000_0000,
                (exponent - 1075) as nat,
                11,
            );
        }
        if negative {
            i64::MIN
        } else {
            i64::MAX
        }
    } else {
        let magnitude: u64 = if exponent >= 1075 {
            proof {
                lemma_bounded_magnitude(
                    significand as nat,
                    0x20_0000_0000_0000,
                    (exponent - 1075) as nat,
                    10,
                );
                lemma_u64_shl_is_mul(significand, (exponent - 1075) as u64);
            }
            significand << (exponent - 1075)
        } else {
            proof {
                lemma_u64_shr_is_div(significand, (1075 - exponent) as u64);
                lemma_pow2_pos((1075 - exponent) as nat);
                let divisor = pow2((1075 - exponent) as nat);
                assert(significand as nat / divisor <= significand as nat) by (nonlinear_arith)
                    requires
                        divisor > 0,
                ;
            }
            significand >> (1075 - exponent)
        };
        if negative {
            -(magnitude as i64)
        } else {
            magnitude as i64
        }
    }
}

} // verus!
