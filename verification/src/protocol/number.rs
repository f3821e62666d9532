//! Comparisons of numbers held as the bit pattern of their IEEE 754
//! double-precision value (`f64::to_bits`), so that the rules that compare
//! payload numbers against fixed bounds are decided on integers.
//!
//! A pattern is the sign bit (2^63) plus the magnitude; among patterns with
//! the sign bit clear, the order of the patterns is the order of the numbers
//! they encode, from +0.0 up to +infinity. Magnitudes above that of
//! +infinity encode NaN, which compares false with everything.

use vstd::prelude::*;

verus! {

/// The sign bit of a double.
pub const SIGN_BIT: u64 = 0x8000_0000_0000_0000;

/// The magnitude of +infinity; larger magnitudes are NaN.
pub const INFINITY_BITS: u64 = 0x7ff0_0000_0000_0000;

/// The bits of 1 000 000.0.
pub const ONE_MILLION_BITS: u64 = 0x412e_8480_0000_0000;

/// The bits of 100 000 000.0.
pub const ONE_HUNDRED_MILLION_BITS: u64 = 0x4197_d784_0000_0000;

/// The bits of 1 000 000 000.0.
pub const ONE_BILLION_BITS: u64 = 0x41cd_cd65_0000_0000;

/// The magnitude part of a pattern.
pub open spec fn magnitude(bits: u64) -> int {
    if bits >= SIGN_BIT {
        bits - SIGN_BIT
    } else {
        bits as int
    }
}

/// The pattern encodes NaN.
pub open spec fn is_nan(bits: u64) -> bool {
    magnitude(bits) > INFINITY_BITS
}

/// The pattern has its sign bit set (negative numbers and -0.0).
pub open spec fn sign_set(bits: u64) -> bool {
    bits >= SIGN_BIT
}

/// The encoded number is `<= 0.0`.
pub open spec fn at_most_zero(bits: u64) -> bool {
    !is_nan(bits) && (sign_set(bits) || bits == 0)
}

/// The encoded number is `> bound`, for a bound given by the pattern of a
/// non-negative finite number.
pub open spec fn above(bits: u64, bound: u64) -> bool {
    !is_nan(bits) && !sign_set(bits) && bits > bound
}

/// The encoded number is `< bound`, for a bound given by the pattern of a
/// positive finite number.
pub open spec fn below(bits: u64, bound: u64) -> bool {
    !is_nan(bits) && (sign_set(bits) || bits < bound)
}

/// Whether the pattern encodes NaN.
pub fn bits_are_nan(bits: u64) -> (res: bool)
    ensures
        res == is_nan(bits),
{
    if bits >= SIGN_BIT {
        bits - SIGN_BIT > INFINITY_BITS
    } else {
        bits > INFINITY_BITS
    }
}

/// Whether the encoded number is `<= 0.0`.
pub fn bits_at_most_zero(bits: u64) -> (res: bool)
    ensures
        res == at_most_zero(bits),
{
    !bits_are_nan(bits) && (bits >= SIGN_BIT || bits == 0)
}

/// Whether the encoded number is `> bound`.
pub fn bits_above(bits: u64, bound: u64) -> (res: bool)
    requires
        bound <= INFINITY_BITS,
    ensures
        res == above(bits, bound),
{
    !bits_are_nan(bits) && bits < SIGN_BIT && bits > bound
}

/// Whether the encoded number is `< bound`.
pub fn bits_below(bits: u64, bound: u64) -> (res: bool)
    requires
        0 < bound <= INFINITY_BITS,
    ensures
        res == below(bits, bound),
{
    !bits_are_nan(bits) && (bits >= SIGN_BIT || bits < bound)
}

} // verus!
