//! Floating-point numbers, carried as their IEEE 754 binary64 bit patterns.

use vstd::prelude::*;

verus! {

/// The exponent field of a binary64 pattern, all ones.
pub const EXPONENT_MASK: u64 = 0x7ff0_0000_0000_0000u64;

/// The fraction field of a binary64 pattern.
pub const FRACTION_MASK: u64 = 0x000f_ffff_ffff_ffffu64;

/// The pattern of positive infinity.
pub const POSITIVE_INFINITY_BITS: u64 = 0x7ff0_0000_0000_0000u64;

/// The pattern of negative infinity.
pub const NEGATIVE_INFINITY_BITS: u64 = 0xfff0_0000_0000_0000u64;

/// Whether `bits` is the pattern of a NaN: exponent all ones, fraction not zero.
pub open spec fn is_nan_bits(bits: u64) -> bool {
    (bits & EXPONENT_MASK) == EXPONENT_MASK && (bits & FRACTION_MASK) != 0
}

/// Tells whether a binary64 bit pattern encodes a NaN.
pub fn is_nan(bits: u64) -> (r: bool)
    ensures
        r == is_nan_bits(bits),
{
    (bits & EXPONENT_MASK) == EXPONENT_MASK && (bits & FRACTION_MASK) != 0
}

} // verus!
