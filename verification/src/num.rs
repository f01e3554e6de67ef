//! Scalar model.
//!
//! Verus does not reason about floating-point values, so the library carries
//! IEEE 754 binary64 scalars as their bit patterns (`u64`, as produced by
//! `f64::to_bits`) and defines the standard comparison semantics directly on
//! those bits: NaN compares with nothing, the two zeros are equal, and all
//! other values are ordered by sign and magnitude.

use vstd::prelude::*;

verus! {

use core::cmp::Ordering;

/// Bit pattern of a quiet NaN, used where no number is applicable.
pub const NAN_BITS: u64 = 0x7FF8_0000_0000_0000;

/// A scalar is NaN when its exponent bits are all ones and its mantissa is
/// not zero.
pub open spec fn is_nan_bits(x: u64) -> bool {
    x & 0x7FF0_0000_0000_0000u64 == 0x7FF0_0000_0000_0000u64 && x
        & 0x000F_FFFF_FFFF_FFFFu64 != 0u64
}

/// Both positive and negative zero: everything but the sign bit is clear.
pub open spec fn is_zero_bits(x: u64) -> bool {
    x & 0x7FFF_FFFF_FFFF_FFFFu64 == 0u64
}

/// Maps a (non-NaN) bit pattern to a key whose unsigned order is the numeric
/// order: negative values (sign bit set) have all bits flipped, others have
/// the sign bit set. Negative keys land below positive keys.
pub open spec fn order_key(x: u64) -> u64 {
    if x & 0x8000_0000_0000_0000u64 != 0u64 {
        !x
    } else {
        x ^ 0x8000_0000_0000_0000u64
    }
}

/// The partial order of two scalars given by their bit patterns: `None` when
/// either is NaN, `Equal` on identical bits or two zeros, otherwise the order
/// of the sign-magnitude keys.
pub open spec fn cmp_bits(a: u64, b: u64) -> Option<Ordering> {
    if is_nan_bits(a) || is_nan_bits(b) {
        None
    } else if a == b || (is_zero_bits(a) && is_zero_bits(b)) {
        Some(Ordering::Equal)
    } else if order_key(a) < order_key(b) {
        Some(Ordering::Less)
    } else {
        Some(Ordering::Greater)
    }
}

/// Scalar equality: neither side NaN and the same value (identical bits, or
/// the two zeros).
pub open spec fn eq_bits(a: u64, b: u64) -> bool {
    &&& !is_nan_bits(a)
    &&& !is_nan_bits(b)
    &&& (a == b || (is_zero_bits(a) && is_zero_bits(b)))
}

/// Returns the NaN bit pattern.
pub fn nan_bits() -> (r: u64)
    ensures
        r == NAN_BITS,
{
    NAN_BITS
}

/// Tests whether a scalar bit pattern is NaN.
pub fn num_is_nan(x: u64) -> (r: bool)
    ensures
        r == is_nan_bits(x),
{
    x & 0x7FF0_0000_0000_0000u64 == 0x7FF0_0000_0000_0000u64 && x & 0x000F_FFFF_FFFF_FFFFu64
        != 0u64
}

/// Compares two scalar bit patterns under the numeric partial order.
pub fn num_cmp(a: u64, b: u64) -> (r: Option<Ordering>)
    ensures
        r == cmp_bits(a, b),
{
    if num_is_nan(a) || num_is_nan(b) {
        None
    } else if a == b || (a & 0x7FFF_FFFF_FFFF_FFFFu64 == 0u64 && b & 0x7FFF_FFFF_FFFF_FFFFu64
        == 0u64) {
        Some(Ordering::Equal)
    } else {
        let ka: u64 = if a & 0x8000_0000_0000_0000u64 != 0u64 {
            !a
        } else {
            a ^ 0x8000_0000_0000_0000u64
        };
        let kb: u64 = if b & 0x8000_0000_0000_0000u64 != 0u64 {
            !b
        } else {
            b ^ 0x8000_0000_0000_0000u64
        };
        if ka < kb {
            Some(Ordering::Less)
        } else {
            Some(Ordering::Greater)
        }
    }
}

/// Tests two scalar bit patterns for numeric equality.
pub fn num_eq(a: u64, b: u64) -> (r: bool)
    ensures
        r == eq_bits(a, b),
{
    !num_is_nan(a) && !num_is_nan(b) && (a == b || (a & 0x7FFF_FFFF_FFFF_FFFFu64 == 0u64 && b
        & 0x7FFF_FFFF_FFFF_FFFFu64 == 0u64))
}

/// Numeric equality agrees with the partial order: two scalars are equal
/// exactly when they compare as `Equal`.
pub proof fn lemma_eq_bits_is_cmp_equal(a: u64, b: u64)
    ensures
        eq_bits(a, b) <==> cmp_bits(a, b) == Some(Ordering::Equal),
{
}

} // verus!
