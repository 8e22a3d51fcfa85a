//! Fill fractions carried as binary64 bit patterns.
//!
//! A tank fill level is a fraction between 0 and 1. It reaches this crate as
//! the IEEE-754 binary64 bit pattern of the caller's number; the ordering of
//! non-negative binary64 numbers is the ordering of their bit patterns, which
//! lets the clamp to `[0, 1]` be done, and proved, on the patterns themselves.

use vstd::prelude::*;

verus! {

/// Bit pattern of the sign bit alone (the number `-0`).
pub const NEGATIVE_ZERO_BITS: u64 = 0x8000_0000_0000_0000u64;

/// Bit pattern of positive infinity; larger magnitudes are NaNs.
pub const INFINITY_BITS: u64 = 0x7FF0_0000_0000_0000u64;

/// Bit pattern of the number `1`.
pub const ONE_BITS: u64 = 0x3FF0_0000_0000_0000u64;

/// Bit pattern of the number `+0`.
pub const ZERO_BITS: u64 = 0u64;

/// The pattern with its sign bit cleared.
pub open spec fn magnitude(bits: u64) -> u64 {
    if bits >= NEGATIVE_ZERO_BITS {
        (bits - NEGATIVE_ZERO_BITS) as u64
    } else {
        bits
    }
}

/// Whether the pattern encodes a NaN.
pub open spec fn is_nan_bits(bits: u64) -> bool {
    magnitude(bits) > INFINITY_BITS
}

/// Whether the pattern has its sign bit set.
pub open spec fn is_negative_bits(bits: u64) -> bool {
    bits >= NEGATIVE_ZERO_BITS
}

/// The pattern of `x.clamp(0, 1)` for the number `x` with pattern `bits`:
/// a NaN and `-0` are kept, any other negative number becomes `+0`, a number
/// above one (`+inf` included) becomes one, and the rest are kept.
pub open spec fn clamp_unit_spec(bits: u64) -> u64 {
    if is_nan_bits(bits) {
        bits
    } else if is_negative_bits(bits) {
        if bits == NEGATIVE_ZERO_BITS {
            bits
        } else {
            ZERO_BITS
        }
    } else if bits > ONE_BITS {
        ONE_BITS
    } else {
        bits
    }
}

/// Clamps the number with pattern `bits` to the unit interval `[0, 1]`.
pub fn clamp_unit(bits: u64) -> (r: u64)
    ensures
        r == clamp_unit_spec(bits),
        !is_negative_bits(bits) && bits <= ONE_BITS ==> r == bits,
        !is_nan_bits(bits) && !is_negative_bits(bits) && bits > ONE_BITS ==> r == ONE_BITS,
        !is_nan_bits(bits) && is_negative_bits(bits) && bits != NEGATIVE_ZERO_BITS ==> r == ZERO_BITS,
{
    let magnitude_bits: u64 = if bits >= NEGATIVE_ZERO_BITS {
        bits - NEGATIVE_ZERO_BITS
    } else {
        bits
    };
    if magnitude_bits > INFINITY_BITS {
        bits
    } else if bits >= NEGATIVE_ZERO_BITS {
        if bits == NEGATIVE_ZERO_BITS {
            bits
        } else {
            ZERO_BITS
        }
    } else if bits > ONE_BITS {
        ONE_BITS
    } else {
        bits
    }
}

/// Clamping is idempotent, and a clamped number that is not a NaN is `-0` or
/// a non-negative number no greater than one.
pub proof fn clamp_unit_laws(bits: u64)
    ensures
        clamp_unit_spec(clamp_unit_spec(bits)) == clamp_unit_spec(bits),
        !is_nan_bits(bits) ==> (clamp_unit_spec(bits) == NEGATIVE_ZERO_BITS || clamp_unit_spec(
            bits,
        ) <= ONE_BITS),
        !is_nan_bits(bits) ==> !is_nan_bits(clamp_unit_spec(bits)),
        is_nan_bits(bits) ==> clamp_unit_spec(bits) == bits,
{
}

/// A number already in `[0, 1]` is kept exactly: clamping a non-negative
/// pattern no greater than that of one gives the pattern back.
pub proof fn clamp_unit_keeps_unit_interval(bits: u64)
    requires
        !is_negative_bits(bits),
        bits <= ONE_BITS,
    ensures
        clamp_unit_spec(bits) == bits,
{
}

/// For a number that is not a NaN, the clamp is `max(0, min(x, 1))`: a
/// non-negative number becomes the smaller of itself and one, a number below
/// `-0` becomes `+0`, and `-0` stays.
pub proof fn clamp_unit_is_min_max(bits: u64)
    requires
        !is_nan_bits(bits),
    ensures
        !is_negative_bits(bits) ==> clamp_unit_spec(bits) == (if bits <= ONE_BITS {
            bits
        } else {
            ONE_BITS
        }),
        is_negative_bits(bits) && bits != NEGATIVE_ZERO_BITS ==> clamp_unit_spec(bits) == ZERO_BITS,
        bits == NEGATIVE_ZERO_BITS ==> clamp_unit_spec(bits) == bits,
{
}

/// Clamping keeps the order of non-negative numbers, and changes a
/// non-negative number only when it lies above one.
pub proof fn clamp_unit_monotone(a: u64, b: u64)
    requires
        !is_nan_bits(a),
        !is_nan_bits(b),
        !is_negative_bits(a),
        !is_negative_bits(b),
        a <= b,
    ensures
        clamp_unit_spec(a) <= clamp_unit_spec(b),
        clamp_unit_spec(a) != a ==> a > ONE_BITS,
{
}

} // verus!
