//! `f32` values carried as their IEEE-754 binary32 bit patterns.
//!
//! The library never computes with floating-point numbers. It stores
//! the bit patterns it is handed and compares absolute values, which for
//! binary32 is an integer comparison: clearing the sign bit leaves the
//! magnitude, and for any two values that are not NaN the magnitudes
//! order exactly as those 31-bit integers do. A NaN compares false.

use vstd::prelude::*;

verus! {

/// Bit pattern of `0.0_f32`.
pub const ZERO_BITS: u32 = 0x0000_0000;

/// Bit pattern of `1.0_f32`.
pub const ONE_BITS: u32 = 0x3f80_0000;

/// Bit pattern of `-1.0_f32`.
pub const MINUS_ONE_BITS: u32 = 0xbf80_0000;

/// The pattern with its sign bit cleared: the bits of `f32::abs`.
pub open spec fn magnitude(b: u32) -> int {
    (b % 0x8000_0000) as int
}

/// The pattern encodes a NaN: all exponent bits set, mantissa non-zero.
pub open spec fn is_nan(b: u32) -> bool {
    magnitude(b) > 0x7f80_0000
}

/// `a.abs() > b.abs()` on the two encoded values.
pub open spec fn abs_gt(a: u32, b: u32) -> bool {
    !is_nan(a) && !is_nan(b) && magnitude(a) > magnitude(b)
}

/// `a.abs() >= b.abs()` on the two encoded values.
pub open spec fn abs_ge(a: u32, b: u32) -> bool {
    !is_nan(a) && !is_nan(b) && magnitude(a) >= magnitude(b)
}

/// The encoded value is negative: its sign bit is set.
pub open spec fn is_negative(b: u32) -> bool {
    b >= 0x8000_0000
}

/// `a.abs() >= t` on the two encoded values: false when either is a NaN,
/// true for any negative `t` (an absolute value is never below zero),
/// otherwise a comparison of magnitudes.
pub open spec fn abs_reaches(a: u32, t: u32) -> bool {
    !is_nan(a) && !is_nan(t) && (is_negative(t) || magnitude(a) >= magnitude(t))
}

pub fn abs_greater(a: u32, b: u32) -> (r: bool)
    ensures
        r == abs_gt(a, b),
{
    let ma = a % 0x8000_0000;
    let mb = b % 0x8000_0000;
    ma <= 0x7f80_0000 && mb <= 0x7f80_0000 && ma > mb
}

pub fn abs_reaches_value(a: u32, t: u32) -> (r: bool)
    ensures
        r == abs_reaches(a, t),
{
    let ma = a % 0x8000_0000;
    let mt = t % 0x8000_0000;
    ma <= 0x7f80_0000 && mt <= 0x7f80_0000 && (t >= 0x8000_0000 || ma >= mt)
}

} // verus!
