//! The few `f32` decisions the renderer makes, taken on bit patterns:
//! IEEE-754 single precision — sign bit, 8 exponent bits, 23 fraction
//! bits; exponent all ones is infinity (fraction 0) or NaN.

use vstd::prelude::*;

verus! {

/// The value is a NaN.
pub open spec fn is_nan(bits: u32) -> bool {
    (bits >= 0x7F80_0001 && bits <= 0x7FFF_FFFF) || bits >= 0xFF80_0001
}

/// The value is +0.0 or -0.0.
pub open spec fn is_zero(bits: u32) -> bool {
    bits == 0 || bits == 0x8000_0000
}

/// `x > 0.0` (true for +infinity).
pub open spec fn is_positive(bits: u32) -> bool {
    1 <= bits <= 0x7F80_0000
}

/// `x.is_finite() && x > 0.0`.
pub open spec fn is_finite_positive(bits: u32) -> bool {
    1 <= bits <= 0x7F7F_FFFF
}

/// `x.is_finite() && x >= 0.0` (true for -0.0).
pub open spec fn is_finite_non_negative(bits: u32) -> bool {
    bits <= 0x7F7F_FFFF || bits == 0x8000_0000
}

/// `x.is_finite() && 0.0 <= x && x <= 1.0` (true for -0.0).
pub open spec fn is_unit(bits: u32) -> bool {
    bits <= 0x3F80_0000 || bits == 0x8000_0000
}

/// `x == y` as floats: same bits and not NaN, or both zeros.
pub open spec fn same_value(x: u32, y: u32) -> bool {
    (x == y && !is_nan(x)) || (is_zero(x) && is_zero(y))
}

/// `x.is_finite()`.
pub open spec fn is_finite(bits: u32) -> bool {
    bits < 0x7F80_0000 || (0x8000_0000 <= bits && bits < 0xFF80_0000)
}

/// `x > budget` for a finite positive `budget`: `x` is positive (not NaN)
/// and larger; for such values the bit patterns order as the floats.
pub open spec fn exceeds(x: u32, budget: u32) -> bool {
    x <= 0x7F80_0000 && x > budget
}

pub fn finite(bits: u32) -> (r: bool)
    ensures
        r == is_finite(bits),
{
    bits < 0x7F80_0000 || (0x8000_0000 <= bits && bits < 0xFF80_0000)
}

pub fn greater(x: u32, budget: u32) -> (r: bool)
    ensures
        r == exceeds(x, budget),
{
    x <= 0x7F80_0000 && x > budget
}

pub fn positive(bits: u32) -> (r: bool)
    ensures
        r == is_positive(bits),
{
    1 <= bits && bits <= 0x7F80_0000
}

pub fn finite_positive(bits: u32) -> (r: bool)
    ensures
        r == is_finite_positive(bits),
{
    1 <= bits && bits <= 0x7F7F_FFFF
}

pub fn finite_non_negative(bits: u32) -> (r: bool)
    ensures
        r == is_finite_non_negative(bits),
{
    bits <= 0x7F7F_FFFF || bits == 0x8000_0000
}

pub fn unit(bits: u32) -> (r: bool)
    ensures
        r == is_unit(bits),
{
    bits <= 0x3F80_0000 || bits == 0x8000_0000
}

pub fn same(x: u32, y: u32) -> (r: bool)
    ensures
        r == same_value(x, y),
{
    let nan = (x >= 0x7F80_0001 && x <= 0x7FFF_FFFF) || x >= 0xFF80_0001;
    (x == y && !nan) || ((x == 0 || x == 0x8000_0000) && (y == 0 || y == 0x8000_0000))
}

} // verus!
