//! Fixed-point scalars.
//!
//! A length or a speed is a whole number of sub-pixel units, [`ONE`] of them
//! to the pixel. Quantities that cannot be negative (speeds, radii) are `u64`
//! and saturate at `u64::MAX`; coordinates are `i64`.

use vstd::prelude::*;

verus! {

/// The value 1.0: the number of sub-pixel units in one pixel.
pub const ONE: i64 = 65536;

/// The value 0.5.
pub const HALF: u64 = 32768;

/// The value 1.0 for quantities that cannot be negative.
pub const UNIT: u64 = 65536;

/// The value 1.0 at the width used for intermediate products.
pub const WIDE_ONE: i128 = 65536;

/// Quotient of `a` by a positive `d`, rounded toward zero.
pub open spec fn div_toward_zero(a: int, d: int) -> int
    recommends
        d > 0,
{
    if a >= 0 {
        a / d
    } else {
        -((-a) / d)
    }
}

/// `v` cut off at the largest `u64`.
pub open spec fn saturate(v: int) -> u64
    recommends
        v >= 0,
{
    if v > u64::MAX {
        u64::MAX
    } else {
        v as u64
    }
}

/// A whole number of pixels as a fixed-point value.
pub open spec fn pixels(p: int) -> int {
    p * ONE
}

/// A fixed-point value rounded to the nearest whole pixel, halves upward, and
/// cut off at the largest `u32`.
pub open spec fn nearest_pixel(v: u64) -> u32 {
    if (v + HALF) / (UNIT as int) > u32::MAX {
        u32::MAX
    } else {
        ((v + HALF) / (UNIT as int)) as u32
    }
}

/// Drops the fractional part of a fixed-point value, rounding toward zero.
pub fn whole_part(a: i128) -> (q: i128)
    ensures
        q == div_toward_zero(a as int, ONE as int),
{
    a / WIDE_ONE
}

/// Converts a radius in pixels to fixed point.
pub fn from_pixels(p: u32) -> (v: u64)
    ensures
        v == pixels(p as int),
{
    (p as u64) * UNIT
}

/// Rounds a fixed-point radius to whole pixels.
pub fn to_nearest_pixel(v: u64) -> (p: u32)
    ensures
        p == nearest_pixel(v),
{
    let q: u64 = (v / UNIT).saturating_add(if v % UNIT >= HALF { 1 } else { 0 });
    assert((v + HALF) / (UNIT as int) == v / UNIT + (if v % UNIT >= HALF { 1int } else { 0int }));
    if q > u32::MAX as u64 {
        u32::MAX
    } else {
        q as u32
    }
}

/// Multiplies a fixed-point value by one and a half, saturating.
pub fn times_one_and_a_half(v: u64) -> (r: u64)
    ensures
        r == saturate(v + v / 2),
{
    v.saturating_add(v / 2)
}

} // verus!
