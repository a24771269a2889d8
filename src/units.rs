//! Fixed-point units and the clamping helpers shared by every component.
use vstd::prelude::*;

verus! {

/// One full unit (amplitude 1.0, sample value 1.0, one radian) in millionths.
pub const UNIT: i64 = 1_000_000;

/// Largest magnitude accepted for a curve value or a per-bucket modulation term.
pub const CURVE_LIMIT: i64 = 1_099_511_627_776;

/// `x` limited to the closed range `[lo, hi]`.
pub open spec fn clamp(x: int, lo: int, hi: int) -> int {
    if x < lo {
        lo
    } else if x > hi {
        hi
    } else {
        x
    }
}

/// `x / d` rounded toward zero (what a cast of the real quotient to an integer gives).
pub open spec fn div_toward_zero(x: int, d: int) -> int {
    if x >= 0 {
        x / d
    } else {
        -((-x) / d)
    }
}

pub fn clamp_i64(x: i64, lo: i64, hi: i64) -> (r: i64)
    requires
        lo <= hi,
    ensures
        r == clamp(x as int, lo as int, hi as int),
        lo <= r <= hi,
{
    if x < lo {
        lo
    } else if x > hi {
        hi
    } else {
        x
    }
}

pub fn div_toward_zero_i128(x: i128, d: i128) -> (r: i128)
    requires
        d > 0,
        x > i128::MIN,
    ensures
        r == div_toward_zero(x as int, d as int),
{
    if x >= 0 {
        x / d
    } else {
        let q = (-x) / d;
        -q
    }
}

} // verus!
