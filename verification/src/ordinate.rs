//! Coordinate values as IEEE-754 binary64 bit patterns.
//!
//! Every ordinate the numeric kernels read is held as the 64-bit pattern of a
//! double: one sign bit, then exponent and fraction. The kernels only ever
//! compare ordinates and copy them, and both can be done on the pattern alone:
//! for numbers, the order of the values is the order of their signed
//! magnitudes.

use vstd::prelude::*;

verus! {

/// The pattern with only the sign bit set (negative zero).
pub const SIGN_BIT: u64 = 0x8000_0000_0000_0000;

/// The pattern of positive infinity.
pub const INFINITY: u64 = 0x7FF0_0000_0000_0000;

/// The pattern of negative infinity.
pub const NEG_INFINITY: u64 = 0xFFF0_0000_0000_0000;

/// The pattern without its sign bit.
pub open spec fn magnitude(bits: u64) -> int {
    if bits >= SIGN_BIT {
        bits - SIGN_BIT
    } else {
        bits as int
    }
}

/// Whether the sign bit is set.
pub open spec fn is_negative(bits: u64) -> bool {
    bits >= SIGN_BIT
}

/// Whether the pattern is not a number: its magnitude lies above infinity's.
pub open spec fn is_nan(bits: u64) -> bool {
    magnitude(bits) > INFINITY
}

/// Where a number stands on the number line, in units that preserve order.
/// Both zeros stand at 0.
pub open spec fn rank(bits: u64) -> int {
    if is_negative(bits) {
        -magnitude(bits)
    } else {
        magnitude(bits)
    }
}

/// `a < b` as doubles compare: false whenever either side is not a number.
pub open spec fn lt(a: u64, b: u64) -> bool {
    !is_nan(a) && !is_nan(b) && rank(a) < rank(b)
}

/// `a > b` as doubles compare.
pub open spec fn gt(a: u64, b: u64) -> bool {
    lt(b, a)
}

/// `a <= b` as doubles compare: false whenever either side is not a number.
pub open spec fn le(a: u64, b: u64) -> bool {
    !is_nan(a) && !is_nan(b) && rank(a) <= rank(b)
}

/// The smaller of two doubles. A side that is not a number gives way to the
/// other; of two equal numbers the left one is kept.
pub open spec fn min(a: u64, b: u64) -> u64 {
    if is_nan(a) {
        b
    } else if lt(b, a) {
        b
    } else {
        a
    }
}

/// The larger of two doubles. A side that is not a number gives way to the
/// other; of two equal numbers the left one is kept.
pub open spec fn max(a: u64, b: u64) -> u64 {
    if is_nan(a) {
        b
    } else if gt(b, a) {
        b
    } else {
        a
    }
}

/// The place of a pattern in the total order of IEEE-754: negative patterns
/// below positive ones, negative zero below positive zero, and the patterns
/// that are not numbers at the two ends.
pub open spec fn total_rank(bits: u64) -> int {
    if is_negative(bits) {
        -magnitude(bits) - 1
    } else {
        magnitude(bits)
    }
}

/// Strictly below in the total order.
pub open spec fn total_lt(a: u64, b: u64) -> bool {
    total_rank(a) < total_rank(b)
}

/// Whether the pattern is not a number.
pub fn ordinate_is_nan(bits: u64) -> (r: bool)
    ensures
        r == is_nan(bits),
{
    if bits >= SIGN_BIT {
        bits - SIGN_BIT > INFINITY
    } else {
        bits > INFINITY
    }
}

/// `a < b` as doubles compare.
pub fn ordinate_lt(a: u64, b: u64) -> (r: bool)
    ensures
        r == lt(a, b),
{
    if ordinate_is_nan(a) || ordinate_is_nan(b) {
        false
    } else if a >= SIGN_BIT {
        if b >= SIGN_BIT {
            a > b
        } else {
            a > SIGN_BIT || b > 0
        }
    } else {
        b < SIGN_BIT && a < b
    }
}

/// `a > b` as doubles compare.
pub fn ordinate_gt(a: u64, b: u64) -> (r: bool)
    ensures
        r == gt(a, b),
{
    ordinate_lt(b, a)
}

/// The smaller of two doubles; see [`min`].
pub fn ordinate_min(a: u64, b: u64) -> (r: u64)
    ensures
        r == min(a, b),
{
    if ordinate_is_nan(a) || ordinate_lt(b, a) {
        b
    } else {
        a
    }
}

/// The larger of two doubles; see [`max`].
pub fn ordinate_max(a: u64, b: u64) -> (r: u64)
    ensures
        r == max(a, b),
{
    if ordinate_is_nan(a) || ordinate_gt(b, a) {
        b
    } else {
        a
    }
}

/// Whether `a` stands strictly below `b` in the total order.
pub fn ordinate_total_lt(a: u64, b: u64) -> (r: bool)
    ensures
        r == total_lt(a, b),
{
    if a >= SIGN_BIT {
        if b >= SIGN_BIT {
            a > b
        } else {
            true
        }
    } else {
        b < SIGN_BIT && a < b
    }
}

} // verus!
