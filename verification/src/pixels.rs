//! Sizes in pixels. A size is kept as the bit pattern of a single-precision
//! number; here is how such patterns compare.

use vstd::prelude::*;

verus! {

/// The bit patterns from here on are those of negative numbers.
pub const SIGN: u32 = 0x8000_0000;

/// The bit pattern of infinity; those above it, up to [`SIGN`], are no numbers.
pub const INFINITY: u32 = 0x7f80_0000;

/// The pattern of the absolute value.
pub open spec fn magnitude(bits: u32) -> int {
    if bits >= SIGN {
        bits - SIGN
    } else {
        bits as int
    }
}

/// The pattern is that of no number.
pub open spec fn is_nan(bits: u32) -> bool {
    magnitude(bits) > INFINITY
}

/// Where a number stands among the numbers. Both zeros stand at 0.
pub open spec fn rank(bits: u32) -> int {
    if bits >= SIGN {
        -magnitude(bits)
    } else {
        magnitude(bits)
    }
}

/// Two patterns are equal as numbers.
pub open spec fn same(a: u32, b: u32) -> bool {
    !is_nan(a) && !is_nan(b) && rank(a) == rank(b)
}

/// The first number is below the second.
pub open spec fn below(a: u32, b: u32) -> bool {
    !is_nan(a) && !is_nan(b) && rank(a) < rank(b)
}

/// The larger of two numbers, and of a number and none the number.
pub open spec fn larger(a: u32, b: u32) -> u32 {
    if is_nan(a) || below(a, b) {
        b
    } else {
        a
    }
}

/// A size that is kept between two bounds; what is no number becomes the lower
/// one.
pub open spec fn bounded(bits: u32, lo: u32, hi: u32) -> u32 {
    if is_nan(bits) || below(bits, lo) {
        lo
    } else if below(hi, bits) {
        hi
    } else {
        bits
    }
}

/// Equality of two optional sizes.
pub open spec fn same_option(a: Option<u32>, b: Option<u32>) -> bool {
    match (a, b) {
        (Some(x), Some(y)) => same(x, y),
        (None, None) => true,
        _ => false,
    }
}

fn magnitude_of(bits: u32) -> (m: u32)
    ensures
        m == magnitude(bits),
{
    if bits >= SIGN {
        bits - SIGN
    } else {
        bits
    }
}

/// Whether a pattern is that of no number.
pub fn nan(bits: u32) -> (r: bool)
    ensures
        r == is_nan(bits),
{
    magnitude_of(bits) > INFINITY
}

fn rank_of(bits: u32) -> (r: i64)
    ensures
        r == rank(bits),
{
    if bits >= SIGN {
        -(magnitude_of(bits) as i64)
    } else {
        bits as i64
    }
}

/// Whether the first number is below the second.
pub fn is_below(a: u32, b: u32) -> (r: bool)
    ensures
        r == below(a, b),
{
    !nan(a) && !nan(b) && rank_of(a) < rank_of(b)
}

/// Whether two patterns are equal as numbers.
pub fn is_same(a: u32, b: u32) -> (r: bool)
    ensures
        r == same(a, b),
{
    !nan(a) && !nan(b) && rank_of(a) == rank_of(b)
}

/// Whether two optional sizes are equal.
pub fn is_same_option(a: Option<u32>, b: Option<u32>) -> (r: bool)
    ensures
        r == same_option(a, b),
{
    match (a, b) {
        (Some(x), Some(y)) => is_same(x, y),
        (None, None) => true,
        _ => false,
    }
}

/// The larger of two numbers.
pub fn max_of(a: u32, b: u32) -> (r: u32)
    ensures
        r == larger(a, b),
{
    if nan(a) || is_below(a, b) {
        b
    } else {
        a
    }
}

/// Keep a size between two bounds.
pub fn bound(bits: u32, lo: u32, hi: u32) -> (r: u32)
    ensures
        r == bounded(bits, lo, hi),
{
    if nan(bits) || is_below(bits, lo) {
        lo
    } else if is_below(hi, bits) {
        hi
    } else {
        bits
    }
}

/// A bounded size is a number between its bounds.
pub proof fn bounded_stays_between(bits: u32, lo: u32, hi: u32)
    requires
        !is_nan(lo),
        !is_nan(hi),
        rank(lo) <= rank(hi),
    ensures
        !is_nan(bounded(bits, lo, hi)),
        rank(lo) <= rank(bounded(bits, lo, hi)) <= rank(hi),
        bounded(bounded(bits, lo, hi), lo, hi) == bounded(bits, lo, hi),
{
}

} // verus!
