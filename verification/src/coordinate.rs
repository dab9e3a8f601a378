//! Integer coordinates that sort the way binary64 numbers do.
//!
//! The bit pattern of an IEEE 754 binary64 number is a sign bit followed by
//! 63 bits of magnitude (exponent, then fraction). Among numbers that are not
//! NaN, a greater magnitude is a greater absolute value, so the numbers are
//! ordered by sign first and then by magnitude, upwards where the sign is
//! clear and downwards where it is set. The coordinate of a bit pattern is
//! the signed integer with that same order: the magnitude itself for a clear
//! sign, and `-1 - magnitude` for a set one.
//!
//! Two things differ from the order of the numbers. Negative zero and
//! positive zero, equal as numbers, get the coordinates `-1` and `0`. NaN
//! patterns, which the numbers' order leaves out, get coordinates beyond
//! those of the two infinities; what a bounding box says of a polyline with
//! such a point is of no use.

use vstd::prelude::*;

verus! {

/// The sign bit of a binary64 bit pattern.
pub const SIGN_BIT: u64 = 0x8000_0000_0000_0000;

/// The sign bit of `bits` is set.
pub open spec fn is_negative(bits: u64) -> bool {
    bits >= SIGN_BIT
}

/// The 63 bits of `bits` below the sign bit, as a number.
pub open spec fn magnitude(bits: u64) -> int {
    if bits >= SIGN_BIT {
        bits - SIGN_BIT
    } else {
        bits as int
    }
}

/// The order of sign-and-magnitude patterns: a set sign comes before a clear
/// one; of two clear signs the smaller magnitude comes first, of two set
/// signs the greater.
pub open spec fn precedes(a: u64, b: u64) -> bool {
    if is_negative(a) {
        !is_negative(b) || magnitude(a) > magnitude(b)
    } else {
        !is_negative(b) && magnitude(a) < magnitude(b)
    }
}

/// The coordinate of a bit pattern.
pub open spec fn coordinate_of(bits: u64) -> int {
    if is_negative(bits) {
        -1 - magnitude(bits)
    } else {
        magnitude(bits)
    }
}

/// The bit pattern of a coordinate.
pub open spec fn bits_of(coordinate: i64) -> int {
    if coordinate < 0 {
        SIGN_BIT + (-1 - coordinate)
    } else {
        coordinate as int
    }
}

/// The coordinate that stands for the bit pattern `bits`.
pub fn from_bits(bits: u64) -> (coordinate: i64)
    ensures
        coordinate == coordinate_of(bits),
        bits_of(coordinate) == bits,
{
    if bits < SIGN_BIT {
        bits as i64
    } else {
        let magnitude: u64 = bits - SIGN_BIT;
        -1 - (magnitude as i64)
    }
}

/// The bit pattern that `coordinate` stands for.
pub fn to_bits(coordinate: i64) -> (bits: u64)
    ensures
        bits == bits_of(coordinate),
        coordinate_of(bits) == coordinate,
{
    if coordinate < 0 {
        let magnitude: i64 = -1 - coordinate;
        SIGN_BIT + (magnitude as u64)
    } else {
        coordinate as u64
    }
}

/// Coordinates are ordered as the bit patterns they stand for, and no two
/// bit patterns share one.
pub proof fn lemma_coordinate_order(a: u64, b: u64)
    ensures
        coordinate_of(a) < coordinate_of(b) <==> precedes(a, b),
        coordinate_of(a) == coordinate_of(b) <==> a == b,
{
}

/// Every `i64` is the coordinate of exactly one bit pattern, and every bit
/// pattern has a coordinate in `i64`.
pub proof fn lemma_coordinate_round_trip(bits: u64, coordinate: i64)
    ensures
        i64::MIN <= coordinate_of(bits) <= i64::MAX,
        0 <= bits_of(coordinate) <= u64::MAX,
        coordinate_of(bits) == coordinate <==> bits_of(coordinate) == bits,
{
}

} // verus!
