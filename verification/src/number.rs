//! Numbers: 64-bit IEEE 754 floating point, held as the 64 bits of their
//! binary64 encoding.
//!
//! The library decides itself what needs no rounding: the sign, the order,
//! equality, and whether a number is zero or not a number. Sums,
//! differences, products, quotients and the conversions from and to decimal
//! notation are the work of the host (see `interpreter::Request`).

use vstd::prelude::*;

verus! {

/// The sign bit.
pub const SIGN: u64 = 0x8000_0000_0000_0000;

/// Positive infinity.
pub const INFINITY: u64 = 0x7FF0_0000_0000_0000;

/// The encoding without its sign bit.
pub open spec fn magnitude(bits: u64) -> int {
    if bits >= SIGN {
        bits - SIGN
    } else {
        bits as int
    }
}

/// Whether the encoding is of no number: its magnitude lies beyond that of
/// infinity.
pub open spec fn is_nan(bits: u64) -> bool {
    magnitude(bits) > INFINITY
}

/// Whether the encoding is of zero, positive or negative.
pub open spec fn is_zero(bits: u64) -> bool {
    magnitude(bits) == 0
}

/// The place of a number in the order of all numbers. Among the encodings
/// of numbers, greater magnitudes encode greater absolute values, so the
/// magnitude with the sign before it orders them as their values do; the two
/// zeros share a place.
pub open spec fn ordinal(bits: u64) -> int {
    if bits >= SIGN {
        -magnitude(bits)
    } else {
        magnitude(bits)
    }
}

/// `a == b` on numbers: neither is not-a-number and both have one value.
pub open spec fn equal(a: u64, b: u64) -> bool {
    !is_nan(a) && !is_nan(b) && ordinal(a) == ordinal(b)
}

/// `a < b` on numbers: neither is not-a-number and `a` has the lesser
/// value.
pub open spec fn less(a: u64, b: u64) -> bool {
    !is_nan(a) && !is_nan(b) && ordinal(a) < ordinal(b)
}

/// `a <= b` on numbers.
pub open spec fn less_equal(a: u64, b: u64) -> bool {
    !is_nan(a) && !is_nan(b) && ordinal(a) <= ordinal(b)
}

/// `-a` on numbers: the same magnitude with the other sign.
pub open spec fn negation(bits: u64) -> u64 {
    if bits >= SIGN {
        (bits - SIGN) as u64
    } else {
        (bits + SIGN) as u64
    }
}

/// The encoding without its sign bit.
pub fn number_magnitude(bits: u64) -> (m: u64)
    ensures
        m == magnitude(bits),
{
    if bits >= SIGN {
        bits - SIGN
    } else {
        bits
    }
}

/// Whether `bits` encodes no number.
pub fn number_is_nan(bits: u64) -> (nan: bool)
    ensures
        nan == is_nan(bits),
{
    number_magnitude(bits) > INFINITY
}

/// Whether `bits` encodes zero, positive or negative.
pub fn number_is_zero(bits: u64) -> (zero: bool)
    ensures
        zero == is_zero(bits),
{
    number_magnitude(bits) == 0
}

/// `a == b` on numbers.
pub fn number_equal(a: u64, b: u64) -> (same: bool)
    ensures
        same == equal(a, b),
{
    if number_is_nan(a) || number_is_nan(b) {
        false
    } else {
        a == b || (number_is_zero(a) && number_is_zero(b))
    }
}

/// `a < b` on numbers.
pub fn number_less(a: u64, b: u64) -> (lesser: bool)
    ensures
        lesser == less(a, b),
{
    if number_is_nan(a) || number_is_nan(b) {
        false
    } else if a >= SIGN {
        if b >= SIGN {
            a > b
        } else {
            !(number_is_zero(a) && number_is_zero(b))
        }
    } else {
        b < SIGN && a < b
    }
}

/// `a <= b` on numbers.
pub fn number_less_equal(a: u64, b: u64) -> (at_most: bool)
    ensures
        at_most == less_equal(a, b),
{
    number_less(a, b) || number_equal(a, b)
}

/// `-a` on numbers.
pub fn number_negate(bits: u64) -> (negated: u64)
    ensures
        negated == negation(bits),
{
    if bits >= SIGN {
        bits - SIGN
    } else {
        bits + SIGN
    }
}

/// Negation turns the order around and is undone by itself.
pub proof fn lemma_negation(bits: u64)
    ensures
        negation(negation(bits)) == bits,
        magnitude(negation(bits)) == magnitude(bits),
        is_nan(negation(bits)) == is_nan(bits),
        ordinal(negation(bits)) == -ordinal(bits),
{
}

} // verus!
