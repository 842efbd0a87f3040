//! Numbers of the language, held as IEEE 754 binary64 bit patterns.
//!
//! The library never computes with floating point itself. What it needs of a
//! number (whether two are equal, which is smaller, the negation) it reads
//! from the bit pattern; sums, products and quotients are asked of the
//! embedding program.

use vstd::prelude::*;

verus! {

/// The sign bit of a binary64.
pub const SIGN_BIT: u64 = 0x8000_0000_0000_0000;

/// The bit pattern of positive infinity: every larger magnitude is a NaN.
pub const INFINITY_BITS: u64 = 0x7ff0_0000_0000_0000;

/// The pattern without its sign bit.
pub open spec fn magnitude(bits: u64) -> int {
    bits as int % 0x8000_0000_0000_0000
}

/// Whether the sign bit is set.
pub open spec fn is_negative(bits: u64) -> bool {
    bits >= SIGN_BIT
}

/// Whether the pattern is a NaN: exponent all ones, fraction not zero.
pub open spec fn is_nan(bits: u64) -> bool {
    magnitude(bits) > INFINITY_BITS
}

/// An integer that orders the patterns which are not NaN as binary64 orders
/// the numbers they stand for: among non-negative numbers a larger magnitude
/// is a larger number, among negative ones a smaller, and both zeros get 0.
pub open spec fn order_key(bits: u64) -> int {
    if is_negative(bits) {
        -magnitude(bits)
    } else {
        magnitude(bits)
    }
}

/// Equality of binary64: a NaN equals nothing, the two zeros are equal.
pub open spec fn number_equal(a: u64, b: u64) -> bool {
    !is_nan(a) && !is_nan(b) && order_key(a) == order_key(b)
}

/// The order of binary64: a NaN is neither smaller nor larger than anything.
pub open spec fn number_less(a: u64, b: u64) -> bool {
    !is_nan(a) && !is_nan(b) && order_key(a) < order_key(b)
}

/// The pattern with its sign bit flipped.
pub open spec fn number_negated(bits: u64) -> u64 {
    if bits >= SIGN_BIT {
        (bits - SIGN_BIT) as u64
    } else {
        (bits + SIGN_BIT) as u64
    }
}

fn split(bits: u64) -> (r: (bool, u64))
    ensures
        r.0 == is_negative(bits),
        r.1 == magnitude(bits),
{
    if bits >= SIGN_BIT {
        (true, bits - SIGN_BIT)
    } else {
        (false, bits)
    }
}

/// Whether a pattern is a NaN.
pub fn nan(bits: u64) -> (r: bool)
    ensures
        r == is_nan(bits),
{
    split(bits).1 > INFINITY_BITS
}

/// Whether two patterns are equal as binary64 numbers.
pub fn equal(a: u64, b: u64) -> (r: bool)
    ensures
        r == number_equal(a, b),
{
    let (a_negative, a_size) = split(a);
    let (b_negative, b_size) = split(b);
    if a_size > INFINITY_BITS || b_size > INFINITY_BITS {
        false
    } else if a_negative == b_negative {
        a_size == b_size
    } else {
        a_size == 0 && b_size == 0
    }
}

/// Whether the first pattern is smaller than the second as a binary64 number.
pub fn less(a: u64, b: u64) -> (r: bool)
    ensures
        r == number_less(a, b),
{
    let (a_negative, a_size) = split(a);
    let (b_negative, b_size) = split(b);
    if a_size > INFINITY_BITS || b_size > INFINITY_BITS {
        false
    } else if a_negative {
        if b_negative {
            a_size > b_size
        } else {
            a_size > 0 || b_size > 0
        }
    } else {
        !b_negative && a_size < b_size
    }
}

/// The negation of a binary64 number: its sign bit flipped.
pub fn negate(bits: u64) -> (r: u64)
    ensures
        r == number_negated(bits),
{
    if bits >= SIGN_BIT {
        bits - SIGN_BIT
    } else {
        bits + SIGN_BIT
    }
}

/// Equality is symmetric, it holds of every pattern with itself but of a NaN,
/// and the order is strict: no number is smaller than itself, and of two
/// numbers at most one is smaller than the other.
pub proof fn comparison_laws(a: u64, b: u64)
    ensures
        number_equal(a, b) == number_equal(b, a),
        number_equal(a, a) == !is_nan(a),
        !number_less(a, a),
        !(number_less(a, b) && number_less(b, a)),
        !(number_less(a, b) && number_equal(a, b)),
{
}

/// Negating twice gives the pattern back, and negation reverses the order.
pub proof fn negation_laws(a: u64, b: u64)
    ensures
        number_negated(number_negated(a)) == a,
        is_nan(number_negated(a)) == is_nan(a),
        number_less(number_negated(a), number_negated(b)) == number_less(b, a),
{
}

} // verus!
