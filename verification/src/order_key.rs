//! Order keys: integers that stand for the positions of sign boundaries.
//!
//! A position on the sampled axis is an `f32` in the surrounding program. The
//! analysis only ever orders and compares positions, so it holds each one as
//! the signed magnitude of its IEEE 754 bit pattern: the magnitude bits
//! (everything but the sign bit), negated when the sign bit is set. Both zeros
//! get the key 0, infinity gets `INFINITY_KEY`, negative infinity
//! `NEG_INFINITY_KEY`, and NaN gets no key. That ordering keys by `<` orders
//! the floats they stand for is a property of the IEEE 754 encoding, which
//! these contracts do not state.
use vstd::prelude::*;

verus! {

/// The key of positive infinity (bit pattern `0x7F80_0000`).
pub const INFINITY_KEY: i32 = 2139095040i32;

/// The key of negative infinity (bit pattern `0xFF80_0000`).
pub const NEG_INFINITY_KEY: i32 = -2139095040i32;

/// The sign bit of an `f32` bit pattern.
pub const SIGN_BIT: u32 = 2147483648u32;

/// The magnitude of an `f32` bit pattern: the pattern without its sign bit.
pub open spec fn bits_magnitude(bits: u32) -> int {
    if bits >= SIGN_BIT {
        bits - SIGN_BIT
    } else {
        bits as int
    }
}

/// The bit pattern is a NaN: its magnitude lies above that of infinity.
pub open spec fn bits_are_nan(bits: u32) -> bool {
    bits_magnitude(bits) > INFINITY_KEY
}

/// The key of a bit pattern: its magnitude, negated when the sign bit is set.
pub open spec fn key_of_bits(bits: u32) -> int {
    if bits >= SIGN_BIT {
        -bits_magnitude(bits)
    } else {
        bits_magnitude(bits)
    }
}

/// The key stands for a value that is not NaN.
pub open spec fn key_in_domain(key: int) -> bool {
    NEG_INFINITY_KEY <= key <= INFINITY_KEY
}

/// The bit pattern that a key stands for (the positive zero for key 0).
pub open spec fn bits_of_key(key: int) -> int {
    if key < 0 {
        SIGN_BIT - key
    } else {
        key
    }
}

/// The order key of an `f32` given by its bit pattern, or `None` for a NaN.
pub fn order_key_from_bits(bits: u32) -> (r: Option<i32>)
    ensures
        bits_are_nan(bits) <==> r is None,
        r matches Some(k) ==> k as int == key_of_bits(bits) && key_in_domain(k as int),
{
    if bits >= SIGN_BIT {
        let mag: u32 = bits - SIGN_BIT;
        if mag > 2139095040u32 {
            None
        } else {
            let m: i32 = mag as i32;
            Some(-m)
        }
    } else {
        if bits > 2139095040u32 {
            None
        } else {
            Some(bits as i32)
        }
    }
}

/// The bit pattern of the `f32` that an order key stands for.
pub fn bits_from_order_key(key: i32) -> (r: u32)
    requires
        key_in_domain(key as int),
    ensures
        r as int == bits_of_key(key as int),
{
    if key < 0 {
        let m: i32 = -key;
        SIGN_BIT + (m as u32)
    } else {
        key as u32
    }
}

/// Turning a key into bits and back gives the key again.
pub proof fn lemma_key_bits_round_trip(key: int)
    requires
        key_in_domain(key),
    ensures
        0 <= bits_of_key(key) <= u32::MAX,
        key_of_bits(bits_of_key(key) as u32) == key,
        !bits_are_nan(bits_of_key(key) as u32),
{
}

/// Turning a non-NaN bit pattern into a key and back gives the pattern again,
/// except for the negative zero, which comes back as the positive zero.
pub proof fn lemma_bits_key_round_trip(bits: u32)
    requires
        !bits_are_nan(bits),
    ensures
        key_in_domain(key_of_bits(bits)),
        bits != SIGN_BIT ==> bits_of_key(key_of_bits(bits)) == bits,
        bits == SIGN_BIT ==> bits_of_key(key_of_bits(bits)) == 0,
{
}

/// Keys follow the bit patterns: among patterns without the sign bit a larger pattern has a
/// larger, non-negative key; among patterns with the sign bit a larger pattern has a smaller,
/// non-positive key.
pub proof fn lemma_key_order(b1: u32, b2: u32)
    ensures
        b1 < SIGN_BIT ==> key_of_bits(b1) >= 0,
        b1 >= SIGN_BIT ==> key_of_bits(b1) <= 0,
        b1 < b2 < SIGN_BIT ==> key_of_bits(b1) < key_of_bits(b2),
        SIGN_BIT <= b1 < b2 ==> key_of_bits(b1) > key_of_bits(b2),
{
}

} // verus!
