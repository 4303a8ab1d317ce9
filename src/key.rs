//! Order keys: integers that stand for binary64 numbers in comparisons.
//!
//! The key of a number is its magnitude bits (the encoding without the sign
//! bit), negated when the sign bit is set. For numbers that are not NaN, keys
//! compare as the numbers do, both zeros have key `0`, and negating a number
//! negates its key.
use vstd::prelude::*;

verus! {

/// The sign bit of a binary64 encoding.
pub const SIGN_BIT: u64 = 0x8000_0000_0000_0000;

/// The bits of a binary64 encoding other than the sign.
pub const MAGNITUDE_MASK: u64 = 0x7fff_ffff_ffff_ffff;

/// Key of `1.0`.
pub const ONE: i64 = 0x3ff0_0000_0000_0000;

/// Key of positive infinity.
pub const INFINITY: i64 = 0x7ff0_0000_0000_0000;

/// The key of the number whose binary64 encoding is `bits`.
pub open spec fn key_of(bits: u64) -> int {
    let m = (bits & MAGNITUDE_MASK) as int;
    if bits & SIGN_BIT != 0 {
        -m
    } else {
        m
    }
}

/// The key of the number whose binary64 encoding is `bits`.
pub fn order_key(bits: u64) -> (r: i64)
    ensures
        r as int == key_of(bits),
{
    let m = bits & MAGNITUDE_MASK;
    assert(bits & 0x7fff_ffff_ffff_ffffu64 <= 0x7fff_ffff_ffff_ffffu64) by (bit_vector);
    let m = m as i64;
    if bits & SIGN_BIT != 0 {
        -m
    } else {
        m
    }
}

/// Flipping the sign bit, which is how a number is negated, negates its key.
pub proof fn lemma_negation_negates_key(bits: u64)
    ensures
        key_of(bits ^ SIGN_BIT) == -key_of(bits),
{
    assert((bits ^ 0x8000_0000_0000_0000u64) & 0x7fff_ffff_ffff_ffffu64
        == bits & 0x7fff_ffff_ffff_ffffu64) by (bit_vector);
    assert(((bits ^ 0x8000_0000_0000_0000u64) & 0x8000_0000_0000_0000u64 != 0)
        == (bits & 0x8000_0000_0000_0000u64 == 0)) by (bit_vector);
}

} // verus!
