//! From gamma-corrected channel values to the bytes of an 8-bit image.
//!
//! A channel value is clamped to `[0, 0.999]` and mapped to
//! `floor(256 · value)`. Both steps are exact on the binary64 encoding of the
//! value, and are done on it here.
use vstd::prelude::*;
use vstd::arithmetic::power2::{pow2, lemma2_to64, lemma2_to64_rest, lemma_pow2_strictly_increases};
use vstd::bits::lemma_u64_shr_is_div;
use vstd::arithmetic::div_mod::lemma_basic_div;
use crate::key::{key_of, order_key};

verus! {

/// Key of `0.999`, the largest channel value kept as it is.
pub const CHANNEL_TOP: i64 = 0x3fef_f7ce_d916_872b;

/// The biased exponent field of a binary64 encoding.
pub open spec fn exponent_field(bits: u64) -> int {
    ((bits >> 52u64) & 0x7ffu64) as int
}

/// The fraction field of a binary64 encoding.
pub open spec fn fraction_field(bits: u64) -> int {
    (bits & 0xf_ffff_ffff_ffffu64) as int
}

/// True when `bits` encodes a NaN.
pub open spec fn is_nan(bits: u64) -> bool {
    exponent_field(bits) == 0x7ff && fraction_field(bits) != 0
}

/// `floor(256 · v)` for a number `v` in `[0, 1)` with encoding `bits`. A normal
/// number is `(2^52 + fraction) · 2^(exponent - 1075)`; a subnormal one is
/// below `2^-1022`, so that `256 · v < 1`.
pub open spec fn floor_256(bits: u64) -> int {
    let e = exponent_field(bits);
    if e == 0 {
        0
    } else {
        (pow2(52) + fraction_field(bits)) / (pow2((1067 - e) as nat) as int)
    }
}

/// The byte for a channel value: NaN gives `0`; otherwise the value is
/// clamped to `[0, 0.999]` and `floor(256 · value)` is taken.
pub open spec fn channel(bits: u64) -> int {
    if is_nan(bits) {
        0
    } else if key_of(bits) < 0 {
        0
    } else if key_of(bits) > CHANNEL_TOP {
        255
    } else {
        floor_256(bits)
    }
}

/// The byte for the channel value whose binary64 encoding is `bits`.
pub fn channel_byte(bits: u64) -> (r: u8)
    ensures
        r as int == channel(bits),
{
    let e = (bits >> 52u64) & 0x7ffu64;
    let f = bits & 0xf_ffff_ffff_ffffu64;
    if e == 0x7ff && f != 0 {
        return 0;
    }
    let k = order_key(bits);
    if k < 0 {
        0
    } else if k > CHANNEL_TOP {
        255
    } else if e == 0 {
        0
    } else {
        assert(bits & 0x8000_0000_0000_0000u64 == 0 ==> bits & 0x7fff_ffff_ffff_ffffu64 == bits)
            by (bit_vector);
        assert(bits <= 0x3fef_f7ce_d916_872bu64 ==> (bits >> 52u64) & 0x7ffu64 <= 1022)
            by (bit_vector);
        assert(bits & 0x7fff_ffff_ffff_ffffu64 == 0 ==> (bits >> 52u64) & 0x7ffu64 == 0)
            by (bit_vector);
        assert(e <= 1022);
        let x = 0x10_0000_0000_0000u64 | f;
        assert(f < 0x10_0000_0000_0000u64 ==> 0x10_0000_0000_0000u64 | f == 0x10_0000_0000_0000u64 + f)
            by (bit_vector);
        assert(bits & 0xf_ffff_ffff_ffffu64 < 0x10_0000_0000_0000u64) by (bit_vector);
        proof {
            lemma2_to64();
            lemma2_to64_rest();
        }
        let shift = 1067 - e;
        if shift >= 64 {
            proof {
                lemma_pow2_strictly_increases(53, shift as nat);
                lemma_basic_div(x as int, pow2(shift as nat) as int);
                assert(floor_256(bits) == 0);
            }
            0
        } else {
            proof {
                lemma_u64_shr_is_div(x, shift);
            }
            assert(x < 0x20_0000_0000_0000u64 && shift >= 45 && shift < 64 ==> x >> shift < 256)
                by (bit_vector);
            assert(floor_256(bits) == (x >> shift) as int);
            (x >> shift) as u8
        }
    }
}

/// The bytes for a sequence of channel values, one byte per value, in order.
pub fn channel_bytes(channels: &Vec<u64>) -> (r: Vec<u8>)
    ensures
        r@.len() == channels@.len(),
        forall|k: int| 0 <= k < r@.len() ==> #[trigger] r@[k] as int == channel(channels@[k]),
{
    let mut r: Vec<u8> = Vec::new();
    let mut i: usize = 0;
    while i < channels.len()
        invariant
            i <= channels@.len(),
            r@.len() == i,
            forall|k: int| 0 <= k < i ==> #[trigger] r@[k] as int == channel(channels@[k]),
        decreases channels@.len() - i,
    {
        r.push(channel_byte(channels[i]));
        i = i + 1;
    }
    r
}

} // verus!
