//! Bit-field utilities: sign extension and bit-range extraction over 16-bit
//! instruction words.

use vstd::prelude::*;

verus! {

/// The mask with the low `n` bits set, for `n` up to 15.
pub open spec fn low_mask(n: usize) -> u16 {
    ((1u16 << n) - 1) as u16
}

/// What `sign_extend` returns: the low `bit_count` bits of `x` widened to 16
/// bits by copying bit `bit_count - 1` upward.
pub open spec fn sext(x: u16, bit_count: usize) -> u16 {
    if (x >> (bit_count - 1)) & 1 != 0 {
        x | (0xFFFFu16 << bit_count)
    } else {
        x
    }
}

/// What `get_bits` returns: the `count`-bit field of `value` starting at bit
/// `start`, shifted down to bit 0.
pub open spec fn field(value: u16, start: usize, count: usize) -> u16 {
    (value >> start) & low_mask(count)
}

/// The two's-complement reading of a full 16-bit word.
pub open spec fn as_signed(w: u16) -> int {
    if w >= 0x8000 {
        w - 0x10000
    } else {
        w as int
    }
}

/// The two's-complement reading of `v` as an `n`-bit quantity (`v` is assumed
/// to fit in `n` bits).
pub open spec fn as_signed_width(v: u16, n: usize) -> int {
    if (v >> (n - 1)) & 1 != 0 {
        v - (1u16 << n)
    } else {
        v as int
    }
}

/// Treats the low `bit_count` bits of `x` as a two's-complement signed
/// quantity and extends the sign through all 16 bits.
pub fn sign_extend(x: u16, bit_count: usize) -> (r: u16)
    requires
        1 <= bit_count <= 15,
    ensures
        r == sext(x, bit_count),
{
    if ((x >> (bit_count - 1)) & 1) != 0 {
        x | (0xFFFF << bit_count)
    } else {
        x
    }
}

/// Extracts the `count`-bit field of `value` starting at bit position
/// `start`, right-shifted to bit 0.
pub fn get_bits(value: u16, start: usize, count: usize) -> (r: u16)
    requires
        count <= 15,
        start <= 15,
        start + count <= 16,
    ensures
        r == field(value, start, count),
{
    proof {
        assert(1u16 << count >= 1) by (bit_vector)
            requires
                count < 16,
        ;
    }
    (value >> start) & ((1 << count) - 1)
}

/// Sign extension reproduces the two's-complement value: for every 16-bit `x`
/// and every width `n` from 1 to 15, extending the low `n` bits of `x` yields
/// a word whose 16-bit two's-complement value equals the `n`-bit
/// two's-complement value of those low bits.
pub proof fn lemma_sign_extend_reproduces_value(x: u16, n: usize)
    requires
        1 <= n <= 15,
    ensures
        as_signed(sext(x & low_mask(n), n)) == as_signed_width(x & low_mask(n), n),
{
    let v = x & low_mask(n);
    if (v >> (n - 1)) & 1 != 0 {
        assert((x & (((1u16 << n) - 1) as u16)) | (0xFFFFu16 << n) >= 0x8000) by (bit_vector)
            requires
                1 <= n <= 15,
        ;
        assert(((x & (((1u16 << n) - 1) as u16)) | (0xFFFFu16 << n)) == (x & (((1u16 << n) - 1)
            as u16)) + 0x10000 - (1u16 << n)) by (bit_vector)
            requires
                1 <= n <= 15,
        ;
    } else {
        assert(x & (((1u16 << n) - 1) as u16) < 0x8000) by (bit_vector)
            requires
                1 <= n <= 15,
        ;
    }
}

} // verus!
