//! What shifts, masks and truncations mean as ordinary arithmetic.

use vstd::prelude::*;

verus! {

/// The bytes, halves, flags and fields of a 32-bit word are quotients and
/// remainders by powers of two.
pub proof fn lemma_word32(word: u32)
    by (bit_vector)
    ensures
        word | 0 == word,
        word as u8 == word % 0x100,
        (word >> 8) as u8 == word / 0x100 % 0x100,
        (word >> 16) as u8 == word / 0x1_0000 % 0x100,
        (word >> 24) as u8 == word / 0x100_0000,
        word as u16 == word % 0x1_0000,
        (word >> 16) as u16 == word / 0x1_0000,
        word >> 16 == word / 0x1_0000,
        word >> 1 == word / 2,
        word >> 2 == word / 4,
        word >> 4 == word / 16,
        word >> 8 == word / 0x100,
        word >> 20 == word / 0x10_0000,
        word & 1 == word % 2,
        word & 2 == word / 2 % 2 * 2,
        word & 4 == word / 4 % 2 * 4,
        word & 8 == word / 8 % 2 * 8,
        word & 0x03 == word % 4,
        word & 0x0f == word % 16,
        word & 0xff == word % 0x100,
        word & !0x03 == word - word % 4,
        word & !0x0f == word - word % 16,
        word & 0xffff_fff0 == word - word % 16,
        word & !0x1f == word - word % 32,
        (word >> 1) & 0x03 == word / 2 % 4,
        (word >> 8) & 0x7ff == word / 0x100 % 0x800,
        (word >> 8) & 0xff == word / 0x100 % 0x100,
        (word >> 16) & 0xff == word / 0x1_0000 % 0x100,
        (word >> 16) & 0xffff == word / 0x1_0000,
        (word >> 21) & 0x1f == word / 0x20_0000 % 0x20,
        (word >> 27) & 0x1f == word / 0x800_0000,
        (word >> 28) & 0x0f == word / 0x1000_0000,
        (word >> 16) as u8 * 0x1_0000 + (word >> 8) as u8 * 0x100 + word as u8 == word
            % 0x100_0000,
{
}

/// The halves and alignment of a 64-bit word.
pub proof fn lemma_word64(word: u64)
    by (bit_vector)
    ensures
        word as u32 == word % 0x1_0000_0000,
        (word >> 32) as u32 == word / 0x1_0000_0000,
        word >> 32 == word / 0x1_0000_0000,
        word >> 12 == word / 0x1000,
        word >> 27 == word / 0x800_0000,
        word >> 30 == word / 0x4000_0000,
        word >> 31 == word / 0x8000_0000,
        word & 0xfff == word % 0x1000,
        word & 0x03 == word % 4,
        word & 0x07 == word % 8,
        word & 0x3f == word % 64,
        word & 0xffff_ffff == word % 0x1_0000_0000,
        word & !0x0f == word - word % 16,
        word & !0xfff == word - word % 0x1000,
        (word << 17) | (word >> 47) | 1 == word % 0x8000_0000_0000 * 0x2_0000 + word
            / 0x8000_0000_0000 / 2 * 2 + 1,
{
}

/// The bytes, nibbles and alignment of a 16-bit word.
pub proof fn lemma_word16(word: u16)
    by (bit_vector)
    ensures
        word & 0 == 0,
        word as u8 == word % 0x100,
        (word >> 8) as u8 == word / 0x100,
        word >> 8 == word / 0x100,
        (word >> 11) as u8 == word / 2048,
        (word >> 5) as u8 == word / 32 % 0x100,
        word & 0x03 == word % 4,
        word & 0x000f == word % 16,
        (word >> 4) & 0x000f == word / 16 % 16,
        (word >> 8) & 0x000f == word / 0x100 % 16,
        (word >> 12) & 0x000f == word / 0x1000,
        word & 1 == word % 2,
        word & 2 == word / 2 % 2 * 2,
        word & 4 == word / 4 % 2 * 4,
        word & 0x0ffc == word / 4 % 0x400 * 4,
        word & (1u16 << 4) != 0 <==> word / 16 % 2 == 1,
        word & 0x10 != 0 <==> word / 16 % 2 == 1,
{
}

/// The fields of a byte.
pub proof fn lemma_byte(byte: u8)
    by (bit_vector)
    ensures
        byte & 0x03 == byte % 4,
        byte & 0xfc == byte - byte % 4,
        byte & 0x7f == byte % 0x80,
        byte & 0x80 == byte / 0x80 * 0x80,
        byte & 0x07 == byte % 8,
        byte >> 3 == byte / 8,
        byte >> 4 == byte / 16,
        byte & 0x0f == byte % 16,
        byte & 0x01 == byte % 2,
        byte & 0x02 == byte / 2 % 2 * 2,
        byte >> 2 == byte / 4,
        ((byte & 0x1f) << 3) | ((byte & 0x1f) >> 2) == byte % 32 * 8 + byte % 32 / 4,
        ((byte & 0x3f) << 2) | ((byte & 0x3f) >> 4) == byte % 64 * 4 + byte % 64 / 16,
{
}

/// A word is four given bytes, or two given halves, exactly when it is their
/// sum by weight.
pub proof fn lemma_parts(word: u32, a: u8, b: u8, c: u8, d: u8, high: u16, low: u16)
    by (bit_vector)
    ensures
        (word >> 24) as u8 == a && (word >> 16) as u8 == b && (word >> 8) as u8 == c && word as u8
            == d <==> word == a * 0x100_0000 + b * 0x1_0000 + c * 0x100 + d,
        (word >> 16) as u16 == high && word as u16 == low <==> word == high * 0x1_0000 + low,
{
}

/// Two five-bit fields joined by a shift.
pub proof fn lemma_five_bits(high: u16, low: u16)
    by (bit_vector)
    requires
        high < 32,
        low < 32,
    ensures
        (high << 5u16) | low == high * 32 + low,
{
}

/// Two halves joined by a shift are the high half times 2^32 plus the low half.
pub proof fn lemma_joined(high: u32, low: u32)
    by (bit_vector)
    ensures
        ((high as u64) << 32) | (low as u64) == high * 0x1_0000_0000 + low,
        (low as u64) | ((high as u64) << 32) == high * 0x1_0000_0000 + low,
        ((high as u64) << 32u64) | (low as u64) == high * 0x1_0000_0000 + low,
{
}

} // verus!
