//! Small facts about bits that several modules share.

use vstd::prelude::*;

verus! {

/// One where the bit under `mask` is set, else zero.
pub open spec fn bit_at(value: u8, mask: u8) -> nat {
    if value & mask != 0 {
        1
    } else {
        0
    }
}

/// How many bits of a byte are set.
pub open spec fn ones(value: u8) -> nat {
    bit_at(value, 1) + bit_at(value, 2) + bit_at(value, 4) + bit_at(value, 8) + bit_at(value, 16)
        + bit_at(value, 32) + bit_at(value, 64) + bit_at(value, 128)
}

/// Whether a byte has an even number of set bits, as the parity flag tells.
pub open spec fn even_parity(value: u8) -> bool {
    ones(value) % 2 == 0
}

fn bit_of(value: u8, mask: u8) -> (n: u32)
    ensures
        n == bit_at(value, mask),
{
    if value & mask != 0 {
        1
    } else {
        0
    }
}

pub(crate) fn parity_even(value: u8) -> (even: bool)
    ensures
        even == even_parity(value),
{
    let count: u32 = bit_of(value, 1) + bit_of(value, 2) + bit_of(value, 4) + bit_of(value, 8)
        + bit_of(value, 16) + bit_of(value, 32) + bit_of(value, 64) + bit_of(value, 128);
    count % 2 == 0
}

/// The flag word with the bits of `mask` set or cleared.
pub open spec fn with_flag16(flags: u16, mask: u16, on: bool) -> u16 {
    if on {
        flags | mask
    } else {
        flags & !mask
    }
}

/// The word whose low byte is `low` and whose high byte is `high`.
pub open spec fn word_of(low: u8, high: u8) -> u16 {
    ((high as u16) << 8) | (low as u16)
}

/// The low and the high byte of a word, as memory holds them.
pub open spec fn low_byte(word: u16) -> u8 {
    (word & 0xFF) as u8
}

pub open spec fn high_byte(word: u16) -> u8 {
    (word >> 8) as u8
}

proof fn lemma_bytes_as_numbers(word: u16, low: u8, high: u8)
    by (bit_vector)
    ensures
        ((((word >> 8) as u8) as u16) << 8) | (((word & 0xFF) as u8) as u16) == word,
        ((high as u16) << 8) | (low as u16) == (low as u16) + 256u16 * (high as u16),
        (word & 0xFF) as u8 as u16 == word % 256u16,
        (word >> 8) as u8 as u16 == word / 256u16,
        (word & 0x8000 != 0) == (word >= 0x8000),
        (low & 0x80 != 0) == (low >= 0x80),
        word & 0x0F == word % 16,
{
}

/// Splitting a word into its bytes and joining them gives the word back.
pub proof fn lemma_word_of_bytes(word: u16)
    ensures
        word_of(low_byte(word), high_byte(word)) == word,
{
    lemma_bytes_as_numbers(word, 0, 0);
}

/// A word is its low byte and 256 times its high byte.
pub proof fn law_words_as_numbers(word: u16, low: u8, high: u8)
    ensures
        word_of(low, high) == low + 256 * high,
        low_byte(word) == word % 256,
        high_byte(word) == word / 256,
        low_byte(word) + 256 * high_byte(word) == word,
{
    lemma_bytes_as_numbers(word, low, high);
}

/// What single bits and the low digit tell of a number.
pub proof fn law_bits_as_numbers(word: u16, byte: u8)
    ensures
        (word & 0x8000 != 0) == (word >= 0x8000),
        (byte & 0x80 != 0) == (byte >= 0x80),
        word & 0x0F == word % 16,
        byte & 0x0F == byte % 16,
{
    lemma_bytes_as_numbers(word, byte, 0);
    lemma_bytes_as_numbers(byte as u16, byte, 0);
}

proof fn lemma_bits_of(byte: u8)
    by (bit_vector)
    ensures
        byte < 128 ==> ((byte << 1) & 2 != 0) == (byte & 1 != 0),
        byte < 128 ==> ((byte << 1) & 4 != 0) == (byte & 2 != 0),
        byte < 128 ==> ((byte << 1) & 8 != 0) == (byte & 4 != 0),
        byte < 128 ==> ((byte << 1) & 16 != 0) == (byte & 8 != 0),
        byte < 128 ==> ((byte << 1) & 32 != 0) == (byte & 16 != 0),
        byte < 128 ==> ((byte << 1) & 64 != 0) == (byte & 32 != 0),
        byte < 128 ==> ((byte << 1) & 128 != 0) == (byte & 64 != 0),
        byte < 128 ==> (byte << 1) & 1 == 0 && byte & 128 == 0,
        byte < 128 ==> (byte << 1) as u32 == 2 * (byte as u32),
        (byte | 1) & 2 == byte & 2,
        (byte | 1) & 4 == byte & 4,
        (byte | 1) & 8 == byte & 8,
        (byte | 1) & 16 == byte & 16,
        (byte | 1) & 32 == byte & 32,
        (byte | 1) & 64 == byte & 64,
        (byte | 1) & 128 == byte & 128,
        (byte | 1) & 1 != 0,
        (byte & 1 == 0) == (byte % 2 == 0),
        byte & 1 == 0 ==> (byte | 1) == byte + 1,
        0u8 & 1 == 0 && 0u8 & 2 == 0 && 0u8 & 4 == 0 && 0u8 & 8 == 0,
        0u8 & 16 == 0 && 0u8 & 32 == 0 && 0u8 & 64 == 0 && 0u8 & 128 == 0,
{
}

/// Parity: no ones are an even number of them, moving a byte's bits up does
/// not change it, and one more bit does.
pub proof fn law_parity(byte: u8)
    ensures
        even_parity(0),
        byte < 128 ==> even_parity((2 * byte) as u8) == even_parity(byte),
        byte % 2 == 0 ==> even_parity((byte + 1) as u8) == !even_parity(byte),
{
    lemma_bits_of(byte);
    if byte < 128 {
        assert((2 * byte) as u8 == byte << 1);
        assert(ones(byte << 1) == ones(byte));
    }
    if byte % 2 == 0 {
        assert((byte + 1) as u8 == byte | 1);
        assert(ones(byte | 1) == ones(byte) + 1);
    }
}

} // verus!
