//! Facts about masks and shifts on bytes and words, as arithmetic.

use vstd::prelude::*;

verus! {

/// A byte's low fields as remainders and quotients.
pub proof fn lemma_byte_fields(x: u8)
    ensures
        x & 1 == x % 2,
        x & 3 == x % 4,
        x & 7 == x % 8,
        x & 0x1f == x % 32,
        x & 0x3f == x % 64,
        x >> 3u8 == x / 8,
        x >> 5u8 == x / 32,
{
    assert(x & 1 == x % 2 && x & 3 == x % 4 && x & 7 == x % 8 && x & 0x1f == x % 32 && x & 0x3f
        == x % 64 && x >> 3u8 == x / 8 && x >> 5u8 == x / 32) by (bit_vector);
}

/// A word's masks and single shifts as arithmetic.
pub proof fn lemma_word_fields(x: u16)
    ensures
        x & 7 == x % 8,
        x & 0x1f == x % 32,
        x & 0x3fff == x % 0x4000,
        x & 0x2fff <= 0x2fff,
        (x >> 12u16) & 7 <= 7,
        x << 1u16 == ((x * 2) % 0x10000) as u16,
{
    assert(x & 7 == x % 8 && x & 0x1f == x % 32 && x & 0x3fff == x % 0x4000 && x & 0x2fff <= 0x2fff
        && (x >> 12u16) & 7 <= 7 && x << 1u16 == ((x * 2) % 0x10000) as u16) by (bit_vector);
}

/// Replacing a word's low byte.
pub proof fn lemma_low_byte(x: u16, y: u8)
    ensures
        (x & 0xff00u16) | y as u16 == (x / 256 * 256 + y) as u16,
{
    assert((x & 0xff00u16) | y as u16 == (x / 256 * 256 + y) as u16) by (bit_vector);
}

/// A byte's top bit is set exactly when the byte is at least $80.
pub proof fn lemma_top_bit(x: u8)
    ensures
        (x & 0x80 == 0) == (x < 0x80),
        (x & 0x80 == 0x80) == (x >= 0x80),
{
    assert((x & 0x80 == 0) == (x < 0x80) && (x & 0x80 == 0x80) == (x >= 0x80)) by (bit_vector);
}

} // verus!
