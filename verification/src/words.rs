//! The word encoding of a 32-bit value: two 16-bit registers, high word first.

use vstd::prelude::*;

verus! {

/// The upper sixteen bits of `bits`, as the register that is sent first.
pub open spec fn high_word(bits: u32) -> u16 {
    (bits / 0x1_0000) as u16
}

/// The lower sixteen bits of `bits`, as the register that is sent second.
pub open spec fn low_word(bits: u32) -> u16 {
    (bits % 0x1_0000) as u16
}

/// The 32-bit value whose upper half is `high` and whose lower half is `low`.
pub open spec fn join_words(high: u16, low: u16) -> u32 {
    (high * 0x1_0000 + low) as u32
}

/// The words of a value are the two halves of its bit pattern: the pattern
/// shifted right by sixteen, and the pattern masked to sixteen bits.
pub proof fn lemma_words_are_halves(bits: u32)
    ensures
        high_word(bits) == bits >> 16,
        low_word(bits) == bits & 0xFFFF,
{
    assert(bits >> 16 == bits / 0x1_0000) by (bit_vector);
    assert(bits & 0xFFFF == bits % 0x1_0000) by (bit_vector);
}

/// Joining two words puts the high word into the upper sixteen bits and the
/// low word into the lower sixteen.
pub proof fn lemma_join_is_shift_and_or(high: u16, low: u16)
    ensures
        join_words(high, low) == (high as u32) << 16 | (low as u32),
{
    assert((high as u32) << 16 | (low as u32) == (high as u32) * 0x1_0000 + (low as u32))
        by (bit_vector);
}

/// Splits a bit pattern into the two registers that carry it, high word first.
pub fn encode_value(bits: u32) -> (words: Vec<u16>)
    ensures
        words@ == seq![high_word(bits), low_word(bits)],
{
    proof {
        lemma_words_are_halves(bits);
    }
    let high = (bits >> 16) as u16;
    let low = (bits & 0xFFFF) as u16;
    let mut words: Vec<u16> = Vec::new();
    words.push(high);
    words.push(low);
    words
}

/// Rebuilds the bit pattern carried by two consecutive registers.
pub fn decode_value(high: u16, low: u16) -> (bits: u32)
    ensures
        bits == join_words(high, low),
{
    proof {
        lemma_join_is_shift_and_or(high, low);
    }
    ((high as u32) << 16) | (low as u32)
}

/// Decoding the two words of an encoded value gives the value back, bit for
/// bit.
pub proof fn lemma_decode_of_encode(bits: u32)
    ensures
        join_words(high_word(bits), low_word(bits)) == bits,
{
}

/// Encoding the value decoded from two words gives the same two words.
pub proof fn lemma_encode_of_decode(high: u16, low: u16)
    ensures
        high_word(join_words(high, low)) == high,
        low_word(join_words(high, low)) == low,
{
}

} // verus!
