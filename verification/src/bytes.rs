//! Words as the bytes that they are in memory, and lengths as words.

use vstd::prelude::*;

verus! {

/// The byte with the number `number` of `word`, the least significant first.
pub open spec fn byte_of(word: u32, number: int) -> u8 {
    if number == 0 {
        (word as int % 256) as u8
    } else if number == 1 {
        (word as int / 0x100 % 256) as u8
    } else if number == 2 {
        (word as int / 0x1_0000 % 256) as u8
    } else {
        (word as int / 0x100_0000) as u8
    }
}

/// The bytes of `words`, four of each, the least significant first.
pub open spec fn little_endian(words: Seq<u32>) -> Seq<u8> {
    Seq::new(4 * words.len(), |i: int| byte_of(words[i / 4], i % 4))
}

/// The bytes of `words`, four of each, the least significant first.
pub fn to_little_endian(words: &Vec<u32>) -> (bytes: Vec<u8>)
    ensures
        bytes@ == little_endian(words@),
{
    let mut bytes: Vec<u8> = Vec::new();
    for i in 0..words.len()
        invariant
            bytes@ == little_endian(words@.take(i as int)),
    {
        let word: u32 = words[i];
        let ghost before = bytes@;
        assert((word as u8) as int == word as int % 256) by (bit_vector);
        assert(((word >> 8) as u8) as int == word as int / 0x100 % 256) by (bit_vector);
        assert(((word >> 16) as u8) as int == word as int / 0x1_0000 % 256) by (bit_vector);
        assert(((word >> 24) as u8) as int == word as int / 0x100_0000) by (bit_vector);
        bytes.push(word as u8);
        bytes.push((word >> 8) as u8);
        bytes.push((word >> 16) as u8);
        bytes.push((word >> 24) as u8);
        assert(bytes@ =~= little_endian(words@.take(i + 1)));
    }
    assert(words@.take(words@.len() as int) == words@);
    bytes
}

/// The low half of a length, which is what fits into a word.
pub open spec fn low_word(length: nat) -> u32 {
    (length as int % 0x1_0000_0000) as u32
}

/// The low half of a length, which is what fits into a word.
pub fn to_low_word(length: usize) -> (word: u32)
    ensures
        word == low_word(length as nat),
{
    ((length as u64) % 0x1_0000_0000) as u32
}

} // verus!
