//! The memory image of word and half-word data.
//!
//! Buffers are handed to a device as bytes in the byte order of the machine.
//! The order is fixed for a build but not known here, so an image is described
//! as one of the two possible layouts.

use vstd::prelude::*;

verus! {

/// Byte `k` of a 32-bit word, counted from the least significant one.
pub open spec fn word_byte(w: u32, k: int) -> u8 {
    if k == 0 {
        (w as int % 256) as u8
    } else if k == 1 {
        (w as int / 0x100 % 256) as u8
    } else if k == 2 {
        (w as int / 0x1_0000 % 256) as u8
    } else {
        (w as int / 0x100_0000 % 256) as u8
    }
}

/// Byte `k` of a 16-bit half word, counted from the least significant one.
pub open spec fn half_byte(h: u16, k: int) -> u8 {
    if k == 0 {
        (h as int % 256) as u8
    } else {
        (h as int / 0x100 % 256) as u8
    }
}

/// The words laid out one after the other, least significant byte first.
pub open spec fn words_le(words: Seq<u32>) -> Seq<u8> {
    Seq::new(4 * words.len(), |i: int| word_byte(words[i / 4], i % 4))
}

/// The words laid out one after the other, most significant byte first.
pub open spec fn words_be(words: Seq<u32>) -> Seq<u8> {
    Seq::new(4 * words.len(), |i: int| word_byte(words[i / 4], 3 - i % 4))
}

/// The half words laid out one after the other, low byte first.
pub open spec fn halves_le(halves: Seq<u16>) -> Seq<u8> {
    Seq::new(2 * halves.len(), |i: int| half_byte(halves[i / 2], i % 2))
}

/// The half words laid out one after the other, high byte first.
pub open spec fn halves_be(halves: Seq<u16>) -> Seq<u8> {
    Seq::new(2 * halves.len(), |i: int| half_byte(halves[i / 2], 1 - i % 2))
}

/// `bytes` is what a slice holding `words` looks like in memory.
pub open spec fn is_word_image(bytes: Seq<u8>, words: Seq<u32>) -> bool {
    bytes == words_le(words) || bytes == words_be(words)
}

/// `bytes` is what a slice holding `halves` looks like in memory.
pub open spec fn is_half_image(bytes: Seq<u8>, halves: Seq<u16>) -> bool {
    bytes == halves_le(halves) || bytes == halves_be(halves)
}

/// Copies the memory of a slice of 32-bit words into a byte vector.
///
/// Trusted: the body is `bytemuck::cast_slice` from `u32` to `u8`, which
/// reinterprets the same memory and never fails for this pair of types. The
/// contract claims that the bytes are the words in order, each in one and the
/// same byte order, little or big endian.
#[verifier::external_body]
pub(crate) fn words_to_bytes(words: &[u32]) -> (bytes: Vec<u8>)
    ensures
        is_word_image(bytes@, words@),
{
    bytemuck::cast_slice::<u32, u8>(words).to_vec()
}

/// Copies the memory of a slice of 16-bit half words into a byte vector.
///
/// Trusted: the body is `bytemuck::cast_slice` from `u16` to `u8`, which
/// reinterprets the same memory and never fails for this pair of types. The
/// contract claims that the bytes are the half words in order, each in one
/// and the same byte order, little or big endian.
#[verifier::external_body]
pub(crate) fn halves_to_bytes(halves: &[u16]) -> (bytes: Vec<u8>)
    ensures
        is_half_image(bytes@, halves@),
{
    bytemuck::cast_slice::<u16, u8>(halves).to_vec()
}

} // verus!
