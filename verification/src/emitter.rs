//! The binary emitter: a program image as a flat run of big-endian bytes.

use vstd::prelude::*;

verus! {

/// The byte at place `k` of the big-endian layout of `words`: the upper
/// half of word `k / 2` at an even place, its lower half at an odd one.
pub open spec fn byte_at(words: Seq<u16>, k: int) -> u8 {
    if k % 2 == 0 {
        (words[k / 2] / 256) as u8
    } else {
        (words[k / 2] % 256) as u8
    }
}

/// The big-endian layout of `words`: two bytes for each word, the upper
/// half first, in the order of the words, and nothing else.
pub open spec fn big_endian_bytes(words: Seq<u16>) -> Seq<u8> {
    Seq::new(2 * words.len(), |k: int| byte_at(words, k))
}

/// The word that two bytes hold, the upper half first.
pub open spec fn word_of(upper: u8, lower: u8) -> u16 {
    (256 * upper + lower) as u16
}

/// The words that a big-endian layout holds, one for each two bytes.
pub open spec fn big_endian_words(bytes: Seq<u8>) -> Seq<u16> {
    Seq::new(bytes.len() / 2, |a: int| word_of(bytes[2 * a], bytes[2 * a + 1]))
}

/// Lays a program image out as bytes.
pub fn emit_image(image: &[u16; 32]) -> (bytes: [u8; 64])
    ensures
        bytes@ == big_endian_bytes(image@),
{
    let mut bytes: [u8; 64] = [0; 64];
    let mut a: usize = 0;
    while a < 32
        invariant
            a <= 32,
            forall|k: int| 0 <= k < 2 * a ==> #[trigger] bytes@[k] == byte_at(image@, k),
        decreases 32 - a,
    {
        let word: u16 = image[a];
        bytes[2 * a] = (word / 256) as u8;
        bytes[2 * a + 1] = (word % 256) as u8;
        a += 1;
    }
    assert(bytes@ =~= big_endian_bytes(image@));
    bytes
}

/// Reads a program image back from its bytes.
pub fn read_image(bytes: &[u8; 64]) -> (image: [u16; 32])
    ensures
        image@ == big_endian_words(bytes@),
{
    let mut image: [u16; 32] = [0; 32];
    let mut a: usize = 0;
    while a < 32
        invariant
            a <= 32,
            forall|k: int|
                0 <= k < a ==> #[trigger] image@[k] == word_of(bytes@[2 * k], bytes@[2 * k + 1]),
        decreases 32 - a,
    {
        let upper: u16 = bytes[2 * a] as u16;
        let lower: u16 = bytes[2 * a + 1] as u16;
        image[a] = 256 * upper + lower;
        a += 1;
    }
    assert(image@ =~= big_endian_words(bytes@));
    image
}

/// Emitting words and reading the bytes back gives the same words again.
/// This holds of any words, and so of every image that assembly produces.
pub proof fn lemma_emit_round_trip(words: Seq<u16>)
    ensures
        big_endian_bytes(words).len() == 2 * words.len(),
        big_endian_words(big_endian_bytes(words)) == words,
{
    let bytes = big_endian_bytes(words);
    assert forall|a: int| 0 <= a < words.len() implies word_of(bytes[2 * a], bytes[2 * a + 1])
        == words[a] by {
        assert(bytes[2 * a] == byte_at(words, 2 * a));
        assert(bytes[2 * a + 1] == byte_at(words, 2 * a + 1));
    }
    assert(big_endian_words(bytes) =~= words);
}

} // verus!
