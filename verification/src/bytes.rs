//! Words as the bytes that go into a device buffer.
//!
//! A buffer takes the words as they lie in memory. Which byte of a word
//! comes first there is the machine's choice, but it is one of two: the
//! lowest or the highest.

use vstd::prelude::*;
use vstd::slice::slice_to_vec;

verus! {

/// The four bytes of `word`, the lowest first.
pub open spec fn low_first(word: u32) -> Seq<u8> {
    seq![
        (word % 256) as u8,
        (word / 256 % 256) as u8,
        (word / 65536 % 256) as u8,
        (word / 16777216) as u8,
    ]
}

/// The four bytes of `word`, the highest first.
pub open spec fn high_first(word: u32) -> Seq<u8> {
    seq![
        (word / 16777216) as u8,
        (word / 65536 % 256) as u8,
        (word / 256 % 256) as u8,
        (word % 256) as u8,
    ]
}

/// The bytes of `words` in order, each word lowest byte first.
pub open spec fn words_low_first(words: Seq<u32>) -> Seq<u8> {
    Seq::new(4 * words.len(), |i: int| low_first(words[i / 4])[i % 4])
}

/// The bytes of `words` in order, each word highest byte first.
pub open spec fn words_high_first(words: Seq<u32>) -> Seq<u8> {
    Seq::new(4 * words.len(), |i: int| high_first(words[i / 4])[i % 4])
}

/// `bytemuck::cast_slice` from `u32` to `u8`: the same memory seen as
/// bytes. The cast cannot fail in this direction, since a byte has no
/// alignment and divides every size. The contract claims that the result
/// holds the words in order, four bytes each, and that all of them lie
/// lowest byte first or all of them highest byte first, which are the two
/// ways a machine keeps a `u32`. It does not say which of the two.
#[verifier::external_body]
fn cast_words(words: &[u32]) -> (bytes: &[u8])
    ensures
        bytes@ == words_low_first(words@) || bytes@ == words_high_first(words@),
{
    bytemuck::cast_slice(words)
}

/// The bytes of `words` as they lie in memory: the words in order, four
/// bytes each, in the machine's byte order.
pub fn words_to_bytes(words: &[u32]) -> (bytes: Vec<u8>)
    ensures
        bytes@.len() == 4 * words@.len(),
        bytes@ == words_low_first(words@) || bytes@ == words_high_first(words@),
{
    slice_to_vec(cast_words(words))
}

} // verus!
