//! The canvas: the fixed-resolution target that everything is drawn to
//! before it is upscaled. Its size is chosen once and told to the shaders
//! in a uniform buffer.

use crate::bytes::{words_high_first, words_low_first, words_to_bytes};
use crate::Size;
use vstd::prelude::*;

verus! {

/// Size in bytes of the uniform that holds the canvas dimensions. Two
/// words would do, but a uniform binding is at least sixteen bytes.
pub const DIMENSIONS_UNIFORM_SIZE: usize = 16;

/// The words of the dimensions uniform: width, height, and two words of
/// filling.
pub open spec fn uniform_words(size: Size) -> Seq<u32> {
    seq![size.width, size.height, 0u32, 0u32]
}

/// The words of the dimensions uniform for a canvas of the given size.
pub fn dimension_words(size: &Size) -> (words: [u32; 4])
    ensures
        words@ == uniform_words(*size),
{
    let words: [u32; 4] = [size.width, size.height, 0, 0];
    assert(words@ =~= uniform_words(*size));
    words
}

/// The contents of the dimensions uniform for a canvas of the given
/// size: the words of [`dimension_words`] as they lie in memory, which is
/// width, height and filling, each in the machine's byte order.
pub fn dimension_uniform(size: &Size) -> (bytes: Vec<u8>)
    ensures
        bytes@.len() == DIMENSIONS_UNIFORM_SIZE,
        bytes@ == words_low_first(uniform_words(*size)) || bytes@ == words_high_first(
            uniform_words(*size),
        ),
{
    let words: [u32; 4] = dimension_words(size);
    words_to_bytes(words.as_slice())
}

} // verus!

