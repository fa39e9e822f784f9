use vstd::prelude::*;

use crate::base::Alphabet;

verus! {

/// Every way in which building or cutting a sequence can be refused.
#[allow(inconsistent_fields)]
#[derive(Debug, Clone, PartialEq, Eq)]
pub enum SeqError {
    /// Whole-sequence validation found symbols outside the alphabet; `invalid`
    /// holds each offending symbol once, upper-cased, in ascending order.
    InvalidCharacters { alphabet: Alphabet, invalid: String },
    /// A single character is not a symbol of the alphabet.
    InvalidCharacter { alphabet: Alphabet, invalid: char },
    /// A single raw byte is not a symbol of the alphabet.
    InvalidByte { alphabet: Alphabet, invalid: u8 },
    /// The half-open range `[start, end)` does not lie within a sequence of length `len`.
    InvalidSlice { start: usize, end: usize, len: usize },
}

} // verus!
