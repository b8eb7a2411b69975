//! A bound on the length of a text, known without reading it.

use vstd::prelude::*;
use vstd::utf8::{encode_scalar, encode_utf8};

verus! {

/// A text takes at least one byte for each of its characters.
pub proof fn lemma_chars_within_bytes(chars: Seq<char>)
    ensures
        chars.len() <= encode_utf8(chars).len(),
    decreases chars.len(),
{
    if chars.len() > 0 {
        assert(encode_scalar(chars[0] as u32).len() >= 1);
        lemma_chars_within_bytes(chars.drop_first());
    }
}

/// A number that the count of characters of `text` does not exceed: its length in bytes.
pub fn char_count_bound(text: &str) -> (bound: usize)
    ensures
        text@.len() <= bound,
{
    let bytes = text.as_bytes();
    proof {
        lemma_chars_within_bytes(text@);
    }
    bytes.len()
}

} // verus!
