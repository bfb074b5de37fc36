//! What the pipeline relies on when it builds text: the contract of `String::push`, and
//! how the length of a text relates to the length of its UTF-8 form.

use vstd::prelude::*;
use vstd::utf8::{encode_scalar, encode_utf8};

verus! {

/// `String::push` appends the character to the end of the string and changes nothing else.
pub assume_specification[ String::push ](s: &mut String, ch: char)
    ensures
        final(s)@ == old(s)@.push(ch),
;

/// The UTF-8 form of a text has at least one byte and at most four bytes for each
/// character.
pub proof fn lemma_utf8_len_bounds(text: Seq<char>)
    ensures
        text.len() <= encode_utf8(text).len() <= 4 * text.len(),
    decreases text.len(),
{
    if text.len() > 0 {
        lemma_utf8_len_bounds(text.drop_first());
        assert(1 <= encode_scalar(text[0] as u32).len() <= 4);
    }
}

} // verus!
