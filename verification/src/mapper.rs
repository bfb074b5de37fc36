//! Radix conversion of a digest into alphabet characters, least significant digit first.

use vstd::prelude::*;
use crate::alphabet::{alphabet_at, alphabet_char, ALPHABET_LEN};

verus! {

/// The alphabet characters selected by the base-128 digits of `digest`, lowest digit first.
/// A zero digest has no digits and selects nothing.
pub open spec fn digest_chars(digest: nat) -> Seq<char>
    decreases digest,
{
    if digest == 0 {
        Seq::empty()
    } else {
        seq![alphabet_at(digest)] + digest_chars(digest / (ALPHABET_LEN as nat))
    }
}

/// Emits the alphabet character of each base-128 digit of `digest`, lowest digit first.
pub fn map_digest(digest: usize) -> (mapped: String)
    ensures
        mapped@ == digest_chars(digest as nat),
{
    let mut mapped = String::new();
    let mut rest = digest;
    while rest > 0
        invariant
            mapped@ + digest_chars(rest as nat) == digest_chars(digest as nat),
        decreases rest,
    {
        let c = alphabet_char(rest);
        proof {
            let tail = digest_chars((rest / ALPHABET_LEN) as nat);
            assert(digest_chars(rest as nat) == seq![c] + tail);
            assert(mapped@.push(c) + tail =~= mapped@ + (seq![c] + tail));
        }
        mapped.push(c);
        rest = rest / ALPHABET_LEN;
    }
    assert(mapped@ + Seq::<char>::empty() =~= mapped@);
    mapped
}

} // verus!
