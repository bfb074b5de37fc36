//! Bringing the encoded text to the requested length: cut it, or fill it up with
//! alphabet characters chosen by drawn indices.

use vstd::prelude::*;
use vstd::string::StrSliceExecFns;
use crate::alphabet::{
    alphabet_at, alphabet_char, in_alphabet, lemma_alphabet_at_member, ALPHABET_LEN,
};
use crate::random::draw_below;

verus! {

/// The first `length` characters of `text`, or all of it where it has no more.
pub open spec fn truncated(text: Seq<char>, length: nat) -> Seq<char> {
    if length <= text.len() {
        text.take(length as int)
    } else {
        text
    }
}

/// The alphabet characters that a sequence of drawn indices selects, in the order drawn.
pub open spec fn drawn_chars(draws: Seq<usize>) -> Seq<char> {
    Seq::new(draws.len(), |i: int| alphabet_at(draws[i] as nat))
}

/// What may come out of normalizing `encoded` to `length` characters.
///
/// Text that is long enough is cut, which leaves no choice. Shorter text is kept whole,
/// and every position after it holds some character of the alphabet.
pub open spec fn is_normalized(password: Seq<char>, encoded: Seq<char>, length: nat) -> bool {
    &&& password.len() == length
    &&& if encoded.len() >= length {
        password == encoded.take(length as int)
    } else {
        &&& password.take(encoded.len() as int) == encoded
        &&& forall|i: int| encoded.len() <= i < length ==> in_alphabet(#[trigger] password[i])
    }
}

/// Where the text reaches the length asked for, normalizing leaves no choice: any two
/// outcomes are the same, namely the first `length` characters of the text.
pub proof fn lemma_cut_is_determined(
    first: Seq<char>,
    second: Seq<char>,
    encoded: Seq<char>,
    length: nat,
)
    requires
        encoded.len() >= length,
        is_normalized(first, encoded, length),
        is_normalized(second, encoded, length),
    ensures
        first == second,
        first == truncated(encoded, length),
{
}

/// Where the text is shorter than the length asked for, every outcome of normalizing
/// keeps the text and holds an alphabet character at each position after it.
pub proof fn lemma_padding_from_alphabet(password: Seq<char>, encoded: Seq<char>, length: nat)
    requires
        encoded.len() < length,
        is_normalized(password, encoded, length),
    ensures
        password.len() == length,
        forall|i: int| 0 <= i < encoded.len() ==> password[i] == encoded[i],
        forall|i: int| encoded.len() <= i < length ==> in_alphabet(password[i]),
{
    assert forall|i: int| 0 <= i < encoded.len() implies password[i] == encoded[i] by {
        assert(password.take(encoded.len() as int)[i] == password[i]);
    }
}

/// Text filled up with drawn characters is a normalization of it to the length reached.
pub proof fn lemma_padding_normalizes(encoded: Seq<char>, draws: Seq<usize>)
    requires
        draws.len() > 0,
    ensures
        is_normalized(encoded + drawn_chars(draws), encoded, encoded.len() + draws.len()),
{
    let password = encoded + drawn_chars(draws);
    assert(password.take(encoded.len() as int) =~= encoded);
    assert forall|i: int| encoded.len() <= i < password.len() implies in_alphabet(
        #[trigger] password[i],
    ) by {
        lemma_alphabet_at_member(draws[i - encoded.len()] as nat);
    }
}

/// Keeps the first `length` characters of `text` and drops the rest.
pub fn truncate(text: &str, length: usize) -> (head: String)
    ensures
        head@ == truncated(text@, length as nat),
{
    let count = text.unicode_len();
    let end = if length < count { length } else { count };
    assert(text@.subrange(0, count as int) =~= text@);
    text.substring_char(0, end).to_owned()
}

/// Appends to `text` the alphabet character that each of `draws` selects.
pub fn pad(text: String, draws: &[usize]) -> (padded: String)
    ensures
        padded@ == text@ + drawn_chars(draws@),
{
    let ghost start = text@;
    let mut padded = text;
    for i in 0..draws.len()
        invariant
            padded@ == start + drawn_chars(draws@.take(i as int)),
    {
        let c = alphabet_char(draws[i]);
        assert(drawn_chars(draws@.take(i + 1)) =~= drawn_chars(draws@.take(i as int)).push(c));
        assert((start + drawn_chars(draws@.take(i as int))).push(c) =~= start + drawn_chars(
            draws@.take(i as int),
        ).push(c));
        padded.push(c);
    }
    assert(draws@.take(draws@.len() as int) =~= draws@);
    padded
}

/// Draws `count` indices into the alphabet from the generator of the current thread.
fn draw_indices(count: usize) -> (draws: Vec<usize>)
    ensures
        draws@.len() == count,
        forall|i: int| 0 <= i < count ==> draws@[i] < ALPHABET_LEN,
{
    let mut rng = rand::thread_rng();
    let mut draws: Vec<usize> = Vec::new();
    while draws.len() < count
        invariant
            draws@.len() <= count,
            forall|i: int| 0 <= i < draws@.len() ==> draws@[i] < ALPHABET_LEN,
        decreases count - draws@.len(),
    {
        let index = draw_below(&mut rng, ALPHABET_LEN);
        draws.push(index);
    }
    draws
}

/// Brings `encoded` to exactly `length` characters.
///
/// Text of at least `length` characters is cut to its first `length`. Shorter text is
/// filled up with alphabet characters at freshly drawn indices, so two calls on the
/// same short text may differ in the characters that were added.
pub fn normalize(encoded: String, length: usize) -> (password: String)
    ensures
        is_normalized(password@, encoded@, length as nat),
{
    let count = encoded.as_str().unicode_len();
    if count >= length {
        truncate(encoded.as_str(), length)
    } else {
        let draws = draw_indices(length - count);
        proof {
            lemma_padding_normalizes(encoded@, draws@);
        }
        pad(encoded, draws.as_slice())
    }
}

} // verus!
