//! The random generator of the current thread, and what is drawn from it.

use rand::distributions::Alphanumeric;
use rand::rngs::ThreadRng;
use rand::Rng;
use vstd::prelude::*;
use crate::alphabet::{is_ascii_alphanumeric, ALPHABET_LEN};

verus! {

/// The handle of the `rand` crate to the generator of the current thread.
#[verifier::external_type_specification]
#[verifier::external_body]
pub struct ExThreadRng(ThreadRng);

/// `rand::thread_rng` hands out the generator of the current thread. Nothing is
/// claimed of it.
pub assume_specification[ rand::thread_rng ]() -> (rng: ThreadRng);

/// Calls `Rng::gen_range` of the `rand` crate on the half-open range from 0 to `bound`.
///
/// Taken on trust: the value drawn lies in that range. Which value comes is left
/// open. The call panics on an empty range, so `bound` is positive.
#[verifier::external_body]
pub(crate) fn draw_below(rng: &mut ThreadRng, bound: usize) -> (index: usize)
    requires
        bound > 0,
    ensures
        index < bound,
{
    rng.gen_range(0..bound)
}

/// Calls `Rng::sample` of the `rand` crate with its `Alphanumeric` distribution.
///
/// Taken on trust: the byte drawn is the ASCII code of a letter or a digit. Which one
/// comes is left open.
#[verifier::external_body]
pub(crate) fn sample_alphanumeric(rng: &mut ThreadRng) -> (byte: u8)
    ensures
        is_ascii_alphanumeric(byte as char),
{
    rng.sample(Alphanumeric)
}

/// Makes a fresh candidate for an alphabet: `ALPHABET_LEN` letters and digits, each
/// drawn at random. The derivation does not use it; its alphabet is fixed.
pub fn generator_crypto() -> (candidate: String)
    ensures
        candidate@.len() == ALPHABET_LEN,
        forall|i: int|
            0 <= i < candidate@.len() ==> is_ascii_alphanumeric(#[trigger] candidate@[i]),
{
    let mut rng = rand::thread_rng();
    let mut candidate = String::new();
    for count in 0..ALPHABET_LEN
        invariant
            candidate@.len() == count,
            forall|i: int|
                0 <= i < candidate@.len() ==> is_ascii_alphanumeric(#[trigger] candidate@[i]),
    {
        let byte = sample_alphanumeric(&mut rng);
        candidate.push(byte as char);
    }
    candidate
}

} // verus!
