//! The seeds that the derivation can handle on the machine at hand.

use vstd::prelude::*;
use vstd::string::StringExecFns;
use vstd::utf8::char_is_scalar;
use crate::alphabet::ALPHABET_LEN;
use crate::encoder::{base64_len, can_encode, combined_bytes};
use crate::hasher::{checked_seed_hash, code_point, seed_digest};
use crate::mapper::{digest_chars, map_digest};
use crate::strings::lemma_utf8_len_bounds;

verus! {

/// The largest code point that a character can have.
pub const MAX_CODE_POINT: u32 = 0x10FFFF;

/// The bytes that are encoded for `seed`: the UTF-8 form of the characters that its
/// digest maps to, followed by the seed itself.
pub open spec fn seed_bytes(seed: Seq<char>) -> Seq<u8> {
    combined_bytes(digest_chars(seed_digest(seed)), seed)
}

/// Whether the derivation can run on `seed` on this machine: the digest fits a machine
/// word, and the base64 text is short enough to be allocated.
pub open spec fn within_limits(seed: Seq<char>) -> bool {
    &&& seed_digest(seed) <= usize::MAX
    &&& base64_len(seed_bytes(seed).len()) <= isize::MAX
}

/// Tells whether `seed` is within the limits of this machine.
pub fn fits_limits(seed: &str) -> (fits: bool)
    ensures
        fits == within_limits(seed@),
{
    match checked_seed_hash(seed) {
        None => false,
        Some(hash) => {
            let mut combined = map_digest(hash);
            combined.append(seed);
            can_encode(combined.as_str().as_bytes().len())
        },
    }
}

/// Twice the digest is at most `n * (n + 1)` times the largest code point, for a seed of
/// `n` characters.
pub proof fn lemma_digest_bound(seed: Seq<char>)
    ensures
        2 * seed_digest(seed) <= seed.len() * (seed.len() + 1) * MAX_CODE_POINT,
    decreases seed.len(),
{
    if seed.len() > 0 {
        let n = seed.len() as int;
        let rest = seed.drop_last();
        lemma_digest_bound(rest);
        char_is_scalar(seed.last());
        let code = code_point(seed.last()) as int;
        let max = MAX_CODE_POINT as int;
        assert(2 * (n * code) <= 2 * n * max) by (nonlinear_arith)
            requires
                0 <= code <= max,
                0 <= n,
        ;
        assert((n - 1) * n * max + 2 * n * max == n * (n + 1) * max) by (nonlinear_arith);
    }
}

/// A digest maps to one character more than the digest without its lowest digit.
proof fn lemma_digest_chars_step(digest: nat)
    ensures
        digest_chars(digest).len() <= 1 + digest_chars(digest / (ALPHABET_LEN as nat)).len(),
{
}

/// A digest of at most 64 bits maps to at most ten characters.
pub proof fn lemma_digest_chars_len(digest: nat)
    requires
        digest <= u64::MAX,
    ensures
        digest_chars(digest).len() <= 10,
{
    let d1 = digest / 128;
    let d2 = d1 / 128;
    let d3 = d2 / 128;
    let d4 = d3 / 128;
    let d5 = d4 / 128;
    let d6 = d5 / 128;
    let d7 = d6 / 128;
    let d8 = d7 / 128;
    let d9 = d8 / 128;
    let d10 = d9 / 128;
    assert(d10 == 0);
    lemma_digest_chars_step(digest);
    lemma_digest_chars_step(d1);
    lemma_digest_chars_step(d2);
    lemma_digest_chars_step(d3);
    lemma_digest_chars_step(d4);
    lemma_digest_chars_step(d5);
    lemma_digest_chars_step(d6);
    lemma_digest_chars_step(d7);
    lemma_digest_chars_step(d8);
    lemma_digest_chars_step(d9);
}

/// A seed of `n` characters is within limits wherever `n * (n + 1)` times the largest
/// code point is at most twice the largest machine word. With words of 32 bits that
/// admits every seed of up to 87 characters, with words of 64 bits every seed of up to
/// five million.
pub proof fn lemma_short_seed_within_limits(seed: Seq<char>)
    requires
        seed.len() * (seed.len() + 1) * MAX_CODE_POINT <= 2 * usize::MAX,
    ensures
        within_limits(seed),
{
    let n = seed.len() as int;
    let max = MAX_CODE_POINT as int;
    let digest = seed_digest(seed);
    lemma_digest_bound(seed);
    lemma_digest_chars_len(digest);
    let text = digest_chars(digest) + seed;
    lemma_utf8_len_bounds(text);
    assert(n * max <= usize::MAX) by {
        assert(2 * (n * max) <= n * (n + 1) * max) by (nonlinear_arith)
            requires
                0 <= n,
                0 <= max,
        ;
    }
    assert(seed_bytes(seed).len() <= 4 * (n + 10));
}

} // verus!
