//! The digest of a seed: each character's code point weighted by its 1-based position.

use vstd::prelude::*;
use crate::strings::lemma_utf8_len_bounds;

verus! {

/// The numeric value of a character: its Unicode scalar value.
pub open spec fn code_point(c: char) -> nat {
    (c as u32) as nat
}

/// Sum over the characters of `seed` of position times code point, positions counted from 1.
pub open spec fn seed_digest(seed: Seq<char>) -> nat
    decreases seed.len(),
{
    if seed.len() == 0 {
        0
    } else {
        seed_digest(seed.drop_last()) + seed.len() * code_point(seed.last())
    }
}

/// Taking one character more into a prefix adds that character's position times its
/// code point to the prefix's digest.
pub proof fn lemma_digest_step(seed: Seq<char>, n: int)
    requires
        0 < n <= seed.len(),
    ensures
        seed_digest(seed.take(n)) == seed_digest(seed.take(n - 1)) + n * code_point(seed[n - 1]),
{
    assert(seed.take(n).drop_last() =~= seed.take(n - 1));
}

/// The digest of a prefix never exceeds the digest of the whole.
pub proof fn lemma_digest_prefix(seed: Seq<char>, n: int)
    requires
        0 <= n <= seed.len(),
    ensures
        seed_digest(seed.take(n)) <= seed_digest(seed),
    decreases seed.len() - n,
{
    if n == seed.len() {
        assert(seed.take(n) =~= seed);
    } else {
        lemma_digest_prefix(seed, n + 1);
        lemma_digest_step(seed, n + 1);
    }
}

/// The digest depends on nothing but the characters and their order: seeds that agree
/// position by position have the same digest.
pub proof fn lemma_digest_deterministic(first: Seq<char>, second: Seq<char>)
    requires
        first.len() == second.len(),
        forall|i: int| 0 <= i < first.len() ==> first[i] == second[i],
    ensures
        seed_digest(first) == seed_digest(second),
{
    assert(first =~= second);
}

/// Shows that every position in a string slice fits a machine word: the slice has no
/// more characters than bytes, and its bytes are counted by such a word.
#[allow(unused_variables)]
fn positions_fit(seed: &str)
    ensures
        seed@.len() <= usize::MAX,
{
    let bytes = seed.as_bytes();
    proof {
        lemma_utf8_len_bounds(seed@);
        assert(bytes@.len() == bytes.len());
    }
}

/// Computes the digest of `seed`: the sum, over its characters, of the character's
/// position times its code point, the first position being 1.
///
/// The digest must fit a machine word. `checked_seed_hash` takes every seed.
pub fn seed_hash(seed: &str) -> (hash: usize)
    requires
        seed_digest(seed@) <= usize::MAX,
    ensures
        hash == seed_digest(seed@),
{
    positions_fit(seed);
    let mut hash: usize = 0;
    let mut position: usize = 0;
    for c in it: seed.chars()
        invariant
            it.seq() == seed@,
            seed@.len() <= usize::MAX,
            position == it.index(),
            hash == seed_digest(seed@.take(it.index() as int)),
            seed_digest(seed@) <= usize::MAX,
    {
        position += 1;
        let code = c as u32 as usize;
        proof {
            lemma_digest_step(seed@, position as int);
            lemma_digest_prefix(seed@, position as int);
        }
        hash += position * code;
    }
    assert(seed@.take(seed@.len() as int) =~= seed@);
    hash
}

/// Computes the digest of `seed` where it fits a machine word, and returns `None` where
/// it does not.
pub fn checked_seed_hash(seed: &str) -> (hash: Option<usize>)
    ensures
        match hash {
            Some(h) => h == seed_digest(seed@),
            None => seed_digest(seed@) > usize::MAX,
        },
{
    positions_fit(seed);
    let mut hash: usize = 0;
    let mut position: usize = 0;
    for c in it: seed.chars()
        invariant
            it.seq() == seed@,
            seed@.len() <= usize::MAX,
            position == it.index(),
            hash == seed_digest(seed@.take(it.index() as int)),
    {
        position += 1;
        let code = c as u32 as usize;
        proof {
            lemma_digest_step(seed@, position as int);
            lemma_digest_prefix(seed@, position as int);
        }
        let term = match position.checked_mul(code) {
            Some(term) => term,
            None => { return None; },
        };
        hash = match hash.checked_add(term) {
            Some(sum) => sum,
            None => { return None; },
        };
    }
    assert(seed@.take(seed@.len() as int) =~= seed@);
    Some(hash)
}

} // verus!
