//! The fixed alphabet of 128 characters that digests and padding draws index.

use vstd::prelude::*;
use vstd::string::StrSliceExecFns;

verus! {

/// The characters of the alphabet, in order. Some characters occur more than once.
pub const CRYPTO: &'static str =
    "7JMatMkJ4TitbPJcQIm5ncz3oRS1ybCmvCKBrqxyxO6VopxSOCZOLJXjiMRClhzNAYKZqPGlv6Hbt7C1hBjkofSFEV2GQsHkuNFkazZAzelx0Xvhubv0WcCnHMOuSZFn";

/// Number of entries of the alphabet.
pub const ALPHABET_LEN: usize = 128;

/// The alphabet as a sequence of characters.
pub open spec fn alphabet() -> Seq<char> {
    CRYPTO@
}

/// The entry that `index` selects: indices wrap around at the end of the alphabet.
pub open spec fn alphabet_at(index: nat) -> char {
    alphabet()[(index % (ALPHABET_LEN as nat)) as int]
}

/// Whether `c` occurs in the alphabet.
pub open spec fn in_alphabet(c: char) -> bool {
    alphabet().contains(c)
}

/// Whether `c` is an ASCII letter or digit.
pub open spec fn is_ascii_alphanumeric(c: char) -> bool {
    ||| 'A' <= c <= 'Z'
    ||| 'a' <= c <= 'z'
    ||| '0' <= c <= '9'
}

/// The alphabet has exactly `ALPHABET_LEN` entries, and each of them is an ASCII letter
/// or digit.
pub proof fn lemma_alphabet_entries()
    ensures
        alphabet().len() == ALPHABET_LEN,
        forall|c: char| in_alphabet(c) ==> is_ascii_alphanumeric(c),
{
    reveal_strlit(
        "7JMatMkJ4TitbPJcQIm5ncz3oRS1ybCmvCKBrqxyxO6VopxSOCZOLJXjiMRClhzNAYKZqPGlv6Hbt7C1hBjkofSFEV2GQsHkuNFkazZAzelx0Xvhubv0WcCnHMOuSZFn",
    );
    assert forall|c: char| in_alphabet(c) implies is_ascii_alphanumeric(c) by {
        let i = choose|i: int| 0 <= i < alphabet().len() && alphabet()[i] == c;
        assert(is_ascii_alphanumeric(alphabet()[i]));
    }
}

/// Whatever the index, the entry it selects is in the alphabet.
pub proof fn lemma_alphabet_at_member(index: nat)
    ensures
        in_alphabet(alphabet_at(index)),
{
    lemma_alphabet_entries();
    assert(alphabet()[(index % (ALPHABET_LEN as nat)) as int] == alphabet_at(index));
}

/// Looks up the entry that `index` selects. The index is reduced modulo the length of
/// the alphabet, so every index has an entry.
pub fn alphabet_char(index: usize) -> (c: char)
    ensures
        c == alphabet_at(index as nat),
        in_alphabet(c),
{
    proof {
        lemma_alphabet_entries();
        lemma_alphabet_at_member(index as nat);
    }
    CRYPTO.get_char(index % ALPHABET_LEN)
}

} // verus!
