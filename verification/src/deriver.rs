//! The derivation as a whole: validate, hash, map, encode, normalize.

use vstd::prelude::*;
use vstd::string::StrSliceExecFns;
use vstd::utf8::is_ascii_chars;
use crate::alphabet::{in_alphabet, lemma_alphabet_entries};
use crate::encoder::{
    base64_len, base64_standard, build_password, is_base64_symbol, is_base64_text,
};
use crate::hasher::seed_hash;
use crate::limits::{fits_limits, seed_bytes, within_limits};
use crate::mapper::map_digest;
use crate::normalizer::{is_normalized, normalize};

verus! {

/// Fewest characters that a seed may have.
pub const MIN_SEED_LEN: usize = 4;

/// Fewest characters that may be asked for.
pub const MIN_PASSWORD_LEN: usize = 6;

/// Why a derivation was refused.
#[derive(Debug, Clone, Copy, PartialEq, Eq, Structural)]
pub enum PasswordError {
    /// The seed has fewer than `MIN_SEED_LEN` characters.
    SeedTooShort,
    /// Fewer than `MIN_PASSWORD_LEN` characters were asked for.
    LengthTooShort,
}

impl PasswordError {
    /// The text that `message` returns for this error.
    pub open spec fn message_text(self) -> Seq<char> {
        match self {
            PasswordError::SeedTooShort => "seed length is too short! please try again!"@,
            PasswordError::LengthTooShort => "password length is too short! please try again!"@,
        }
    }

    /// A sentence for the user that says what was wrong.
    pub fn message(&self) -> (text: &'static str)
        ensures
            text@ == self.message_text(),
    {
        match self {
            PasswordError::SeedTooShort => "seed length is too short! please try again!",
            PasswordError::LengthTooShort => "password length is too short! please try again!",
        }
    }
}

/// The base64 text that a seed is turned into before its length is adjusted.
pub open spec fn encoded_seed(seed: Seq<char>) -> Seq<char> {
    base64_standard(seed_bytes(seed))
}

/// Whether every character of `text` is a base64 symbol or a character of the alphabet.
pub open spec fn is_password_text(text: Seq<char>) -> bool {
    forall|i: int|
        0 <= i < text.len() ==> is_base64_symbol(#[trigger] text[i]) || in_alphabet(text[i])
}

/// A normalization of base64 text holds nothing but base64 symbols and alphabet
/// characters.
pub proof fn lemma_normalized_text(password: Seq<char>, encoded: Seq<char>, length: nat)
    requires
        is_base64_text(encoded),
        is_normalized(password, encoded, length),
    ensures
        is_password_text(password),
{
    assert forall|i: int| 0 <= i < password.len() implies is_base64_symbol(#[trigger] password[i])
        || in_alphabet(password[i]) by {
        if i < encoded.len() {
            if encoded.len() < length {
                assert(password.take(encoded.len() as int)[i] == password[i]);
            }
            assert(password[i] == encoded[i]);
        }
    }
}

/// Password text is ASCII, so it has as many bytes as characters.
pub proof fn lemma_password_text_ascii(text: Seq<char>)
    requires
        is_password_text(text),
    ensures
        is_ascii_chars(text),
{
    lemma_alphabet_entries();
}

/// Whether `seed` and `length` pass validation.
pub open spec fn is_valid_request(seed: Seq<char>, length: nat) -> bool {
    seed.len() >= MIN_SEED_LEN && length >= MIN_PASSWORD_LEN
}

/// Whether `result` is an outcome of deriving a password of `length` characters from
/// `seed`.
///
/// Each error comes on exactly the inputs it names, the seed being looked at first. A
/// password comes on all other inputs. It has `length` characters and is a normalization
/// of the seed's base64 text, whose own length is that of the bytes encoded: so a
/// password that was cut is fixed by the seed and the length, and one that was filled up
/// is fixed up to the alphabet characters added.
pub open spec fn is_derivation(
    seed: Seq<char>,
    length: nat,
    result: Result<String, PasswordError>,
) -> bool {
    match result {
        Err(PasswordError::SeedTooShort) => seed.len() < MIN_SEED_LEN,
        Err(PasswordError::LengthTooShort) => {
            &&& seed.len() >= MIN_SEED_LEN
            &&& length < MIN_PASSWORD_LEN
        },
        Ok(password) => {
            &&& is_valid_request(seed, length)
            &&& password@.len() == length
            &&& is_normalized(password@, encoded_seed(seed), length)
            &&& is_password_text(password@)
            &&& encoded_seed(seed).len() == base64_len(seed_bytes(seed).len())
        },
    }
}

/// Derives a password of `length` characters from `seed`.
///
/// A seed of fewer than `MIN_SEED_LEN` characters is refused, and then a length under
/// `MIN_PASSWORD_LEN`. Otherwise the seed's digest is mapped to alphabet characters,
/// the seed is appended, the bytes are encoded as base64, and the text is cut or filled
/// up to `length` characters. Where the text is cut, the result depends on the seed and
/// the length alone. Where it is filled up, the added characters are drawn at random
/// from the alphabet, so two calls may differ in them.
///
/// A seed that passes validation must be within the limits of the machine.
/// `lemma_short_seed_within_limits` shows that of seeds of moderate length, and
/// `checked_generator_password` takes every seed.
pub fn generator_password(seed: &str, length: usize) -> (result: Result<String, PasswordError>)
    requires
        is_valid_request(seed@, length as nat) ==> within_limits(seed@),
    ensures
        is_derivation(seed@, length as nat, result),
{
    if seed.unicode_len() < MIN_SEED_LEN {
        return Err(PasswordError::SeedTooShort);
    }
    if length < MIN_PASSWORD_LEN {
        return Err(PasswordError::LengthTooShort);
    }
    let hash = seed_hash(seed);
    let mapped = map_digest(hash);
    let encoded = build_password(mapped, seed);
    let password = normalize(encoded, length);
    proof {
        lemma_normalized_text(password@, encoded_seed(seed@), length as nat);
    }
    Ok(password)
}

/// Derives a password as `generator_password` does wherever the seed is within the
/// limits of the machine, and returns `None` where a seed that passes validation is not.
pub fn checked_generator_password(
    seed: &str,
    length: usize,
) -> (outcome: Option<Result<String, PasswordError>>)
    ensures
        outcome is None <==> is_valid_request(seed@, length as nat) && !within_limits(seed@),
        outcome matches Some(result) ==> is_derivation(seed@, length as nat, result),
{
    let valid = seed.unicode_len() >= MIN_SEED_LEN && length >= MIN_PASSWORD_LEN;
    if valid && !fits_limits(seed) {
        None
    } else {
        Some(generator_password(seed, length))
    }
}

} // verus!
