//! Joining the mapped characters with the seed and rendering the bytes as base64 text.

use base64::prelude::{Engine, BASE64_STANDARD};
use vstd::prelude::*;
use vstd::string::StringExecFns;
use vstd::utf8::encode_utf8;
use crate::alphabet::is_ascii_alphanumeric;

verus! {

/// The text that the standard padded base64 engine produces for `input`.
pub uninterp spec fn base64_standard(input: Seq<u8>) -> Seq<char>;

/// Length of the padded base64 text of `n` bytes: four symbols for every started group
/// of three bytes.
pub open spec fn base64_len(n: nat) -> nat {
    4 * ((n + 2) / 3)
}

/// Whether `c` is one of the 64 symbols of the standard base64 alphabet, or the padding
/// sign.
pub open spec fn is_base64_symbol(c: char) -> bool {
    ||| is_ascii_alphanumeric(c)
    ||| c == '+'
    ||| c == '/'
    ||| c == '='
}

/// Whether every character of `text` is a base64 symbol.
pub open spec fn is_base64_text(text: Seq<char>) -> bool {
    forall|i: int| 0 <= i < text.len() ==> is_base64_symbol(#[trigger] text[i])
}

/// The bytes that are encoded for a seed whose digest mapped to `mapped`:
/// the UTF-8 form of the mapped characters followed by the seed.
pub open spec fn combined_bytes(mapped: Seq<char>, seed: Seq<char>) -> Seq<u8> {
    encode_utf8(mapped + seed)
}

/// Calls `Engine::encode` of the `base64` crate on its `STANDARD` engine.
///
/// Taken on trust: the text returned is a function of the input bytes alone, it has
/// `base64_len` symbols for that many bytes, and each symbol comes from the standard
/// alphabet or is the padding sign. The engine panics when that length cannot be
/// allocated, so such inputs are excluded.
#[verifier::external_body]
fn base64_encode(input: &[u8]) -> (text: String)
    requires
        base64_len(input@.len()) <= isize::MAX,
    ensures
        text@ == base64_standard(input@),
        text@.len() == base64_len(input@.len()),
        is_base64_text(text@),
{
    BASE64_STANDARD.encode(input)
}

/// Whether the base64 text of `len` bytes is short enough to be allocated.
pub fn can_encode(len: usize) -> (fits: bool)
    ensures
        fits == (base64_len(len as nat) <= isize::MAX),
{
    let groups = if len % 3 == 0 { len / 3 } else { len / 3 + 1 };
    assert(groups == (len + 2) / 3);
    groups <= (isize::MAX as usize) / 4
}

/// Appends the seed to the mapped characters and encodes the bytes of the result as
/// padded standard base64.
pub fn build_password(mapped: String, seed: &str) -> (encoded: String)
    requires
        base64_len(combined_bytes(mapped@, seed@).len()) <= isize::MAX,
    ensures
        encoded@ == base64_standard(combined_bytes(mapped@, seed@)),
        encoded@.len() == base64_len(combined_bytes(mapped@, seed@).len()),
        is_base64_text(encoded@),
{
    let mut combined = mapped;
    combined.append(seed);
    base64_encode(combined.as_str().as_bytes())
}

} // verus!
