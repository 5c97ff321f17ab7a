//! Standard base64, by the `base64` crate.

use base64::engine::general_purpose::STANDARD;
use base64::Engine;
use vstd::prelude::*;

verus! {

/// The base64 text of some bytes, as `base64`'s `STANDARD` engine writes it.
pub uninterp spec fn base64_encoded(bytes: Seq<u8>) -> Seq<char>;

/// The bytes of a base64 text, or the words for what is wrong with the text, as
/// `base64`'s `STANDARD` engine reads it.
pub uninterp spec fn base64_decoded(text: Seq<char>) -> Result<Seq<u8>, Seq<char>>;

/// The characters of a padded base64 text.
pub open spec fn base64_char(c: char) -> bool {
    'A' <= c <= 'Z' || 'a' <= c <= 'z' || '0' <= c <= '9' || c == '+' || c == '/' || c == '='
}

/// The length of the padded base64 text of `len` bytes.
pub open spec fn base64_len(len: nat) -> nat {
    4 * ((len + 2) / 3)
}

/// `Engine::encode` of `base64`'s `STANDARD` engine. The text consists of letters,
/// digits, `+`, `/` and `=`, has four characters for every three bytes begun, and
/// decodes to the bytes again.
#[verifier::external_body]
pub(crate) fn encode(bytes: &[u8]) -> (text: String)
    requires
        base64_len(bytes@.len()) <= isize::MAX,
    ensures
        text@ == base64_encoded(bytes@),
        (base64_decoded(text@) == Ok::<Seq<u8>, Seq<char>>(bytes@)),
        text@.len() == base64_len(bytes@.len()),
        forall|i: int| 0 <= i < text@.len() ==> base64_char(#[trigger] text@[i]),
{
    STANDARD.encode(bytes)
}

/// `Engine::decode` of `base64`'s `STANDARD` engine. A `DecodeError` comes back as
/// the words that its `Display` gives.
#[verifier::external_body]
pub(crate) fn decode(text: &str) -> (bytes: Result<Vec<u8>, String>)
    ensures
        match bytes {
            Ok(bytes) => base64_decoded(text@) == Ok::<Seq<u8>, Seq<char>>(bytes@),
            Err(reason) => base64_decoded(text@) == Err::<Seq<u8>, Seq<char>>(reason@),
        },
{
    STANDARD.decode(text).map_err(|error| error.to_string())
}

} // verus!
