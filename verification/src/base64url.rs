//! URL-safe base64 without padding.
use base64::Engine;
use vstd::prelude::*;

verus! {

/// What a text decodes to, if it is URL-safe base64 without padding.
pub uninterp spec fn decoded_base64(text: Seq<char>) -> Option<Seq<u8>>;

/// `URL_SAFE_NO_PAD.decode` decodes a text. Its outcome is a function of the text alone.
#[verifier::external_body]
pub(crate) fn decode_base64(text: &str) -> (r: Option<Vec<u8>>)
    ensures
        match decoded_base64(text@) {
            Some(bytes) => r matches Some(found) && found@ == bytes,
            None => r is None,
        },
{
    base64::engine::general_purpose::URL_SAFE_NO_PAD.decode(text).ok()
}

} // verus!
