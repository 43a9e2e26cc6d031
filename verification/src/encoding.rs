//! Base64 text in the URL-safe alphabet.

use vstd::prelude::*;

verus! {

/// What URL-safe base64 without padding decodes to.
pub uninterp spec fn url_safe_unpadded(source: Seq<char>) -> Option<Seq<u8>>;

/// `base64::Engine::decode` with the engine `URL_SAFE_NO_PAD`. The result is
/// named `url_safe_unpadded`.
#[verifier::external_body]
fn decode_unpadded(source: &str) -> (r: Option<Vec<u8>>)
    ensures
        match r {
            Some(bytes) => url_safe_unpadded(source@) == Some(bytes@),
            None => url_safe_unpadded(source@) is None,
        },
{
    base64::Engine::decode(&base64::engine::general_purpose::URL_SAFE_NO_PAD, source).ok()
}

/// What URL-safe base64 with padding decodes to.
pub uninterp spec fn url_safe_padded(source: Seq<char>) -> Option<Seq<u8>>;

/// `base64::Engine::decode` with the engine `URL_SAFE`. The result is named
/// `url_safe_padded`.
#[verifier::external_body]
fn decode_padded(source: &str) -> (r: Option<Vec<u8>>)
    ensures
        match r {
            Some(bytes) => url_safe_padded(source@) == Some(bytes@),
            None => url_safe_padded(source@) is None,
        },
{
    base64::Engine::decode(&base64::engine::general_purpose::URL_SAFE, source).ok()
}

/// What URL-safe base64 decodes to, read without padding first and then with it.
pub open spec fn url_safe(source: Seq<char>) -> Option<Seq<u8>> {
    match url_safe_unpadded(source) {
        Some(bytes) => Some(bytes),
        None => url_safe_padded(source),
    }
}

/// Decodes URL-safe base64, without padding first and then with it.
pub fn decode_url_safe(source: &str) -> (r: Option<Vec<u8>>)
    ensures
        match r {
            Some(bytes) => url_safe(source@) == Some(bytes@),
            None => url_safe(source@) is None,
        },
{
    match decode_unpadded(source) {
        Some(bytes) => Some(bytes),
        None => decode_padded(source),
    }
}

} // verus!
