//! Base64url (unpadded) encoding of token segments.
use vstd::prelude::*;
use base64::Engine;

verus! {

/// What `URL_SAFE_NO_PAD.decode` gives for a text: the bytes, or `None`
/// when the text is not unpadded base64url.
pub uninterp spec fn b64url_decoded(s: Seq<char>) -> Option<Seq<u8>>;

/// The unpadded base64url text of a byte string.
pub uninterp spec fn b64url_text(b: Seq<u8>) -> Seq<char>;

/// Calls `base64::engine::general_purpose::URL_SAFE_NO_PAD.decode`. On
/// success the bytes are the decoding of the text; on failure the error's
/// rendering is returned (its text is left unsaid).
#[verifier::external_body]
pub fn b64url_decode(s: &str) -> (r: Result<Vec<u8>, String>)
    ensures
        match r {
            Ok(v) => b64url_decoded(s@) == Some(v@),
            Err(_) => b64url_decoded(s@) is None,
        },
{
    base64::engine::general_purpose::URL_SAFE_NO_PAD.decode(s).map_err(|e| e.to_string())
}

/// Calls `base64::engine::general_purpose::URL_SAFE_NO_PAD.encode`: the
/// unpadded base64url text of the bytes, which decodes back to them and
/// holds no '.'.
#[verifier::external_body]
pub fn b64url_encode(b: &[u8]) -> (s: String)
    ensures
        s@ == b64url_text(b@),
        b64url_decoded(s@) == Some(b@),
        !s@.contains('.'),
{
    base64::engine::general_purpose::URL_SAFE_NO_PAD.encode(b)
}

} // verus!
