//! Base64 (standard alphabet, padded) for screenshot payloads.

use vstd::prelude::*;
use base64::Engine;

verus! {

/// The standard padded base64 encoding of `bytes`.
pub uninterp spec fn base64_encoded(bytes: Seq<u8>) -> Seq<char>;

/// The bytes that `text` encodes in standard padded base64, or `None` when `text` is
/// not valid standard base64.
pub uninterp spec fn base64_decoded(text: Seq<char>) -> Option<Seq<u8>>;

/// `base64::engine::general_purpose::STANDARD.encode`. Decoding the result gives the
/// input back.
#[verifier::external_body]
pub(crate) fn base64_encode(bytes: &[u8]) -> (text: String)
    ensures
        text@ == base64_encoded(bytes@),
        base64_decoded(text@) == Some(bytes@),
{
    base64::engine::general_purpose::STANDARD.encode(bytes)
}

/// The message of the error that decoding `text` as standard padded base64 reports.
pub uninterp spec fn base64_decode_error(text: Seq<char>) -> Seq<char>;

/// `base64::engine::general_purpose::STANDARD.decode`, with the decode error rendered
/// as its message (`Display` of `base64::DecodeError`).
#[verifier::external_body]
pub(crate) fn base64_decode(text: &str) -> (r: Result<Vec<u8>, String>)
    ensures
        r matches Ok(bytes) ==> base64_decoded(text@) == Some(bytes@),
        r matches Err(m) ==> base64_decoded(text@) is None && m@ == base64_decode_error(text@),
{
    match base64::engine::general_purpose::STANDARD.decode(text) {
        Ok(bytes) => Ok(bytes),
        Err(e) => Err(e.to_string()),
    }
}

} // verus!
