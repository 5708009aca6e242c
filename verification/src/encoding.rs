//! The text encoding of the wire formats: standard-alphabet padded base64,
//! performed by the `base64` crate, and the decoding of recovered plaintext
//! bytes back into text.
use vstd::prelude::*;

verus! {

use crate::VaultError;
use vstd::utf8::{decode_utf8, valid_utf8};

/// The standard-alphabet padded base64 text encoding of a byte sequence.
pub uninterp spec fn b64_of(bytes: Seq<u8>) -> Seq<char>;

/// Relies on base64's `Engine::encode` with the `general_purpose::STANDARD`
/// engine: the canonical padded standard-alphabet encoding, a function of the
/// input bytes alone.
#[verifier::external_body]
pub fn b64_encode(bytes: &[u8]) -> (r: String)
    ensures
        r@ == b64_of(bytes@),
{
    base64::Engine::encode(&base64::engine::general_purpose::STANDARD, bytes)
}

/// Relies on base64's `Engine::decode` with the `general_purpose::STANDARD`
/// engine: it inverts `Engine::encode`, and (padding required canonical, no
/// trailing bits) accepts only what `Engine::encode` produces.
#[verifier::external_body]
pub fn b64_decode(text: &str) -> (r: Result<Vec<u8>, VaultError>)
    ensures
        r is Ok ==> text@ == b64_of(r.unwrap()@),
        forall|s: Seq<u8>| text@ == #[trigger] b64_of(s) ==> r is Ok && r.unwrap()@ == s,
        r is Err ==> r.unwrap_err() == VaultError::FormatError,
{
    match base64::Engine::decode(&base64::engine::general_purpose::STANDARD, text) {
        Ok(v) => Ok(v),
        Err(_) => Err(VaultError::FormatError),
    }
}

/// Relies on std's `String::from_utf8`: succeeds exactly on valid UTF-8 and
/// returns the decoded characters.
#[verifier::external_body]
pub fn bytes_to_string(bytes: Vec<u8>) -> (r: Result<String, VaultError>)
    ensures
        r is Ok <==> valid_utf8(bytes@),
        r is Ok ==> r.unwrap()@ == decode_utf8(bytes@),
        r is Err ==> r.unwrap_err() == VaultError::EncodingError,
{
    match String::from_utf8(bytes) {
        Ok(s) => Ok(s),
        Err(_) => Err(VaultError::EncodingError),
    }
}

} // verus!
