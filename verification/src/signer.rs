//! The signer: an HMAC-SHA-256 digest over the data bytes concatenated with
//! the timestamp as 8 little-endian bytes, under the key derived from a
//! caller-supplied secret, encoded as base64 text. Signing is gated upstream
//! by a freshness check on the timestamp.
use vstd::prelude::*;

verus! {

use crate::encoding::{b64_encode, b64_of};
use crate::kdf::{derive_key, derived_key};
use vstd::string::StringSliceAdditionalSpecFns;
use vstd::utf8::encode_utf8;

/// The freshness window for signing timestamps, in seconds.
pub const FRESHNESS_WINDOW: u64 = 300;

/// A timestamp is fresh when it lies within 300 seconds of the wall clock
/// `now`, on either side, inclusive.
pub open spec fn timestamp_fresh(timestamp: i64, now: u64) -> bool {
    -(FRESHNESS_WINDOW as int) <= now - timestamp <= FRESHNESS_WINDOW as int
}

/// The timestamp freshness check of the signing path.
pub fn verify_timestamp(timestamp: i64, now: u64) -> (r: bool)
    ensures
        r == timestamp_fresh(timestamp, now),
{
    let diff: i128 = now as i128 - timestamp as i128;
    -(FRESHNESS_WINDOW as i128) <= diff && diff <= FRESHNESS_WINDOW as i128
}

/// What HMAC-SHA-256 returns for a key and a message: a 32-byte digest, a
/// function of the two alone.
pub uninterp spec fn hmac_sha256_of(key: Seq<u8>, msg: Seq<u8>) -> Seq<u8>;

/// Relies on hmac's `Hmac<Sha256>`: `KeyInit::new_from_slice` accepts a key of
/// any length (its source always returns `Ok`), and `update` then `finalize`
/// compute the 32-byte HMAC-SHA-256 digest, a function of key and message
/// alone.
#[verifier::external_body]
fn hmac_sha256(key: &[u8], msg: &[u8]) -> (r: Vec<u8>)
    ensures
        r@ == hmac_sha256_of(key@, msg@),
        r@.len() == 32,
{
    let mut mac = <hmac::Hmac<sha2::Sha256> as hmac::KeyInit>::new_from_slice(key)
        .expect("HMAC accepts keys of any length");
    hmac::Mac::update(&mut mac, msg);
    let digest = hmac::Mac::finalize(mac).into_bytes();
    digest.as_slice().to_vec()
}

/// The timestamp as 8 little-endian bytes of its two's-complement value.
pub open spec fn le_bytes(x: u64) -> Seq<u8> {
    seq![
        (x & 0xff) as u8,
        ((x >> 8) & 0xff) as u8,
        ((x >> 16) & 0xff) as u8,
        ((x >> 24) & 0xff) as u8,
        ((x >> 32) & 0xff) as u8,
        ((x >> 40) & 0xff) as u8,
        ((x >> 48) & 0xff) as u8,
        ((x >> 56) & 0xff) as u8,
    ]
}

/// The byte sequence the signer digests: the data bytes followed by the
/// timestamp's 8 little-endian bytes.
pub open spec fn signed_message(data: Seq<char>, timestamp: i64) -> Seq<u8> {
    encode_utf8(data) + le_bytes(timestamp as u64)
}

/// Serialize the timestamp as 8 little-endian bytes.
fn timestamp_bytes(timestamp: i64) -> (r: Vec<u8>)
    ensures
        r@ == le_bytes(timestamp as u64),
{
    let x: u64 = #[verifier::truncate] (timestamp as u64);
    let mut out: Vec<u8> = Vec::new();
    out.push((x & 0xff) as u8);
    out.push(((x >> 8) & 0xff) as u8);
    out.push(((x >> 16) & 0xff) as u8);
    out.push(((x >> 24) & 0xff) as u8);
    out.push(((x >> 32) & 0xff) as u8);
    out.push(((x >> 40) & 0xff) as u8);
    out.push(((x >> 48) & 0xff) as u8);
    out.push(((x >> 56) & 0xff) as u8);
    proof {
        assert(out@ =~= le_bytes(x));
    }
    out
}

/// Compute the signature text: base64 of the HMAC-SHA-256 digest of the data
/// and timestamp under the derived key. Deterministic for identical inputs.
pub fn sign_text(data: &str, timestamp: i64, secret: &str) -> (r: String)
    ensures
        r@ == b64_of(
            hmac_sha256_of(
                derived_key(encode_utf8(secret@)),
                signed_message(data@, timestamp),
            ),
        ),
{
    let key = derive_key(secret);
    let mut msg: Vec<u8> = Vec::new();
    msg.extend_from_slice(data.as_bytes());
    let mut ts = timestamp_bytes(timestamp);
    proof {
        assert(msg@ =~= encode_utf8(data@));
    }
    msg.append(&mut ts);
    proof {
        assert(msg@ =~= signed_message(data@, timestamp));
    }
    let digest = hmac_sha256(key.as_slice(), msg.as_slice());
    b64_encode(digest.as_slice())
}

} // verus!
