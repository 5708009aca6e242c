//! The AEAD cipher engine: AES-256-GCM under a key derived from a
//! caller-supplied secret, with a fresh random 12-byte nonce per encryption.
//! The wire format is the base64 text encoding of the nonce followed by the
//! ciphertext with its appended 16-byte authentication tag.
use vstd::prelude::*;

verus! {

use crate::VaultError;
use crate::encoding::{b64_decode, b64_encode, b64_of, bytes_to_string};
use crate::kdf::{derive_key, derived_key};
use crate::rng::random_bytes;
use vstd::string::StringSliceAdditionalSpecFns;
use vstd::utf8::{decode_utf8, encode_utf8, encode_utf8_decode_utf8, encode_utf8_valid_utf8};

/// The number of bytes in an AES-GCM nonce.
pub const NONCE_LEN: usize = 12;

/// The number of bytes in an AES-GCM authentication tag.
pub const TAG_LEN: usize = 16;

/// GCM's plaintext length cap: 2^36 - 32 bytes.
pub const MAX_PLAINTEXT_LEN: u64 = 0xF_FFFF_FFE0;

/// The longest sealed blob GCM produces: a capped plaintext plus its tag.
pub const MAX_SEALED_LEN: u64 = 0xF_FFFF_FFE0 + 16;

/// What AES-256-GCM sealing returns for a 32-byte key, a 12-byte nonce and a
/// plaintext: the ciphertext with its appended 16-byte tag, a function of
/// those three alone.
pub uninterp spec fn aead_seal(key: Seq<u8>, nonce: Seq<u8>, plaintext: Seq<u8>) -> Seq<u8>;

/// The ciphertext wire format: base64 text of the nonce followed by the
/// sealed bytes.
pub open spec fn wire_blob(key: Seq<u8>, nonce: Seq<u8>, plaintext: Seq<u8>) -> Seq<char> {
    b64_of(nonce + aead_seal(key, nonce, plaintext))
}

/// The ciphertext text `ct` is an honest encryption of plaintext `p` under
/// `secret`: some 12-byte nonce produces exactly this blob, the plaintext is
/// within GCM's length cap, and the sealed part carries the plaintext plus
/// its 16-byte tag.
pub open spec fn is_encryption_of(ct: Seq<char>, secret: Seq<char>, p: Seq<char>) -> bool {
    exists|nonce: Seq<u8>|
        nonce.len() == NONCE_LEN && ct == #[trigger] wire_blob(
            derived_key(encode_utf8(secret)),
            nonce,
            encode_utf8(p),
        ) && encode_utf8(p).len() <= MAX_PLAINTEXT_LEN && aead_seal(
            derived_key(encode_utf8(secret)),
            nonce,
            encode_utf8(p),
        ).len() == encode_utf8(p).len() + TAG_LEN
}

/// Nonce uniqueness, before the text encoding: two sealed byte blobs built
/// from different 12-byte nonces differ, whatever their keys and plaintexts,
/// because the blob starts with the nonce. Each encryption draws a fresh
/// random nonce, so distinct encryptions of one input give distinct blobs
/// whenever those draws differ.
pub proof fn lemma_distinct_nonces_distinct_blobs(
    n1: Seq<u8>,
    n2: Seq<u8>,
    k1: Seq<u8>,
    k2: Seq<u8>,
    p1: Seq<u8>,
    p2: Seq<u8>,
)
    requires
        n1.len() == NONCE_LEN,
        n2.len() == NONCE_LEN,
        n1 != n2,
    ensures
        n1 + aead_seal(k1, n1, p1) != n2 + aead_seal(k2, n2, p2),
{
    let b1 = n1 + aead_seal(k1, n1, p1);
    let b2 = n2 + aead_seal(k2, n2, p2);
    if b1 == b2 {
        assert(b1.subrange(0, NONCE_LEN as int) =~= n1);
        assert(b2.subrange(0, NONCE_LEN as int) =~= n2);
    }
}

/// Relies on aes_gcm's `Aes256Gcm`: `KeyInit::new_from_slice` accepts any
/// 32-byte key, and `Aead::encrypt` returns the GCM ciphertext with its
/// appended 16-byte tag — a function of key, nonce and plaintext alone — and
/// fails only when the plaintext is over GCM's length cap of 2^36 - 32 bytes.
#[verifier::external_body]
fn aes_seal(key: &[u8], nonce: &[u8], plaintext: &[u8]) -> (r: Result<Vec<u8>, VaultError>)
    requires
        key@.len() == 32,
        nonce@.len() == NONCE_LEN,
    ensures
        r is Ok ==> r.unwrap()@ == aead_seal(key@, nonce@, plaintext@),
        r is Ok ==> r.unwrap()@.len() == plaintext@.len() + TAG_LEN,
        r is Ok <==> plaintext@.len() <= MAX_PLAINTEXT_LEN,
        r is Err ==> r.unwrap_err() == VaultError::EncryptError,
{
    let cipher = match <aes_gcm::Aes256Gcm as aes_gcm::KeyInit>::new_from_slice(key) {
        Ok(c) => c,
        Err(_) => return Err(VaultError::EncryptError),
    };
    let nonce_arr: &aes_gcm::Nonce<aes_gcm::aead::consts::U12> = match nonce.try_into() {
        Ok(n) => n,
        Err(_) => return Err(VaultError::EncryptError),
    };
    match aes_gcm::aead::Aead::encrypt(&cipher, nonce_arr, plaintext) {
        Ok(v) => Ok(v),
        Err(_) => Err(VaultError::EncryptError),
    }
}

/// Relies on aes_gcm's `Aes256Gcm`: `Aead::decrypt` verifies the tag and, on
/// the output of `Aead::encrypt` under the same key and nonce (which never
/// exceeds the capped plaintext length plus the tag), returns the original
/// plaintext; on tag mismatch it fails.
#[verifier::external_body]
fn aes_open(key: &[u8], nonce: &[u8], sealed: &[u8]) -> (r: Result<Vec<u8>, VaultError>)
    requires
        key@.len() == 32,
        nonce@.len() == NONCE_LEN,
        sealed@.len() <= MAX_SEALED_LEN,
    ensures
        forall|p: Seq<u8>| sealed@ == #[trigger] aead_seal(key@, nonce@, p) ==> r is Ok
            && r.unwrap()@ == p,
        r is Err ==> r.unwrap_err() == VaultError::AuthError,
{
    let cipher = match <aes_gcm::Aes256Gcm as aes_gcm::KeyInit>::new_from_slice(key) {
        Ok(c) => c,
        Err(_) => return Err(VaultError::AuthError),
    };
    let nonce_arr: &aes_gcm::Nonce<aes_gcm::aead::consts::U12> = match nonce.try_into() {
        Ok(n) => n,
        Err(_) => return Err(VaultError::AuthError),
    };
    match aes_gcm::aead::Aead::decrypt(&cipher, nonce_arr, sealed) {
        Ok(v) => Ok(v),
        Err(_) => Err(VaultError::AuthError),
    }
}

/// Encrypt `plaintext` under the key derived from `secret`: fresh random
/// nonce, AES-256-GCM, then the base64 wire encoding. Fails only on a random
/// source failure or on a plaintext over GCM's length cap.
pub fn encrypt_text(plaintext: &str, secret: &str) -> (r: Result<String, VaultError>)
    ensures
        r is Ok ==> is_encryption_of(r.unwrap()@, secret@, plaintext@),
        r is Err ==> r.unwrap_err() == VaultError::RngFailure || (r.unwrap_err()
            == VaultError::EncryptError && plaintext.spec_bytes().len() > MAX_PLAINTEXT_LEN),
{
    let key = derive_key(secret);
    let mut blob = match random_bytes(NONCE_LEN) {
        Ok(n) => n,
        Err(e) => {
            return Err(e);
        },
    };
    let mut sealed = match aes_seal(key.as_slice(), blob.as_slice(), plaintext.as_bytes()) {
        Ok(s) => s,
        Err(e) => {
            return Err(e);
        },
    };
    let ghost nonce_bytes = blob@;
    let ghost sealed0 = sealed@;
    blob.append(&mut sealed);
    let out = b64_encode(blob.as_slice());
    proof {
        let skey = derived_key(encode_utf8(secret@));
        assert(sealed0 == aead_seal(skey, nonce_bytes, encode_utf8(plaintext@)));
        assert(sealed0.len() == encode_utf8(plaintext@).len() + TAG_LEN);
        assert(blob@ == nonce_bytes + sealed0);
        assert(out@ == wire_blob(skey, nonce_bytes, encode_utf8(plaintext@)));
        assert(is_encryption_of(out@, secret@, plaintext@));
    }
    Ok(out)
}

/// Decrypt a ciphertext blob produced by `encrypt_text` under the same
/// secret. On any honest encryption of a plaintext `p` under `secret` the
/// result is exactly `Ok(p)`; malformed text is a `FormatError`, a tag
/// mismatch an `AuthError`, and recovered bytes that are not valid text an
/// `EncodingError`.
pub fn decrypt_text(ciphertext: &str, secret: &str) -> (r: Result<String, VaultError>)
    ensures
        forall|p: Seq<char>| is_encryption_of(ciphertext@, secret@, p) ==> r is Ok
            && r.unwrap()@ == p,
        r is Err ==> r.unwrap_err() == VaultError::FormatError || r.unwrap_err()
            == VaultError::AuthError || r.unwrap_err() == VaultError::EncodingError,
{
    let ghost skey = derived_key(encode_utf8(secret@));
    let key = derive_key(secret);
    let mut data = match b64_decode(ciphertext) {
        Ok(d) => d,
        Err(e) => {
            proof {
                assert forall|p: Seq<char>| !is_encryption_of(ciphertext@, secret@, p) by {
                    if is_encryption_of(ciphertext@, secret@, p) {
                        let nonce = choose|nonce: Seq<u8>|
                            nonce.len() == NONCE_LEN && ciphertext@ == #[trigger] wire_blob(
                                skey,
                                nonce,
                                encode_utf8(p),
                            ) && encode_utf8(p).len() <= MAX_PLAINTEXT_LEN && aead_seal(
                                skey,
                                nonce,
                                encode_utf8(p),
                            ).len() == encode_utf8(p).len() + TAG_LEN;
                        assert(ciphertext@ == b64_of(nonce + aead_seal(skey, nonce, encode_utf8(p))));
                    }
                }
            }
            return Err(e);
        },
    };
    if data.len() < NONCE_LEN {
        proof {
            assert forall|p: Seq<char>| !is_encryption_of(ciphertext@, secret@, p) by {
                if is_encryption_of(ciphertext@, secret@, p) {
                    let nonce = choose|nonce: Seq<u8>|
                        nonce.len() == NONCE_LEN && ciphertext@ == #[trigger] wire_blob(
                            skey,
                            nonce,
                            encode_utf8(p),
                        );
                    assert(data@ == nonce + aead_seal(skey, nonce, encode_utf8(p)));
                }
            }
        }
        return Err(VaultError::FormatError);
    }
    let ghost data0 = data@;
    let body = data.split_off(NONCE_LEN);
    if (body.len() as u64) > MAX_SEALED_LEN {
        proof {
            assert forall|p: Seq<char>| !is_encryption_of(ciphertext@, secret@, p) by {
                if is_encryption_of(ciphertext@, secret@, p) {
                    let nonce = choose|nonce: Seq<u8>|
                        nonce.len() == NONCE_LEN && ciphertext@ == #[trigger] wire_blob(
                            skey,
                            nonce,
                            encode_utf8(p),
                        ) && encode_utf8(p).len() <= MAX_PLAINTEXT_LEN && aead_seal(
                            skey,
                            nonce,
                            encode_utf8(p),
                        ).len() == encode_utf8(p).len() + TAG_LEN;
                    assert(data0 == nonce + aead_seal(skey, nonce, encode_utf8(p)));
                    assert(body@.len() == aead_seal(skey, nonce, encode_utf8(p)).len());
                }
            }
        }
        return Err(VaultError::AuthError);
    }
    let opened = aes_open(key.as_slice(), data.as_slice(), body.as_slice());
    proof {
        assert forall|p: Seq<char>| is_encryption_of(ciphertext@, secret@, p) implies opened is Ok
            && opened.unwrap()@ == encode_utf8(p) by {
            let nonce = choose|nonce: Seq<u8>|
                nonce.len() == NONCE_LEN && ciphertext@ == #[trigger] wire_blob(
                    skey,
                    nonce,
                    encode_utf8(p),
                ) && encode_utf8(p).len() <= MAX_PLAINTEXT_LEN && aead_seal(
                    skey,
                    nonce,
                    encode_utf8(p),
                ).len() == encode_utf8(p).len() + TAG_LEN;
            let sealed_p = aead_seal(skey, nonce, encode_utf8(p));
            assert(data0 == nonce + sealed_p);
            assert(data@ =~= nonce);
            assert(body@ =~= sealed_p);
        }
    }
    let recovered = match opened {
        Ok(v) => v,
        Err(e) => {
            return Err(e);
        },
    };
    match bytes_to_string(recovered) {
        Ok(s) => {
            proof {
                assert forall|p: Seq<char>| is_encryption_of(ciphertext@, secret@, p) implies s@
                    == p by {
                    encode_utf8_decode_utf8(p);
                }
            }
            Ok(s)
        },
        Err(e) => {
            proof {
                assert forall|p: Seq<char>| !is_encryption_of(ciphertext@, secret@, p) by {
                    if is_encryption_of(ciphertext@, secret@, p) {
                        encode_utf8_valid_utf8(p);
                    }
                }
            }
            Err(e)
        },
    }
}

} // verus!
