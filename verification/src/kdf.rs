//! Key derivation: maps an arbitrary-length secret to a fixed 32-byte cipher
//! key by truncating or right-padding with zero bytes. Deliberately naive (no
//! salt, no stretching), kept for behavioral parity with the protocol it
//! implements.
use vstd::prelude::*;

verus! {

use vstd::string::StringSliceAdditionalSpecFns;

/// The number of bytes in a derived cipher key.
pub const KEY_LEN: usize = 32;

/// The derived key: the secret's bytes truncated to 32, or right-padded with
/// zeros up to 32.
pub open spec fn derived_key(secret: Seq<u8>) -> Seq<u8> {
    if secret.len() >= KEY_LEN {
        secret.subrange(0, KEY_LEN as int)
    } else {
        secret + Seq::new((KEY_LEN - secret.len()) as nat, |i: int| 0u8)
    }
}

/// Derive the 32-byte cipher key from a caller-supplied secret.
pub fn derive_key(key_str: &str) -> (r: Vec<u8>)
    ensures
        r@ == derived_key(key_str.spec_bytes()),
        r@.len() == KEY_LEN,
{
    let bytes: &[u8] = key_str.as_bytes();
    let mut key: Vec<u8> = Vec::new();
    let mut i: usize = 0;
    while i < KEY_LEN
        invariant
            i <= KEY_LEN,
            key@.len() == i,
            forall|j: int| 0 <= j < i ==> key@[j] == derived_key(bytes@)[j],
        decreases KEY_LEN - i,
    {
        if i < bytes.len() {
            key.push(bytes[i]);
        } else {
            key.push(0u8);
        }
        i = i + 1;
    }
    proof {
        assert(key@ =~= derived_key(bytes@));
    }
    key
}

} // verus!
