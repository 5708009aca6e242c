//! The secure random source: fresh key material and nonces, drawn through
//! ring's system RNG.
use vstd::prelude::*;

verus! {

use crate::VaultError;

/// Relies on ring's `SystemRandom` and `SecureRandom::fill`: fills the buffer
/// from the operating system's secure random source, or reports failure.
/// Nothing is promised of the bytes themselves.
#[verifier::external_body]
pub fn random_bytes(n: usize) -> (r: Result<Vec<u8>, VaultError>)
    ensures
        r is Ok ==> r.unwrap()@.len() == n,
        r is Err ==> r.unwrap_err() == VaultError::RngFailure,
{
    let rng = ring::rand::SystemRandom::new();
    let mut buf = vec![0u8; n];
    match ring::rand::SecureRandom::fill(&rng, &mut buf) {
        Ok(()) => Ok(buf),
        Err(_) => Err(VaultError::RngFailure),
    }
}

} // verus!
