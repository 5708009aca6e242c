//! An in-process cryptographic vault: a process-lifetime master key behind an
//! integrity gate, AES-256-GCM encryption and decryption of text, HMAC-SHA-256
//! signing bound to a timestamp, an encrypted key-value store, and two abuse
//! heuristics (a tamper-content filter and a sliding-window rate limiter).
use vstd::prelude::*;

pub mod cipher;
pub mod encoding;
pub mod guard;
pub mod kdf;
pub mod rng;
pub mod signer;
pub mod tamper;
pub mod vault;

verus! {

/// Why a vault operation failed. Adapters collapse all of these into a single
/// absent/false result; the cause is kept here for internal callers.
#[derive(Clone, Copy, Debug, PartialEq, Eq, Structural)]
pub enum VaultError {
    /// The master key has not been generated yet.
    Uninitialized,
    /// The secure random source failed.
    RngFailure,
    /// The cipher refused to encrypt.
    EncryptError,
    /// Malformed or undersized ciphertext text.
    FormatError,
    /// Authentication-tag verification failed.
    AuthError,
    /// Decrypted bytes are not valid text.
    EncodingError,
    /// The tamper-content heuristic matched the plaintext.
    TamperSuspected,
    /// The sliding-window rate limiter tripped.
    RateLimited,
    /// The timestamp is outside the freshness window.
    TimestampExpired,
    /// The store holds no entry for the key.
    NotFound,
}

/// Which operation a request-log entry records.
#[derive(Clone, Copy, Debug, PartialEq, Eq, Structural)]
pub enum OpTag {
    Encrypt,
    Decrypt,
    Sign,
    Store,
    Get,
    Remove,
    Generate,
}

} // verus!
