use rust_crypto::OpTag;
use rust_crypto::VaultError;
use rust_crypto::cipher::{decrypt_text, encrypt_text};
use rust_crypto::guard::{detect_replay_attack, log_request};
use rust_crypto::kdf::derive_key;
use rust_crypto::signer::{sign_text, verify_timestamp};
use rust_crypto::tamper::detect_tampering;

#[test]
fn derive_key_pads_short_secrets() {
    let key = derive_key("abc");
    assert_eq!(key.len(), 32);
    assert_eq!(&key[..3], &[97u8, 98, 99]);
    assert!(key[3..].iter().all(|&b| b == 0));
}

#[test]
fn derive_key_truncates_long_secrets() {
    let long = "a".repeat(40);
    let short = "a".repeat(32);
    assert_eq!(derive_key(&long), derive_key(&short));
}

#[test]
fn derive_key_of_empty_secret_is_all_zeros() {
    let key = derive_key("");
    assert_eq!(key, vec![0u8; 32]);
}

#[test]
fn cipher_engine_round_trip() {
    let ct = encrypt_text("plain text", "secret").unwrap();
    assert_eq!(decrypt_text(&ct, "secret").unwrap(), "plain text");
}

#[test]
fn cipher_engine_blob_is_long_enough() {
    // Wire blob: 12-byte nonce plus ciphertext plus 16-byte tag, in base64.
    // 5 plaintext bytes give 33 blob bytes, hence 44 base64 characters.
    let ct = encrypt_text("hello", "secret").unwrap();
    assert_eq!(ct.len(), 44);
}

#[test]
fn cipher_engine_rejects_wrong_secret() {
    let ct = encrypt_text("plain text", "one secret").unwrap();
    assert_eq!(decrypt_text(&ct, "another secret"), Err(VaultError::AuthError));
}

#[test]
fn sign_text_known_answer_negative_timestamp() {
    // The timestamp is digested as its 8 little-endian two's-complement
    // bytes, so negative timestamps sign deterministically too.
    let sig = sign_text("hello", -5, "secret");
    assert_eq!(sig, "lzXaRh4Qe8YDAbRrUviNNxAj/kiqk5mCBYxhPoJI/Zo=");
}

#[test]
fn sign_text_differs_per_timestamp() {
    assert_ne!(sign_text("hello", 1, "secret"), sign_text("hello", 2, "secret"));
}

#[test]
fn verify_timestamp_boundaries() {
    assert!(verify_timestamp(700, 1000));
    assert!(!verify_timestamp(699, 1000));
    assert!(verify_timestamp(1300, 1000));
    assert!(!verify_timestamp(1301, 1000));
    assert!(verify_timestamp(-100, 100));
    assert!(!verify_timestamp(-201, 100));
}

#[test]
fn detect_tampering_matches_blacklist() {
    assert!(detect_tampering("<script>"));
    assert!(detect_tampering("xx javascript: yy"));
    assert!(detect_tampering("eval(1)"));
    assert!(!detect_tampering("a harmless note"));
    assert!(!detect_tampering(""));
    assert!(!detect_tampering("script javascript eval"));
}

#[test]
fn detect_tampering_length_cap() {
    assert!(!detect_tampering(&"c".repeat(1_000_000)));
    assert!(detect_tampering(&"c".repeat(1_000_001)));
}

#[test]
fn replay_guard_blocks_over_limit() {
    let mut log: Vec<(OpTag, u64)> = Vec::new();
    for _ in 0..10 {
        log_request(&mut log, OpTag::Decrypt, 100);
    }
    // 10 recent entries: not over the limit yet.
    assert!(!detect_replay_attack(&mut log, OpTag::Decrypt, 100));
    log_request(&mut log, OpTag::Decrypt, 100);
    // 11 recent entries: blocked.
    assert!(detect_replay_attack(&mut log, OpTag::Decrypt, 100));
}

#[test]
fn replay_guard_counts_only_matching_tag() {
    let mut log: Vec<(OpTag, u64)> = Vec::new();
    for _ in 0..11 {
        log_request(&mut log, OpTag::Encrypt, 100);
    }
    assert!(!detect_replay_attack(&mut log, OpTag::Decrypt, 100));
}

#[test]
fn replay_guard_ignores_entries_older_than_a_second() {
    let mut log: Vec<(OpTag, u64)> = Vec::new();
    for _ in 0..11 {
        log_request(&mut log, OpTag::Decrypt, 99);
    }
    // One second later the entries are outside the recent window.
    assert!(!detect_replay_attack(&mut log, OpTag::Decrypt, 100));
    // But they are still younger than the prune window, so they stay logged.
    assert_eq!(log.len(), 11);
}

#[test]
fn replay_guard_prunes_old_entries() {
    let mut log: Vec<(OpTag, u64)> = Vec::new();
    log_request(&mut log, OpTag::Decrypt, 10);
    log_request(&mut log, OpTag::Sign, 20);
    log_request(&mut log, OpTag::Decrypt, 65);
    assert!(!detect_replay_attack(&mut log, OpTag::Decrypt, 80));
    // Entries at 10 and 20 are at least 60 seconds old at time 80.
    assert_eq!(log, vec![(OpTag::Decrypt, 65)]);
}
