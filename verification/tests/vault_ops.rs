use rust_crypto::VaultError;
use rust_crypto::vault::Vault;

const NOW: u64 = 1_700_000_000;

fn ready_vault() -> Vault {
    let mut v = Vault::new();
    assert!(v.init());
    v
}

#[test]
fn round_trip_simple() {
    let mut v = ready_vault();
    let ct = v.encrypt("hello world", "secret", NOW).unwrap();
    let pt = v.decrypt(&ct, "secret", NOW).unwrap();
    assert_eq!(pt, "hello world");
}

#[test]
fn round_trip_empty_plaintext() {
    let mut v = ready_vault();
    let ct = v.encrypt("", "secret", NOW).unwrap();
    let pt = v.decrypt(&ct, "secret", NOW).unwrap();
    assert_eq!(pt, "");
}

#[test]
fn round_trip_unicode() {
    let mut v = ready_vault();
    let ct = v.encrypt("héllo wörld ✓", "pässwörd", NOW).unwrap();
    let pt = v.decrypt(&ct, "pässwörd", NOW).unwrap();
    assert_eq!(pt, "héllo wörld ✓");
}

#[test]
fn round_trip_large_plaintext() {
    let mut v = ready_vault();
    let big = "a".repeat(1_000_000);
    let ct = v.encrypt(&big, "secret", NOW).unwrap();
    let pt = v.decrypt(&ct, "secret", NOW).unwrap();
    assert_eq!(pt, big);
}

#[test]
fn nonce_uniqueness() {
    let mut v = ready_vault();
    let c1 = v.encrypt("same input", "same secret", NOW).unwrap();
    let c2 = v.encrypt("same input", "same secret", NOW).unwrap();
    assert_ne!(c1, c2);
}

#[test]
fn wrong_key_rejected_with_auth_error() {
    let mut v = ready_vault();
    let ct = v.encrypt("top secret", "key one", NOW).unwrap();
    assert_eq!(v.decrypt(&ct, "key two", NOW), Err(VaultError::AuthError));
}

#[test]
fn secrets_sharing_derived_key_interoperate() {
    // Derivation truncates to 32 bytes: secrets that differ only after the
    // 32nd byte derive the same cipher key.
    let mut v = ready_vault();
    let s1 = format!("{}x", "a".repeat(32));
    let s2 = format!("{}y", "a".repeat(32));
    let ct = v.encrypt("data", &s1, NOW).unwrap();
    assert_eq!(v.decrypt(&ct, &s2, NOW).unwrap(), "data");
}

#[test]
fn tampered_content_rejected() {
    let mut v = ready_vault();
    assert_eq!(
        v.encrypt("abc<script>alert(1)</script>", "s", NOW),
        Err(VaultError::TamperSuspected)
    );
    assert_eq!(
        v.encrypt("click javascript:void(0)", "s", NOW),
        Err(VaultError::TamperSuspected)
    );
    assert_eq!(v.encrypt("x = eval(code)", "s", NOW), Err(VaultError::TamperSuspected));
    let too_big = "b".repeat(1_000_001);
    assert_eq!(v.encrypt(&too_big, "s", NOW), Err(VaultError::TamperSuspected));
}

#[test]
fn content_at_length_cap_accepted() {
    let mut v = ready_vault();
    let at_cap = "b".repeat(1_000_000);
    assert!(v.encrypt(&at_cap, "s", NOW).is_ok());
}

#[test]
fn malformed_ciphertext_is_format_error() {
    let mut v = ready_vault();
    assert_eq!(v.decrypt("not-valid-base64!!!", "s", NOW), Err(VaultError::FormatError));
    // Valid base64, but only 3 decoded bytes: shorter than a nonce.
    assert_eq!(v.decrypt("AQID", "s", NOW), Err(VaultError::FormatError));
    // 28 decoded bytes, but no valid tag.
    assert_eq!(
        v.decrypt("AAAAAAAAAAAAAAAAAAAAAAAAAAAAAAAAAAAAAA==", "s", NOW),
        Err(VaultError::AuthError)
    );
}

#[test]
fn sign_succeeds_inside_freshness_window() {
    let mut v = ready_vault();
    let now: u64 = 1000;
    assert!(v.sign("data", 700, "secret", now).is_ok());
    assert!(v.sign("data", 1300, "secret", now).is_ok());
    assert!(v.sign("data", 1000, "secret", now).is_ok());
}

#[test]
fn sign_rejected_outside_freshness_window() {
    let mut v = ready_vault();
    let now: u64 = 1000;
    assert_eq!(v.sign("data", 699, "secret", now), Err(VaultError::TimestampExpired));
    assert_eq!(v.sign("data", 1301, "secret", now), Err(VaultError::TimestampExpired));
}

#[test]
fn sign_known_answer() {
    let mut v = ready_vault();
    let sig = v.sign("hello", 1000, "secret", 1000).unwrap();
    assert_eq!(sig, "3BoMaqiELR43i4EHdAtSc/KV0niw0gYi5bEdbzbzNhM=");
}

#[test]
fn sign_deterministic() {
    let mut v = ready_vault();
    let s1 = v.sign("payload", 500, "secret", 500).unwrap();
    let s2 = v.sign("payload", 500, "secret", 500).unwrap();
    assert_eq!(s1, s2);
}

#[test]
fn rate_limit_trips_after_window_fills() {
    let mut v = ready_vault();
    let now: u64 = 500;
    let ct = v.encrypt("payload", "s", now).unwrap();
    for _ in 0..11 {
        assert!(v.decrypt(&ct, "s", now).is_ok());
    }
    // More than 10 decrypt entries now fall within the last second.
    assert_eq!(v.decrypt(&ct, "s", now), Err(VaultError::RateLimited));
    // Rejected regardless of ciphertext validity.
    assert_eq!(v.decrypt("garbage", "s", now), Err(VaultError::RateLimited));
}

#[test]
fn rate_limit_resets_after_log_window() {
    let mut v = ready_vault();
    let now: u64 = 500;
    let ct = v.encrypt("payload", "s", now).unwrap();
    for _ in 0..11 {
        assert!(v.decrypt(&ct, "s", now).is_ok());
    }
    assert_eq!(v.decrypt(&ct, "s", now), Err(VaultError::RateLimited));
    // 60 seconds later every old entry is pruned and the count is back to 0.
    assert!(v.decrypt(&ct, "s", now + 60).is_ok());
}

#[test]
fn store_get_returns_stored_value() {
    let mut v = ready_vault();
    assert!(v.store_key("api-key", "the value", NOW));
    assert_eq!(v.get_key("api-key", NOW).unwrap(), "the value");
}

#[test]
fn store_overwrites_previous_value() {
    let mut v = ready_vault();
    assert!(v.store_key("k", "first", NOW));
    assert!(v.store_key("k", "second", NOW));
    assert_eq!(v.get_key("k", NOW).unwrap(), "second");
}

#[test]
fn remove_then_get_is_not_found() {
    let mut v = ready_vault();
    assert!(v.store_key("k", "v", NOW));
    assert!(v.remove_key("k", NOW));
    assert_eq!(v.get_key("k", NOW), Err(VaultError::NotFound));
}

#[test]
fn remove_absent_key_is_false() {
    let mut v = ready_vault();
    assert!(!v.remove_key("missing", NOW));
    assert!(v.store_key("k", "v", NOW));
    assert!(!v.remove_key("other", NOW));
}

#[test]
fn get_missing_key_is_not_found() {
    let mut v = ready_vault();
    assert_eq!(v.get_key("never-stored", NOW), Err(VaultError::NotFound));
}

#[test]
fn uninitialized_gate_blocks_every_operation() {
    let mut v = Vault::new();
    assert!(!v.verify_integrity());
    assert_eq!(v.encrypt("p", "s", NOW), Err(VaultError::Uninitialized));
    assert_eq!(v.decrypt("c", "s", NOW), Err(VaultError::Uninitialized));
    assert_eq!(v.sign("d", NOW as i64, "s", NOW), Err(VaultError::Uninitialized));
    assert!(!v.store_key("k", "v", NOW));
    assert_eq!(v.get_key("k", NOW), Err(VaultError::Uninitialized));
    assert!(!v.remove_key("k", NOW));
    assert_eq!(v.generate_key(NOW), Err(VaultError::Uninitialized));
}

#[test]
fn init_succeeds_only_once() {
    let mut v = Vault::new();
    assert!(v.init());
    assert!(v.verify_integrity());
    assert!(!v.init());
    assert!(v.verify_integrity());
}

#[test]
fn generate_key_produces_fresh_encoded_keys() {
    let mut v = ready_vault();
    let k1 = v.generate_key(NOW).unwrap();
    let k2 = v.generate_key(NOW).unwrap();
    // 32 random bytes encode to 44 characters of padded base64.
    assert_eq!(k1.len(), 44);
    assert_eq!(k2.len(), 44);
    assert_ne!(k1, k2);
}
