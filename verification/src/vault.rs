//! The vault service: the single process-lifetime master key behind the
//! integrity gate, the shared request log, and the encrypted key-value store.
//! Constructed once at startup and passed by reference to every call site;
//! every gated operation consults the integrity key's presence before any side effect, and no
//! failure path mutates state or appends a log entry.
use vstd::prelude::*;

verus! {

use crate::OpTag;
use crate::VaultError;
use crate::cipher::{decrypt_text, encrypt_text, is_encryption_of};
use crate::encoding::{b64_encode, b64_of};
use crate::guard::{
    LogEntry, detect_replay_attack, log_request, pruned, replay_blocked,
};
use crate::rng::random_bytes;
use crate::signer::{sign_text, timestamp_fresh, verify_timestamp, hmac_sha256_of, signed_message};
use crate::kdf::derived_key;
use crate::tamper::{detect_tampering, tampered};
use vstd::pervasive::unreached;
use vstd::utf8::encode_utf8;

/// The number of bytes in the master integrity key.
pub const MASTER_KEY_LEN: usize = 32;

/// The key-value entries as a map from key text to stored ciphertext text;
/// later entries win, though the vault keeps keys unique.
pub open spec fn assoc_map(entries: Seq<(String, String)>) -> Map<Seq<char>, Seq<char>>
    decreases entries.len(),
{
    if entries.len() == 0 {
        Map::empty()
    } else {
        assoc_map(entries.drop_last()).insert(entries.last().0@, entries.last().1@)
    }
}

/// No two entries share a key.
pub open spec fn keys_unique(entries: Seq<(String, String)>) -> bool {
    forall|i: int, j: int|
        0 <= i < j < entries.len() ==> (#[trigger] entries[i]).0@ != (#[trigger] entries[j]).0@
}

/// The map holds a key exactly when some entry carries it.
proof fn lemma_assoc_map_contains(entries: Seq<(String, String)>, k: Seq<char>)
    ensures
        assoc_map(entries).contains_key(k) <==> exists|i: int|
            0 <= i < entries.len() && (#[trigger] entries[i]).0@ == k,
    decreases entries.len(),
{
    if entries.len() > 0 {
        lemma_assoc_map_contains(entries.drop_last(), k);
        if entries.last().0@ == k {
            assert((#[trigger] entries[entries.len() - 1]).0@ == k);
        } else if assoc_map(entries).contains_key(k) {
            let i = choose|i: int|
                0 <= i < entries.drop_last().len() && (#[trigger] entries.drop_last()[i]).0@ == k;
            assert((#[trigger] entries[i]).0@ == k);
        } else {
            assert forall|i: int|
                0 <= i < entries.len() implies (#[trigger] entries[i]).0@ != k by {
                if i < entries.len() - 1 {
                    assert(entries.drop_last()[i].0@ != k);
                }
            }
        }
    }
}

/// With unique keys, the map sends each entry's key to that entry's value.
proof fn lemma_assoc_map_index(entries: Seq<(String, String)>, i: int)
    requires
        keys_unique(entries),
        0 <= i < entries.len(),
    ensures
        assoc_map(entries).contains_key(entries[i].0@),
        assoc_map(entries)[entries[i].0@] == entries[i].1@,
    decreases entries.len(),
{
    if i == entries.len() - 1 {
    } else {
        assert(keys_unique(entries.drop_last()));
        lemma_assoc_map_index(entries.drop_last(), i);
        assert(entries[i].0@ != entries.last().0@);
    }
}

/// With unique keys, removing the entry at `i` removes exactly its key from
/// the map.
proof fn lemma_assoc_map_remove(entries: Seq<(String, String)>, i: int)
    requires
        keys_unique(entries),
        0 <= i < entries.len(),
    ensures
        assoc_map(entries.remove(i)) == assoc_map(entries).remove(entries[i].0@),
    decreases entries.len(),
{
    let k = entries[i].0@;
    if i == entries.len() - 1 {
        assert(entries.remove(i) =~= entries.drop_last());
        lemma_assoc_map_contains(entries.drop_last(), k);
        assert(!assoc_map(entries.drop_last()).contains_key(k)) by {
            if exists|j: int|
                0 <= j < entries.drop_last().len() && (#[trigger] entries.drop_last()[j]).0@ == k {
                let j = choose|j: int|
                    0 <= j < entries.drop_last().len() && (#[trigger] entries.drop_last()[j]).0@
                        == k;
                assert(entries[j].0@ == entries[i].0@);
            }
        }
        assert(assoc_map(entries.remove(i)) =~= assoc_map(entries).remove(k));
    } else {
        let shorter = entries.drop_last();
        assert(keys_unique(shorter));
        lemma_assoc_map_remove(shorter, i);
        assert(entries.remove(i).drop_last() =~= shorter.remove(i));
        assert(entries.remove(i).last() == entries.last());
        assert(assoc_map(entries.remove(i)) == assoc_map(shorter.remove(i)).insert(
            entries.last().0@,
            entries.last().1@,
        ));
        assert(entries.last().0@ != k);
        assert(assoc_map(shorter).remove(k).insert(entries.last().0@, entries.last().1@)
            =~= assoc_map(shorter).insert(entries.last().0@, entries.last().1@).remove(k));
    }
}

/// Vault consistency, at the level of the store's map: what a store puts at
/// a key is what a lookup sees, a second store at the same key replaces the
/// first, and after a removal the key is absent. Together with `store_key`'s
/// promise that the stored blob is an honest encryption of the value and
/// `get_key`'s promise that honest encryptions decrypt to their plaintext,
/// this gives store-then-get returning the stored value, store-store-get the
/// second, and remove-then-get a miss.
pub proof fn lemma_store_get_consistency(
    m: Map<Seq<char>, Seq<char>>,
    k: Seq<char>,
    b1: Seq<char>,
    b2: Seq<char>,
)
    ensures
        m.insert(k, b1).contains_key(k),
        m.insert(k, b1)[k] == b1,
        m.insert(k, b1).insert(k, b2)[k] == b2,
        !m.remove(k).contains_key(k),
{
}

/// The in-process cryptographic vault: master key, request log, encrypted
/// store.
pub struct Vault {
    integrity_key: Option<Vec<u8>>,
    request_log: Vec<LogEntry>,
    storage: Vec<(String, String)>,
}

impl Vault {
    /// The integrity gate is open: the master key has been generated.
    pub closed spec fn initialized(&self) -> bool {
        self.integrity_key is Some
    }

    /// The master key's bytes (meaningful only when initialized).
    pub closed spec fn master_key(&self) -> Seq<u8> {
        self.integrity_key.unwrap()@
    }

    /// The secret under which the store encrypts: the master key encoded as
    /// text.
    pub open spec fn master_secret(&self) -> Seq<char> {
        b64_of(self.master_key())
    }

    /// The request log.
    pub closed spec fn log(&self) -> Seq<LogEntry> {
        self.request_log@
    }

    /// The encrypted store, as a map from key text to ciphertext text.
    pub closed spec fn store_map(&self) -> Map<Seq<char>, Seq<char>> {
        assoc_map(self.storage@)
    }

    /// Well-formedness: a present master key is exactly 32 bytes, and store
    /// keys are unique.
    pub closed spec fn wf(&self) -> bool {
        &&& (self.integrity_key is Some ==> self.integrity_key.unwrap()@.len() == MASTER_KEY_LEN)
        &&& keys_unique(self.storage@)
    }

    /// A fresh vault: uninitialized, with an empty log and an empty store.
    pub fn new() -> (v: Vault)
        ensures
            v.wf(),
            !v.initialized(),
            v.log() == Seq::<LogEntry>::empty(),
            v.store_map() == Map::<Seq<char>, Seq<char>>::empty(),
    {
        Vault { integrity_key: None, request_log: Vec::new(), storage: Vec::new() }
    }

    /// The integrity gate's pure predicate: is the master key present?
    pub fn verify_integrity(&self) -> (r: bool)
        ensures
            r == self.initialized(),
    {
        self.integrity_key.is_some()
    }

    /// Generate the master key, once per vault: 32 bytes from the secure
    /// random source. True only on the first successful initialization;
    /// false thereafter or on a random-source failure, leaving the vault
    /// unchanged.
    pub fn init(&mut self) -> (r: bool)
        requires
            old(self).wf(),
        ensures
            final(self).wf(),
            r ==> !old(self).initialized() && final(self).initialized(),
            !r ==> *final(self) == *old(self) && final(self).initialized() == old(
                self,
            ).initialized(),
            final(self).log() == old(self).log(),
            final(self).store_map() == old(self).store_map(),
    {
        if self.integrity_key.is_some() {
            return false;
        }
        match random_bytes(MASTER_KEY_LEN) {
            Ok(key) => {
                self.integrity_key = Some(key);
                true
            },
            Err(_) => false,
        }
    }

    /// Encrypt `plaintext` under `secret`: gate, tamper heuristic, then the
    /// cipher engine; a log entry is appended only on success. Once initialized
    /// and with the heuristic clear, the only possible failure is the random
    /// source.
    pub fn encrypt(&mut self, plaintext: &str, secret: &str, now: u64) -> (r: Result<
        String,
        VaultError,
    >)
        requires
            old(self).wf(),
        ensures
            final(self).wf(),
            final(self).initialized() == old(self).initialized(),
            final(self).master_key() == old(self).master_key(),
            final(self).store_map() == old(self).store_map(),
            !old(self).initialized() ==> r == Err::<String, VaultError>(VaultError::Uninitialized),
            old(self).initialized() && tampered(encode_utf8(plaintext@)) ==> r == Err::<
                String,
                VaultError,
            >(VaultError::TamperSuspected),
            r is Ok ==> old(self).initialized() && !tampered(encode_utf8(plaintext@))
                && is_encryption_of(r.unwrap()@, secret@, plaintext@) && final(self).log() == old(
                self,
            ).log().push((OpTag::Encrypt, now)),
            r is Err ==> *final(self) == *old(self),
            old(self).initialized() && !tampered(encode_utf8(plaintext@)) && r is Err ==> r
                == Err::<String, VaultError>(VaultError::RngFailure),
    {
        if !self.verify_integrity() {
            return Err(VaultError::Uninitialized);
        }
        if detect_tampering(plaintext) {
            return Err(VaultError::TamperSuspected);
        }
        match encrypt_text(plaintext, secret) {
            Ok(ct) => {
                log_request(&mut self.request_log, OpTag::Encrypt, now);
                Ok(ct)
            },
            Err(e) => Err(e),
        }
    }

    /// Decrypt a ciphertext blob under `secret`: gate, replay guard (which
    /// prunes the log even when it blocks), then the cipher engine; a log
    /// entry is appended only on success. Any honest encryption of a
    /// plaintext under the same secret decrypts to exactly that plaintext.
    pub fn decrypt(&mut self, ciphertext: &str, secret: &str, now: u64) -> (r: Result<
        String,
        VaultError,
    >)
        requires
            old(self).wf(),
        ensures
            final(self).wf(),
            final(self).initialized() == old(self).initialized(),
            final(self).master_key() == old(self).master_key(),
            final(self).store_map() == old(self).store_map(),
            !old(self).initialized() ==> r == Err::<String, VaultError>(VaultError::Uninitialized)
                && *final(self) == *old(self),
            old(self).initialized() && replay_blocked(old(self).log(), OpTag::Decrypt, now) ==> r
                == Err::<String, VaultError>(VaultError::RateLimited) && final(self).log()
                == pruned(old(self).log(), now),
            old(self).initialized() && !replay_blocked(old(self).log(), OpTag::Decrypt, now)
                ==> (forall|p: Seq<char>|
                is_encryption_of(ciphertext@, secret@, p) ==> r is Ok && r.unwrap()@ == p),
            old(self).initialized() && !replay_blocked(old(self).log(), OpTag::Decrypt, now) && r
                is Ok ==> final(self).log() == pruned(old(self).log(), now).push(
                (OpTag::Decrypt, now),
            ),
            old(self).initialized() && !replay_blocked(old(self).log(), OpTag::Decrypt, now) && r
                is Err ==> final(self).log() == pruned(old(self).log(), now) && (r.unwrap_err()
                == VaultError::FormatError || r.unwrap_err() == VaultError::AuthError
                || r.unwrap_err() == VaultError::EncodingError),
    {
        if !self.verify_integrity() {
            return Err(VaultError::Uninitialized);
        }
        if detect_replay_attack(&mut self.request_log, OpTag::Decrypt, now) {
            return Err(VaultError::RateLimited);
        }
        match decrypt_text(ciphertext, secret) {
            Ok(pt) => {
                log_request(&mut self.request_log, OpTag::Decrypt, now);
                Ok(pt)
            },
            Err(e) => Err(e),
        }
    }

    /// Sign `data` bound to `timestamp` under `secret`: gate, freshness
    /// check, then the keyed digest; a log entry is appended on success.
    /// Succeeds exactly when the vault is initialized and the timestamp lies within
    /// 300 seconds of `now`.
    pub fn sign(&mut self, data: &str, timestamp: i64, secret: &str, now: u64) -> (r: Result<
        String,
        VaultError,
    >)
        requires
            old(self).wf(),
        ensures
            final(self).wf(),
            final(self).initialized() == old(self).initialized(),
            final(self).master_key() == old(self).master_key(),
            final(self).store_map() == old(self).store_map(),
            !old(self).initialized() ==> r == Err::<String, VaultError>(VaultError::Uninitialized),
            old(self).initialized() && !timestamp_fresh(timestamp, now) ==> r == Err::<
                String,
                VaultError,
            >(VaultError::TimestampExpired),
            old(self).initialized() && timestamp_fresh(timestamp, now) ==> r is Ok
                && r.unwrap()@ == b64_of(
                hmac_sha256_of(
                    derived_key(encode_utf8(secret@)),
                    signed_message(data@, timestamp),
                ),
            ) && final(self).log() == old(self).log().push((OpTag::Sign, now)),
            r is Err ==> *final(self) == *old(self),
    {
        if !self.verify_integrity() {
            return Err(VaultError::Uninitialized);
        }
        if !verify_timestamp(timestamp, now) {
            return Err(VaultError::TimestampExpired);
        }
        let sig = sign_text(data, timestamp, secret);
        log_request(&mut self.request_log, OpTag::Sign, now);
        Ok(sig)
    }

    /// Produce a fresh random 32-byte value encoded as text, for external
    /// use as a secret; the vault never stores it. Gated; a log entry is
    /// appended on success.
    pub fn generate_key(&mut self, now: u64) -> (r: Result<String, VaultError>)
        requires
            old(self).wf(),
        ensures
            final(self).wf(),
            final(self).initialized() == old(self).initialized(),
            final(self).master_key() == old(self).master_key(),
            final(self).store_map() == old(self).store_map(),
            !old(self).initialized() ==> r == Err::<String, VaultError>(VaultError::Uninitialized),
            r is Ok ==> old(self).initialized() && (exists|b: Seq<u8>|
                b.len() == MASTER_KEY_LEN && r.unwrap()@ == #[trigger] b64_of(b))
                && final(self).log() == old(self).log().push((OpTag::Generate, now)),
            r is Err ==> *final(self) == *old(self),
            old(self).initialized() && r is Err ==> r == Err::<String, VaultError>(
                VaultError::RngFailure,
            ),
    {
        if !self.verify_integrity() {
            return Err(VaultError::Uninitialized);
        }
        let key_bytes = match random_bytes(MASTER_KEY_LEN) {
            Ok(b) => b,
            Err(e) => {
                return Err(e);
            },
        };
        let text = b64_encode(key_bytes.as_slice());
        log_request(&mut self.request_log, OpTag::Generate, now);
        Ok(text)
    }

    /// Find the store entry that carries `key`, if any.
    fn find_entry(&self, key: &String) -> (r: Option<usize>)
        requires
            self.wf(),
        ensures
            match r {
                Some(i) => i < self.storage@.len() && self.storage@[i as int].0@ == key@
                    && self.store_map().contains_key(key@) && self.store_map()[key@]
                    == self.storage@[i as int].1@ && (forall|j: int|
                    0 <= j < self.storage@.len() && j != i ==> (#[trigger] self.storage@[j]).0@
                        != key@),
                None => !self.store_map().contains_key(key@) && (forall|j: int|
                    0 <= j < self.storage@.len() ==> (#[trigger] self.storage@[j]).0@ != key@),
            },
    {
        let mut i: usize = 0;
        while i < self.storage.len()
            invariant
                self.wf(),
                i <= self.storage@.len(),
                forall|j: int| 0 <= j < i ==> (#[trigger] self.storage@[j]).0@ != key@,
            decreases self.storage@.len() - i,
        {
            if self.storage[i].0 == *key {
                proof {
                    lemma_assoc_map_index(self.storage@, i as int);
                }
                return Some(i);
            }
            i = i + 1;
        }
        proof {
            lemma_assoc_map_contains(self.storage@, key@);
        }
        None
    }

    /// Store `value` under `key`: the value is encrypted by the cipher
    /// engine with the master key's text as the secret, and the mapping is
    /// inserted or overwritten. False only when the vault is uninitialized or
    /// encryption fails, in which case nothing changes.
    pub fn store_key(&mut self, key: &str, value: &str, now: u64) -> (r: bool)
        requires
            old(self).wf(),
        ensures
            final(self).wf(),
            final(self).initialized() == old(self).initialized(),
            final(self).master_key() == old(self).master_key(),
            !old(self).initialized() ==> !r,
            !r ==> *final(self) == *old(self),
            r ==> old(self).initialized() && final(self).store_map().contains_key(key@)
                && is_encryption_of(
                final(self).store_map()[key@],
                old(self).master_secret(),
                value@,
            ) && final(self).store_map() == old(self).store_map().insert(
                key@,
                final(self).store_map()[key@],
            ) && final(self).log() == old(self).log().push((OpTag::Store, now)),
    {
        if !self.verify_integrity() {
            return false;
        }
        let secret = self.master_secret_text();
        let encrypted = match encrypt_text(value, secret.as_str()) {
            Ok(v) => v,
            Err(_) => {
                return false;
            },
        };
        let k: String = key.to_owned();
        let ghost store0 = self.storage@;
        match self.find_entry(&k) {
            Some(i) => {
                self.storage.remove(i);
                proof {
                    lemma_assoc_map_remove(store0, i as int);
                }
            },
            None => {},
        }
        let ghost store1 = self.storage@;
        self.storage.push((k, encrypted));
        proof {
            assert(self.storage@.drop_last() =~= store1);
            assert(self.storage@.last() == (self.storage@[store1.len() as int]));
            assert(assoc_map(self.storage@) == assoc_map(store1).insert(key@, encrypted@));
            assert(assoc_map(self.storage@) =~= assoc_map(store0).insert(key@, encrypted@));
            assert forall|a: int, b: int|
                0 <= a < b < self.storage@.len() implies (#[trigger] self.storage@[a]).0@
                != (#[trigger] self.storage@[b]).0@ by {
                if b == self.storage@.len() - 1 {
                    assert(self.storage@[a] == store1[a]);
                }
            }
        }
        log_request(&mut self.request_log, OpTag::Store, now);
        true
    }

    /// Look the key up and decrypt the stored ciphertext under the master
    /// key. A missing key is `NotFound`; what `store_key` stored comes back
    /// as exactly the value that was stored.
    pub fn get_key(&mut self, key: &str, now: u64) -> (r: Result<String, VaultError>)
        requires
            old(self).wf(),
        ensures
            final(self).wf(),
            final(self).initialized() == old(self).initialized(),
            final(self).master_key() == old(self).master_key(),
            final(self).store_map() == old(self).store_map(),
            !old(self).initialized() ==> r == Err::<String, VaultError>(VaultError::Uninitialized),
            old(self).initialized() && !old(self).store_map().contains_key(key@) ==> r == Err::<
                String,
                VaultError,
            >(VaultError::NotFound),
            old(self).initialized() && old(self).store_map().contains_key(key@) ==> (forall|
                v: Seq<char>,
            |
                is_encryption_of(old(self).store_map()[key@], old(self).master_secret(), v) ==> r
                    is Ok && r.unwrap()@ == v),
            r is Ok ==> old(self).initialized() && final(self).log() == old(self).log().push(
                (OpTag::Get, now),
            ),
            r is Err ==> *final(self) == *old(self),
            old(self).initialized() && old(self).store_map().contains_key(key@) && r is Err ==> (
            r.unwrap_err() == VaultError::FormatError || r.unwrap_err() == VaultError::AuthError
                || r.unwrap_err() == VaultError::EncodingError),
    {
        if !self.verify_integrity() {
            return Err(VaultError::Uninitialized);
        }
        let secret = self.master_secret_text();
        let k: String = key.to_owned();
        let i = match self.find_entry(&k) {
            Some(i) => i,
            None => {
                return Err(VaultError::NotFound);
            },
        };
        let blob = self.storage[i].1.clone();
        match decrypt_text(blob.as_str(), secret.as_str()) {
            Ok(value) => {
                log_request(&mut self.request_log, OpTag::Get, now);
                Ok(value)
            },
            Err(e) => Err(e),
        }
    }

    /// Delete the entry for `key`: true exactly when the key was present,
    /// in which case the mapping is gone and a log entry is appended; false
    /// on an uninitialized vault, an empty store or an absent key, changing nothing.
    pub fn remove_key(&mut self, key: &str, now: u64) -> (r: bool)
        requires
            old(self).wf(),
        ensures
            final(self).wf(),
            final(self).initialized() == old(self).initialized(),
            final(self).master_key() == old(self).master_key(),
            !old(self).initialized() ==> !r,
            old(self).initialized() ==> r == old(self).store_map().contains_key(key@),
            !r ==> *final(self) == *old(self),
            r ==> final(self).store_map() == old(self).store_map().remove(key@)
                && final(self).log() == old(self).log().push((OpTag::Remove, now)),
    {
        if !self.verify_integrity() {
            return false;
        }
        let k: String = key.to_owned();
        let ghost store0 = self.storage@;
        match self.find_entry(&k) {
            Some(i) => {
                self.storage.remove(i);
                proof {
                    lemma_assoc_map_remove(store0, i as int);
                    assert(keys_unique(self.storage@)) by {
                        assert forall|a: int, b: int|
                            0 <= a < b < self.storage@.len() implies (#[trigger] self.storage@[
                        a]).0@ != (#[trigger] self.storage@[b]).0@ by {
                            let a0 = if a < i { a } else { a + 1 };
                            let b0 = if b < i { b } else { b + 1 };
                            assert(self.storage@[a] == store0[a0]);
                            assert(self.storage@[b] == store0[b0]);
                        }
                    }
                }
                log_request(&mut self.request_log, OpTag::Remove, now);
                true
            },
            None => false,
        }
    }

    /// The master key as text, for the encrypted store's use as a secret.
    fn master_secret_text(&self) -> (r: String)
        requires
            self.initialized(),
        ensures
            r@ == self.master_secret(),
    {
        match &self.integrity_key {
            Some(key) => b64_encode(key.as_slice()),
            None => unreached(),
        }
    }
}

} // verus!
