//! Tamper-content heuristic: flags plaintext that contains any of a fixed
//! blacklist of substrings, or that is longer than 1,000,000 bytes. Applied on
//! the encryption path before any cryptographic work. A best-effort abuse
//! signal, not a security boundary.
use vstd::prelude::*;

verus! {

use vstd::string::StringSliceAdditionalSpecFns;
use vstd::utf8::encode_utf8;

/// The byte length above which content is flagged.
pub const MAX_CONTENT_LEN: usize = 1_000_000;

/// `needle` occurs as a contiguous subrange of `hay`.
pub open spec fn has_substring(hay: Seq<u8>, needle: Seq<u8>) -> bool {
    exists|i: int| 0 <= i && i + needle.len() <= hay.len() && #[trigger] hay.subrange(i, i + needle.len()) == needle
}

/// The tamper heuristic on a byte sequence: one of the blacklisted substrings
/// occurs, or the content is over the length cap.
pub open spec fn tampered(data: Seq<u8>) -> bool {
    ||| has_substring(data, encode_utf8("<script>"@))
    ||| has_substring(data, encode_utf8("javascript:"@))
    ||| has_substring(data, encode_utf8("eval("@))
    ||| data.len() > MAX_CONTENT_LEN
}

/// Whether `needle` occurs in `hay` starting at position `i`.
fn matches_at(hay: &[u8], needle: &[u8], i: usize) -> (r: bool)
    requires
        i + needle@.len() <= hay@.len(),
    ensures
        r == (hay@.subrange(i as int, i + needle@.len()) == needle@),
{
    let hay_len: usize = hay.len();
    let mut j: usize = 0;
    while j < needle.len()
        invariant
            j <= needle@.len(),
            i + needle@.len() <= hay@.len(),
            hay@.len() == hay_len,
            forall|k: int| 0 <= k < j ==> hay@[i + k] == needle@[k],
        decreases needle@.len() - j,
    {
        if hay[i + j] != needle[j] {
            proof {
                assert(hay@.subrange(i as int, i + needle@.len())[j as int] != needle@[j as int]);
            }
            return false;
        }
        j = j + 1;
    }
    proof {
        assert(hay@.subrange(i as int, i + needle@.len()) =~= needle@);
    }
    true
}

/// Verified substring search over bytes.
fn contains_sub(hay: &[u8], needle: &[u8]) -> (r: bool)
    ensures
        r == has_substring(hay@, needle@),
{
    if needle.len() == 0 {
        proof {
            let n = needle@.len() as int;
            assert(hay@.subrange(0, 0 + n) =~= needle@);
            assert(has_substring(hay@, needle@));
        }
        return true;
    }
    if needle.len() > hay.len() {
        return false;
    }
    let hay_len: usize = hay.len();
    let end: usize = hay_len - needle.len();
    let mut i: usize = 0;
    while i <= end
        invariant
            i <= end + 1,
            1 <= needle@.len(),
            hay@.len() == hay_len,
            end == hay@.len() - needle@.len(),
            forall|k: int| 0 <= k < i ==> #[trigger] hay@.subrange(k, k + needle@.len()) != needle@,
        decreases end + 1 - i,
    {
        if matches_at(hay, needle, i) {
            return true;
        }
        i = i + 1;
    }
    false
}

/// The tamper-content heuristic of the encryption path: true when the text
/// holds `<script>`, `javascript:` or `eval(`, or is over 1,000,000 bytes.
pub fn detect_tampering(data: &str) -> (r: bool)
    ensures
        r == tampered(data.spec_bytes()),
{
    let bytes: &[u8] = data.as_bytes();
    contains_sub(bytes, "<script>".as_bytes())
        || contains_sub(bytes, "javascript:".as_bytes())
        || contains_sub(bytes, "eval(".as_bytes())
        || bytes.len() > MAX_CONTENT_LEN
}

} // verus!
