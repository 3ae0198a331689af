//! Signatures, digests, randomness, time and JSON text, as the library uses them.
use vstd::prelude::*;
use rand::RngCore;
use ed25519_dalek::Verifier;
use sha2::Digest;

verus! {

/// Whether 32 bytes decode to an ed25519 verifying key.
pub uninterp spec fn ed25519_key_valid(key: Seq<u8>) -> bool;

/// Whether a signature verifies over a message under a key (ed25519, permissive form).
pub uninterp spec fn ed25519_verifies(key: Seq<u8>, msg: Seq<u8>, sig: Seq<u8>) -> bool;

/// Whether a signature verifies over a message under a key (ed25519, strict form).
pub uninterp spec fn ed25519_verifies_strict(key: Seq<u8>, msg: Seq<u8>, sig: Seq<u8>) -> bool;

/// The SHA-256 digest of a byte string.
pub uninterp spec fn sha256_digest(data: Seq<u8>) -> Seq<u8>;

/// The instant that an RFC 3339 text denotes, as seconds since the Unix epoch
/// and the nanoseconds within that second; none if the text does not parse.
pub uninterp spec fn rfc3339_instant(s: Seq<char>) -> Option<(i64, u32)>;

/// The JSON text of a string: the string in quotes, with escapes.
pub uninterp spec fn json_string_literal(s: Seq<char>) -> Seq<u8>;

/// The compact JSON text (object keys in order) of the value that a byte string
/// holds as JSON; none if it holds no JSON value.
pub uninterp spec fn json_compact(b: Seq<u8>) -> Option<Seq<u8>>;

/// The list of strings that a JSON text holds, if it is a JSON array of strings.
pub uninterp spec fn json_string_list(s: Seq<char>) -> Option<Seq<Seq<char>>>;

/// The JSON text of a list of strings.
pub uninterp spec fn json_of_string_list(l: Seq<Seq<char>>) -> Seq<char>;

/// Relies on ed25519_dalek::VerifyingKey::from_bytes: whether the bytes are a key.
#[verifier::external_body]
pub(crate) fn key_is_valid(key: &[u8; 32]) -> (r: bool)
    ensures
        r == ed25519_key_valid(key@),
{
    ed25519_dalek::VerifyingKey::from_bytes(key).is_ok()
}

/// Relies on ed25519_dalek's `Verifier::verify` for `VerifyingKey`; bytes that are no
/// key verify nothing.
#[verifier::external_body]
pub(crate) fn signature_verifies(key: &[u8; 32], msg: &[u8], sig: &[u8; 64]) -> (r: bool)
    ensures
        r == (ed25519_key_valid(key@) && ed25519_verifies(key@, msg@, sig@)),
{
    match ed25519_dalek::VerifyingKey::from_bytes(key) {
        Ok(k) => k.verify(msg, &ed25519_dalek::Signature::from_bytes(sig)).is_ok(),
        Err(_) => false,
    }
}

/// Relies on ed25519_dalek::VerifyingKey::verify_strict; bytes that are no key verify
/// nothing.
#[verifier::external_body]
pub(crate) fn signature_verifies_strict(key: &[u8; 32], msg: &[u8], sig: &[u8; 64]) -> (r: bool)
    ensures
        r == (ed25519_key_valid(key@) && ed25519_verifies_strict(key@, msg@, sig@)),
{
    match ed25519_dalek::VerifyingKey::from_bytes(key) {
        Ok(k) => k.verify_strict(msg, &ed25519_dalek::Signature::from_bytes(sig)).is_ok(),
        Err(_) => false,
    }
}

/// Relies on sha2::Sha256::digest: a 32-byte digest that depends on the data alone.
#[verifier::external_body]
pub(crate) fn sha256(data: &[u8]) -> (r: Vec<u8>)
    ensures
        r@ == sha256_digest(data@),
        r@.len() == 32,
{
    sha2::Sha256::digest(data).to_vec()
}

/// Relies on rand's thread-local generator (`RngCore::fill_bytes`): 32 random bytes.
/// Nothing is promised of them.
#[verifier::external_body]
pub(crate) fn random_bytes() -> (r: [u8; 32]) {
    let mut bytes = [0u8; 32];
    rand::thread_rng().fill_bytes(&mut bytes);
    bytes
}

/// Relies on chrono's parse of `DateTime<Utc>` from RFC 3339 text, read back as
/// `timestamp` and `timestamp_subsec_nanos`.
#[verifier::external_body]
pub(crate) fn parse_rfc3339(s: &str) -> (r: Option<(i64, u32)>)
    ensures
        r == rfc3339_instant(s@),
{
    s.parse::<chrono::DateTime<chrono::Utc>>().ok().map(|t| (t.timestamp(), t.timestamp_subsec_nanos()))
}

/// Relies on chrono::Utc::now, read back as `timestamp` and `timestamp_subsec_nanos`.
/// Nothing is promised of the instant.
#[verifier::external_body]
pub(crate) fn clock_now() -> (r: (i64, u32)) {
    let t = chrono::Utc::now();
    (t.timestamp(), t.timestamp_subsec_nanos())
}

/// Relies on serde_json::to_vec of a `&str`: the quoted, escaped string. Writing a
/// string into a `Vec` does not fail.
#[verifier::external_body]
pub(crate) fn json_quote(s: &str) -> (r: Option<Vec<u8>>)
    ensures
        r.is_some(),
        r.unwrap()@ == json_string_literal(s@),
{
    serde_json::to_vec(s).ok()
}

pub open spec fn strings_view(v: Seq<String>) -> Seq<Seq<char>> {
    v.map_values(|s: String| s@)
}

/// Relies on serde_json::from_str into `Vec<String>`.
#[verifier::external_body]
pub(crate) fn parse_string_list(s: &str) -> (r: Option<Vec<String>>)
    ensures
        match r {
            Some(v) => json_string_list(s@) == Some(strings_view(v@)),
            None => json_string_list(s@).is_none(),
        },
{
    serde_json::from_str::<Vec<String>>(s).ok()
}

/// Relies on serde_json::to_string of a `Vec<String>`, which does not fail.
#[verifier::external_body]
pub(crate) fn render_string_list(v: &Vec<String>) -> (r: Option<String>)
    ensures
        r.is_some(),
        r.unwrap()@ == json_of_string_list(strings_view(v@)),
{
    serde_json::to_string(v).ok()
}

/// Relies on serde_json::from_slice into `serde_json::Value`, then serde_json::to_vec
/// of that value, which does not fail.
#[verifier::external_body]
pub(crate) fn compact_json(b: &[u8]) -> (r: Option<Vec<u8>>)
    ensures
        match r {
            Some(c) => json_compact(b@) == Some(c@),
            None => json_compact(b@).is_none(),
        },
{
    match serde_json::from_slice::<serde_json::Value>(b) {
        Ok(v) => serde_json::to_vec(&v).ok(),
        Err(_) => None,
    }
}

} // verus!
