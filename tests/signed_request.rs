use ed25519_dalek::{Signer, SigningKey};
use prover::authorizer::{Authorizer, KeySet, PublicKey};
use prover::job::JobStore;
use prover::signed_request::{check_signed_request_at, parse_u64, signed_payload, Rejection, ReplaySet};
use sha2::Digest;

const STAMP: &str = "2024-01-01T00:00:00Z";
const STAMP_SECS: i64 = 1_704_067_200;
const BODY: &[u8] = b"{\"program\":[1,2,3]}";

fn signing_key(seed: u8) -> SigningKey {
    SigningKey::from_bytes(&[seed; 32])
}

fn store_with(sk: &SigningKey) -> Authorizer {
    let mut keys = KeySet::new();
    keys.insert(PublicKey { bytes: sk.verifying_key().to_bytes() });
    Authorizer::Memory(keys)
}

fn sign(sk: &SigningKey, body: &[u8], stamp: &str, nonce: u64) -> String {
    let value: serde_json::Value = serde_json::from_slice(body).unwrap();
    let compact = serde_json::to_vec(&value).unwrap();
    let payload = signed_payload(&compact, stamp, nonce);
    let hash = sha2::Sha256::digest(&payload);
    hex::encode(sk.sign(&hash).to_bytes())
}

fn submit(replay: &mut ReplaySet, store: &Authorizer, sig: &str, nonce: u64, stamp: &str, now: (i64, u32)) -> Result<(), Rejection> {
    let n = nonce.to_string();
    check_signed_request_at(replay, store, Some(sig), Some(&n), Some(stamp), Some(BODY), now)
}

fn status(r: Result<(), Rejection>) -> u16 {
    match r {
        Ok(()) => 202,
        Err(e) => e.status(),
    }
}

#[test]
fn payload_is_the_sorted_json_object() {
    let mut m = serde_json::Map::new();
    m.insert("data".to_string(), serde_json::from_slice::<serde_json::Value>(BODY).unwrap());
    m.insert("timestamp".to_string(), serde_json::Value::String(STAMP.to_string()));
    m.insert("nonce".to_string(), serde_json::Value::from(12345u64));
    let expected = serde_json::to_vec(&serde_json::Value::Object(m)).unwrap();
    assert_eq!(signed_payload(BODY, STAMP, 12345), expected);
    assert_eq!(
        String::from_utf8(signed_payload(b"{}", "t\"q", 0)).unwrap(),
        "{\"data\":{},\"nonce\":0,\"timestamp\":\"t\\\"q\"}"
    );
}

#[test]
fn test_replay_attack_with_same_nonce() {
    let sk = signing_key(1);
    let store = store_with(&sk);
    let mut replay = ReplaySet::new();
    let now = (STAMP_SECS + 5, 0);
    let sig = sign(&sk, BODY, STAMP, 42);
    assert_eq!(status(submit(&mut replay, &store, &sig, 42, STAMP, now)), 202, "First request should be accepted");
    assert_eq!(status(submit(&mut replay, &store, &sig, 42, STAMP, now)), 401, "Second request with the same nonce should be rejected");
    let sig2 = sign(&sk, BODY, STAMP, 43);
    assert_eq!(status(submit(&mut replay, &store, &sig2, 43, STAMP, now)), 202, "Third request with a new nonce should be accepted");
}

#[test]
fn test_different_nonce_same_timestamp() {
    let sk = signing_key(2);
    let store = store_with(&sk);
    let mut replay = ReplaySet::new();
    let now = (STAMP_SECS + 1, 0);
    let sig = sign(&sk, BODY, STAMP, 7);
    assert_eq!(status(submit(&mut replay, &store, &sig, 7, STAMP, now)), 202, "First request should be accepted");
    let sig2 = sign(&sk, BODY, STAMP, 8);
    assert_eq!(status(submit(&mut replay, &store, &sig2, 8, STAMP, now)), 202, "Second request with a different nonce but same timestamp should be accepted");
}

#[test]
fn test_outdated_timestamp_with_different_nonce() {
    let sk = signing_key(3);
    let store = store_with(&sk);
    let mut replay = ReplaySet::new();
    let sig = sign(&sk, BODY, STAMP, 1);
    assert_eq!(status(submit(&mut replay, &store, &sig, 1, STAMP, (STAMP_SECS, 0))), 202, "First request should be accepted");
    let sig2 = sign(&sk, BODY, STAMP, 2);
    let r = submit(&mut replay, &store, &sig2, 2, STAMP, (STAMP_SECS + 31, 0));
    assert_eq!(status(r), 401, "Second request with an outdated timestamp should be rejected");
    assert_eq!(r, Err(Rejection::TimestampTooOld));
}

#[test]
fn window_edge_is_exact() {
    let sk = signing_key(4);
    let store = store_with(&sk);
    let mut replay = ReplaySet::new();
    let sig = sign(&sk, BODY, STAMP, 9);
    assert_eq!(submit(&mut replay, &store, &sig, 9, STAMP, (STAMP_SECS + 30, 0)), Ok(()));
    let sig2 = sign(&sk, BODY, STAMP, 10);
    assert_eq!(submit(&mut replay, &store, &sig2, 10, STAMP, (STAMP_SECS + 30, 1)), Err(Rejection::TimestampTooOld));
}

#[test]
fn nonce_is_free_again_after_the_window() {
    let sk = signing_key(5);
    let store = store_with(&sk);
    let mut replay = ReplaySet::new();
    let sig = sign(&sk, BODY, STAMP, 11);
    assert_eq!(submit(&mut replay, &store, &sig, 11, STAMP, (STAMP_SECS - 100, 0)), Ok(()));
    assert_eq!(submit(&mut replay, &store, &sig, 11, STAMP, (STAMP_SECS - 71, 0)), Err(Rejection::NonceReused));
    assert_eq!(submit(&mut replay, &store, &sig, 11, STAMP, (STAMP_SECS - 70, 0)), Ok(()));
}

#[test]
fn unauthorized_submissions_create_no_jobs() {
    let authorized = signing_key(6);
    let intruder = signing_key(7);
    let store = store_with(&authorized);
    let mut replay = ReplaySet::new();
    let mut jobs = JobStore::new();
    let now = (STAMP_SECS, 0);
    for nonce in [100u64, 101] {
        let sig = sign(&intruder, BODY, STAMP, nonce);
        let r = submit(&mut replay, &store, &sig, nonce, STAMP, now);
        assert_eq!(status(r), 401);
        assert_eq!(r, Err(Rejection::Unauthorized));
        if r.is_ok() {
            jobs.create_job();
        }
    }
    assert_eq!(jobs.len(), 0);
}

#[test]
fn missing_and_malformed_headers_are_bad_requests() {
    let store = Authorizer::Open;
    let mut replay = ReplaySet::new();
    let now = (STAMP_SECS, 0);
    let sig = "00".repeat(64);
    let r = check_signed_request_at(&mut replay, &store, None, Some("1"), Some(STAMP), Some(BODY), now);
    assert_eq!(r, Err(Rejection::MissingSignature));
    let r = check_signed_request_at(&mut replay, &store, Some("zz"), Some("1"), Some(STAMP), Some(BODY), now);
    assert_eq!(r, Err(Rejection::InvalidSignatureFormat));
    let r = check_signed_request_at(&mut replay, &store, Some("abcd"), Some("1"), Some(STAMP), Some(BODY), now);
    assert_eq!(r, Err(Rejection::InvalidSignatureFormat));
    let r = check_signed_request_at(&mut replay, &store, Some(&sig), None, Some(STAMP), Some(BODY), now);
    assert_eq!(r, Err(Rejection::MissingNonce));
    let r = check_signed_request_at(&mut replay, &store, Some(&sig), Some("x1"), Some(STAMP), Some(BODY), now);
    assert_eq!(r, Err(Rejection::InvalidNonceFormat));
    let r = check_signed_request_at(&mut replay, &store, Some(&sig), Some("1"), None, Some(BODY), now);
    assert_eq!(r, Err(Rejection::MissingTimestamp));
    let r = check_signed_request_at(&mut replay, &store, Some(&sig), Some("1"), Some("yesterday"), Some(BODY), now);
    assert_eq!(r, Err(Rejection::InvalidTimestampFormat));
    assert_eq!(r.unwrap_err().status(), 400);
    let r = check_signed_request_at(&mut replay, &store, Some(&sig), Some("1"), Some(STAMP), None, now);
    assert_eq!(r, Err(Rejection::InvalidBody));
    let r = check_signed_request_at(&mut replay, &store, Some(&sig), Some("2"), Some(STAMP), Some(BODY), now);
    assert_eq!(r, Ok(()));
}

#[test]
fn nonce_text_reads_like_u64_from_str() {
    assert_eq!(parse_u64("0"), Some(0));
    assert_eq!(parse_u64("+17"), Some(17));
    assert_eq!(parse_u64("18446744073709551615"), Some(u64::MAX));
    assert_eq!(parse_u64("18446744073709551616"), None);
    assert_eq!(parse_u64(""), None);
    assert_eq!(parse_u64("+"), None);
    assert_eq!(parse_u64("-1"), None);
    assert_eq!(parse_u64(" 1"), None);
    assert_eq!(parse_u64("12a"), None);
}

#[test]
fn body_is_signed_in_compact_form() {
    let sk = signing_key(8);
    let store = store_with(&sk);
    let mut replay = ReplaySet::new();
    let now = (STAMP_SECS, 0);
    let loose: &[u8] = b"{ \"program\" : [1, 2, 3] }";
    let sig = sign(&sk, loose, STAMP, 300);
    let r = check_signed_request_at(&mut replay, &store, Some(&sig), Some("300"), Some(STAMP), Some(loose), now);
    assert_eq!(r, Ok(()));
    let sig2 = sign(&sk, BODY, STAMP, 301);
    let r = check_signed_request_at(&mut replay, &store, Some(&sig2), Some("301"), Some(STAMP), Some(b"not json"), now);
    assert_eq!(r, Err(Rejection::InvalidBody));
}
