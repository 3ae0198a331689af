use ed25519_dalek::{Signer, SigningKey};
use prover::auth::{register, requested_key, AuthError, NonceLedger, RegistrationError};
use prover::authorizer::{Authorizer, FileAuthorizer, KeySet, PublicKey};

const NOW: (i64, u32) = (1_700_000_000, 0);

fn signing_key(seed: u8) -> SigningKey {
    SigningKey::from_bytes(&[seed; 32])
}

fn public_key(sk: &SigningKey) -> PublicKey {
    PublicKey { bytes: sk.verifying_key().to_bytes() }
}

/// A ledger holding one nonce issued to `owner`, and that nonce's text.
fn ledger_with_nonce(owner: &PublicKey) -> (NonceLedger, String) {
    let mut ledger = NonceLedger::new();
    let issued = ledger.generate_nonce_with(&Authorizer::Open, owner, &[7u8; 32], NOW, 100).unwrap();
    (ledger, issued.nonce)
}

#[test]
fn test_valid_signature() {
    let sk = signing_key(1);
    let (mut ledger, nonce) = ledger_with_nonce(&public_key(&sk));
    let signature = sk.sign(nonce.as_bytes()).to_bytes();
    let result = ledger.validate_signature_at(&nonce, &signature, NOW, 100);
    assert!(result.is_ok());
}

#[test]
fn test_invalid_signature() {
    let signer = signing_key(2);
    let false_key = public_key(&signing_key(3));
    let (mut ledger, nonce) = ledger_with_nonce(&false_key);
    let signature = signer.sign(nonce.as_bytes()).to_bytes();
    let result = ledger.validate_signature_at(&nonce, &signature, NOW, 100);
    assert!(result.is_err());
    if let Err(e) = result {
        assert_eq!(e.message().to_string(), "Signature is invalid".to_string());
    } else {
        panic!("Unexpected error type");
    }
}

#[test]
fn test_nonce_not_found() {
    let sk = signing_key(4);
    let mut ledger = NonceLedger::new();
    let nonce = format!("0x{}", hex::encode([7u8; 32]));
    let signature = sk.sign(nonce.as_bytes()).to_bytes();
    let result = ledger.validate_signature_at(&nonce, &signature, NOW, 100);
    let _error = match result {
        Err(AuthError::NonceNotFound) => AuthError::NonceNotFound.message(),
        _ => panic!("Unexpected result"),
    };
}

#[test]
fn test_missing_signature() {
    let sk = signing_key(5);
    let (mut ledger, nonce) = ledger_with_nonce(&public_key(&sk));
    let result = ledger.validate_signature_at(&nonce, &[0u8; 64], NOW, 100);
    assert!(result.is_err());
    if let Err(e) = result {
        assert_eq!(e.message().to_string(), "Signature is invalid".to_string());
    } else {
        panic!("Unexpected error type");
    }
}

#[test]
fn issued_nonce_is_prefixed_hex_of_its_bytes() {
    let sk = signing_key(6);
    let (_ledger, nonce) = ledger_with_nonce(&public_key(&sk));
    assert_eq!(nonce, format!("0x{}", "07".repeat(32)));
}

#[test]
fn nonce_validates_only_once() {
    let sk = signing_key(7);
    let (mut ledger, nonce) = ledger_with_nonce(&public_key(&sk));
    let signature = sk.sign(nonce.as_bytes()).to_bytes();
    let claims = ledger.validate_signature_at(&nonce, &signature, NOW, 3600).unwrap();
    assert_eq!(claims.subject, format!("0x{}", hex::encode(sk.verifying_key().to_bytes())));
    assert_eq!(claims.expiration, 1_700_003_600);
    let again = ledger.validate_signature_at(&nonce, &signature, NOW, 3600);
    assert!(matches!(again, Err(AuthError::NonceNotFound)));
}

#[test]
fn failed_validation_keeps_the_nonce() {
    let sk = signing_key(8);
    let (mut ledger, nonce) = ledger_with_nonce(&public_key(&sk));
    assert!(matches!(ledger.validate_signature_at(&nonce, &[0u8; 64], NOW, 10), Err(AuthError::InvalidSignature)));
    let signature = sk.sign(nonce.as_bytes()).to_bytes();
    assert!(ledger.validate_signature_at(&nonce, &signature, NOW, 10).is_ok());
}

#[test]
fn expired_nonce_is_not_found() {
    let sk = signing_key(9);
    let (mut ledger, nonce) = ledger_with_nonce(&public_key(&sk));
    let signature = sk.sign(nonce.as_bytes()).to_bytes();
    let late = (NOW.0 + 100, 0);
    assert!(matches!(ledger.validate_signature_at(&nonce, &signature, late, 10), Err(AuthError::NonceNotFound)));
    let just_in_time = (NOW.0 + 99, 999_999_999);
    assert!(ledger.validate_signature_at(&nonce, &signature, just_in_time, 10).is_ok());
}

#[test]
fn unauthorized_key_gets_no_nonce() {
    let mut ledger = NonceLedger::new();
    let store = Authorizer::Memory(KeySet::new());
    let key = public_key(&signing_key(10));
    let r = ledger.generate_nonce_with(&store, &key, &[1u8; 32], NOW, 100);
    assert!(matches!(r, Err(AuthError::Unauthorized)));
}

#[test]
fn random_nonces_differ() {
    let key = public_key(&signing_key(11));
    let mut ledger = NonceLedger::new();
    let a = ledger.generate_nonce(&Authorizer::Open, &key, 60).unwrap();
    let b = ledger.generate_nonce(&Authorizer::Open, &key, 60).unwrap();
    assert_eq!(a.nonce.len(), 66);
    assert_ne!(a.nonce, b.nonce);
    assert_eq!(a.expiration, 60);
}

#[test]
fn admin_registers_a_key() {
    let admin = signing_key(12);
    let new_key = public_key(&signing_key(13));
    let mut store = Authorizer::Memory(KeySet::new());
    let signature = admin.sign(&new_key.bytes).to_bytes();
    let r = register(&vec![public_key(&admin)], &mut store, &public_key(&admin), new_key, &signature);
    assert_eq!(r, Ok(None));
    assert!(store.is_key_authorized(&new_key));
}

#[test]
fn registration_by_a_non_admin_is_refused() {
    let admin = signing_key(14);
    let other = signing_key(15);
    let new_key = public_key(&signing_key(16));
    let mut store = Authorizer::Memory(KeySet::new());
    let signature = other.sign(&new_key.bytes).to_bytes();
    let r = register(&vec![public_key(&admin)], &mut store, &public_key(&other), new_key, &signature);
    assert_eq!(r, Err(RegistrationError::Unauthorized));
    assert!(!store.is_key_authorized(&new_key));
}

#[test]
fn registration_with_a_bad_signature_is_refused() {
    let admin = signing_key(17);
    let new_key = public_key(&signing_key(18));
    let mut store = Authorizer::Memory(KeySet::new());
    let signature = admin.sign(b"something else").to_bytes();
    let r = register(&vec![public_key(&admin)], &mut store, &public_key(&admin), new_key, &signature);
    assert_eq!(r, Err(RegistrationError::InvalidSignature));
}

#[test]
fn registration_writes_the_key_file() {
    let admin = signing_key(19);
    let new_key = public_key(&signing_key(20));
    let file = FileAuthorizer::load("keys.json".to_string(), "[]").unwrap();
    let mut store = Authorizer::Persistent(file);
    let signature = admin.sign(&new_key.bytes).to_bytes();
    let r = register(&vec![public_key(&admin)], &mut store, &public_key(&admin), new_key, &signature);
    let expected = format!("[\"0x{}\"]", hex::encode(new_key.bytes));
    assert_eq!(r, Ok(Some(expected)));
}

#[test]
fn nonce_request_key_text() {
    assert!(matches!(requested_key("   "), Err(AuthError::EmptyPublicKey)));
    assert!(matches!(requested_key(""), Err(AuthError::EmptyPublicKey)));
    assert!(matches!(requested_key("0x12"), Err(AuthError::Unauthorized)));
    let sk = signing_key(21);
    let text = format!("0x{}", hex::encode(sk.verifying_key().to_bytes()));
    assert_eq!(requested_key(&text).unwrap().bytes, sk.verifying_key().to_bytes());
}
