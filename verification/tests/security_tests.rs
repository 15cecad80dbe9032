use myluks::security::{Security, SecurityError};
use sha2::Digest;

fn test_secret_key() -> secp256k1::SecretKey {
    secp256k1::SecretKey::from_byte_array([0x11; 32]).unwrap()
}

fn sign_hex(sk: &secp256k1::SecretKey, message: &[u8]) -> String {
    let digest: [u8; 32] = sha2::Sha256::digest(message).as_slice().try_into().unwrap();
    let m = secp256k1::Message::from_digest(digest);
    hex::encode(sk.sign_ecdsa(m).serialize_compact())
}

#[test]
fn hash_matches_known_sha256() {
    let security = Security::new();
    let digest = security.hash(&String::from("abc"));
    assert_eq!(
        digest,
        String::from("ba7816bf8f01cfea414140de5dae2223b00361a396177a9cb410ff61f20015ad")
    );
}

#[test]
fn verify_hash_accepts_and_rejects() {
    assert!(Security::verify_hash(
        "abc",
        "ba7816bf8f01cfea414140de5dae2223b00361a396177a9cb410ff61f20015ad"
    ));
    assert!(!Security::verify_hash("abc", "ba7816"));
}

#[test]
fn processed_ledger_is_write_once() {
    let mut security = Security::new();
    let h = String::from("deadbeef");
    assert!(!security.has_transaction_been_processed(&h));
    assert!(security.add_processed_transaction(h.clone()).is_ok());
    assert!(security.has_transaction_been_processed(&h));
    assert_eq!(
        security.add_processed_transaction(h.clone()),
        Err(SecurityError::TransactionAlreadyProcessed)
    );
    assert!(security.has_transaction_been_processed(&h));
}

#[test]
fn add_keys_rejects_empty_material() {
    let mut security = Security::new();
    assert_eq!(
        security.add_keys(String::from("alice"), vec![], vec![1]),
        Err(SecurityError::InvalidKey)
    );
    assert_eq!(
        security.add_keys(String::from("alice"), vec![1], vec![]),
        Err(SecurityError::InvalidKey)
    );
    assert!(security.add_keys(String::from("alice"), vec![1], vec![2]).is_ok());
}

#[test]
fn sign_requires_a_key_and_is_deterministic() {
    let mut security = Security::new();
    let alice = String::from("alice");
    let data = String::from("abc");
    assert_eq!(security.sign(&alice, &data), Err(SecurityError::KeyNotFound));
    let sk = test_secret_key();
    security
        .add_keys(alice.clone(), sk.public_key().serialize().to_vec(), sk.secret_bytes().to_vec())
        .unwrap();
    let first = security.sign(&alice, &data).unwrap();
    let second = security.sign(&alice, &data).unwrap();
    assert_eq!(first, second);
    assert_eq!(first, sign_hex(&sk, data.as_bytes()));
}

#[test]
fn sign_then_validate_round_trip() {
    let mut security = Security::new();
    let alice = String::from("alice");
    let sk = test_secret_key();
    security
        .add_keys(alice.clone(), sk.public_key().serialize().to_vec(), sk.secret_bytes().to_vec())
        .unwrap();
    let data = String::from("pay bob 5");
    let signature = security.sign(&alice, &data).unwrap();
    assert_eq!(security.validate_signature(&alice, &data, &signature), Ok(true));
}

#[test]
fn unusable_key_material_fails_to_sign() {
    let mut security = Security::new();
    let alice = String::from("alice");
    // 32 zero bytes are not a valid secret scalar, and 5 bytes are too short.
    security.add_keys(alice.clone(), vec![1], vec![0; 32]).unwrap();
    assert_eq!(
        security.sign(&alice, &String::from("abc")),
        Err(SecurityError::FailedToSign)
    );
    security.add_keys(alice.clone(), vec![1], vec![7; 5]).unwrap();
    assert_eq!(
        security.sign(&alice, &String::from("abc")),
        Err(SecurityError::FailedToSign)
    );
}

#[test]
fn validate_signature_accepts_a_real_signature() {
    let mut security = Security::new();
    let alice = String::from("alice");
    let sk = test_secret_key();
    let pk = sk.public_key();
    security.add_keys(alice.clone(), pk.serialize().to_vec(), vec![7]).unwrap();
    let data = String::from("pay bob 5");
    let signature = sign_hex(&sk, data.as_bytes());
    assert_eq!(security.validate_signature(&alice, &data, &signature), Ok(true));
}

#[test]
fn validate_signature_rejects_a_tampered_signature() {
    let mut security = Security::new();
    let alice = String::from("alice");
    let sk = test_secret_key();
    let pk = sk.public_key();
    security.add_keys(alice.clone(), pk.serialize().to_vec(), vec![7]).unwrap();
    let data = String::from("pay bob 5");
    let signature = sign_hex(&sk, data.as_bytes());
    let mut bytes = signature.into_bytes();
    bytes[0] = if bytes[0] == b'0' { b'1' } else { b'0' };
    let tampered = String::from_utf8(bytes).unwrap();
    assert_eq!(security.validate_signature(&alice, &data, &tampered), Ok(false));
    let not_hex = String::from("zz");
    assert_eq!(security.validate_signature(&alice, &data, &not_hex), Ok(false));
}

#[test]
fn validate_signature_without_key_fails() {
    let security = Security::new();
    let alice = String::from("alice");
    assert_eq!(
        security.validate_signature(&alice, &String::from("x"), &String::from("00")),
        Err(SecurityError::KeyNotFound)
    );
}

#[test]
fn validate_transaction_checks_ledger_then_signature() {
    let mut security = Security::new();
    let alice = String::from("alice");
    let sk = test_secret_key();
    let pk = sk.public_key();
    security.add_keys(alice.clone(), pk.serialize().to_vec(), vec![7]).unwrap();
    let data = String::from("pay bob 5");
    let signature = sign_hex(&sk, data.as_bytes());
    assert_eq!(security.validate_transaction(&alice, &data, &signature), Ok(true));
    assert_eq!(
        security.validate_transaction(&alice, &data, &String::from("00")),
        Err(SecurityError::InvalidSignature)
    );
    security.add_processed_transaction(data.clone()).unwrap();
    assert_eq!(
        security.validate_transaction(&alice, &data, &signature),
        Err(SecurityError::TransactionAlreadyProcessed)
    );
}
