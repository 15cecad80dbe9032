use myluks::accounts::{Accounts, PublicKey};
use myluks::security::Security;
use myluks::validate_transaction::{ValidateTransaction, ValidationError};
use sha2::Digest;

fn test_secret_key() -> secp256k1::SecretKey {
    secp256k1::SecretKey::from_byte_array([0x22; 32]).unwrap()
}

fn sign_hex(sk: &secp256k1::SecretKey, message: &[u8]) -> String {
    let digest: [u8; 32] = sha2::Sha256::digest(message).as_slice().try_into().unwrap();
    let m = secp256k1::Message::from_digest(digest);
    hex::encode(sk.sign_ecdsa(m).serialize_compact())
}

/// A ledger with alice (50 coins) and bob (10 coins), and alice's real
/// public key on file with the security state.
fn setup() -> (Accounts, Security, secp256k1::SecretKey) {
    let mut accounts = Accounts::new(5);
    let sk = test_secret_key();
    let pk = sk.public_key();
    accounts
        .create_account(String::from("alice"), 50, PublicKey { value: pk.serialize().to_vec() })
        .unwrap();
    accounts
        .create_account(String::from("bob"), 10, PublicKey { value: vec![1] })
        .unwrap();
    let mut security = Security::new();
    security
        .add_keys(String::from("alice"), pk.serialize().to_vec(), vec![9])
        .unwrap();
    (accounts, security, sk)
}

#[test]
fn valid_transfer_is_accepted() {
    let (accounts, security, sk) = setup();
    let signature = sign_hex(&sk, b"alice-bob-5");
    let vt = ValidateTransaction::new(security);
    let r = vt.validate_transaction(
        &accounts,
        &String::from("alice"),
        &String::from("bob"),
        5,
        &signature,
    );
    assert_eq!(r, Ok(true));
}

#[test]
fn amount_over_cap_is_rejected_first() {
    let (accounts, security, _sk) = setup();
    let vt = ValidateTransaction::new(security);
    let r = vt.validate_transaction(
        &accounts,
        &String::from("alice"),
        &String::from("bob"),
        10_001,
        &String::from("00"),
    );
    assert_eq!(r, Err(ValidationError::ExceedsMaxAmount));
}

#[test]
fn missing_sender_is_invalid_recipient() {
    let (accounts, security, _sk) = setup();
    let vt = ValidateTransaction::new(security);
    let r = vt.validate_transaction(
        &accounts,
        &String::from("carol"),
        &String::from("bob"),
        5,
        &String::from("00"),
    );
    assert_eq!(r, Err(ValidationError::InvalidRecipient));
}

#[test]
fn locked_sender_is_rejected() {
    let (mut accounts, security, sk) = setup();
    accounts.lock_account(&String::from("alice")).unwrap();
    let signature = sign_hex(&sk, b"alice-bob-5");
    let vt = ValidateTransaction::new(security);
    let r = vt.validate_transaction(
        &accounts,
        &String::from("alice"),
        &String::from("bob"),
        5,
        &signature,
    );
    assert_eq!(r, Err(ValidationError::SenderAccountLocked));
}

#[test]
fn insufficient_balance_is_rejected() {
    let (accounts, security, sk) = setup();
    let signature = sign_hex(&sk, b"alice-bob-51");
    let vt = ValidateTransaction::new(security);
    let r = vt.validate_transaction(
        &accounts,
        &String::from("alice"),
        &String::from("bob"),
        51,
        &signature,
    );
    assert_eq!(r, Err(ValidationError::InsufficientSenderBalance));
}

#[test]
fn missing_recipient_is_rejected() {
    let (accounts, security, sk) = setup();
    let signature = sign_hex(&sk, b"alice-carol-5");
    let vt = ValidateTransaction::new(security);
    let r = vt.validate_transaction(
        &accounts,
        &String::from("alice"),
        &String::from("carol"),
        5,
        &signature,
    );
    assert_eq!(r, Err(ValidationError::InvalidRecipient));
}

#[test]
fn tampered_signature_is_rejected() {
    let (accounts, security, sk) = setup();
    let signature = sign_hex(&sk, b"alice-bob-5");
    let mut bytes = signature.into_bytes();
    bytes[0] = if bytes[0] == b'0' { b'1' } else { b'0' };
    let tampered = String::from_utf8(bytes).unwrap();
    let vt = ValidateTransaction::new(security);
    let r = vt.validate_transaction(
        &accounts,
        &String::from("alice"),
        &String::from("bob"),
        5,
        &tampered,
    );
    assert_eq!(r, Err(ValidationError::InvalidSignature));
}

#[test]
fn committed_transaction_is_a_double_spend() {
    let (accounts, mut security, sk) = setup();
    let signature = sign_hex(&sk, b"alice-bob-5");
    let committed_hash = hex::encode(sha2::Sha256::digest(b"alice-bob-5"));
    security.add_processed_transaction(committed_hash).unwrap();
    let vt = ValidateTransaction::new(security);
    let r = vt.validate_transaction(
        &accounts,
        &String::from("alice"),
        &String::from("bob"),
        5,
        &signature,
    );
    assert_eq!(r, Err(ValidationError::DoubleSpend));
}

#[test]
fn transaction_hash_is_digest_of_canonical_data() {
    let security = Security::new();
    let vt = ValidateTransaction::new(security);
    let h = vt.generate_transaction_hash(&String::from("alice"), &String::from("bob"), 5);
    assert_eq!(h, hex::encode(sha2::Sha256::digest(b"alice-bob-5")));
}

#[test]
fn validation_leaves_the_processed_ledger_alone() {
    let (accounts, security, sk) = setup();
    let signature = sign_hex(&sk, b"alice-bob-5");
    let vt = ValidateTransaction::new(security);
    for _ in 0..2 {
        let r = vt.validate_transaction(
            &accounts,
            &String::from("alice"),
            &String::from("bob"),
            5,
            &signature,
        );
        assert_eq!(r, Ok(true));
    }
}
