use myluks::accounts::{AccountError, Accounts, PublicKey, TransactionHistory};

fn key(bytes: &[u8]) -> PublicKey {
    PublicKey { value: bytes.to_vec() }
}

#[test]
fn create_and_get_balance() {
    let mut accounts = Accounts::new(5);
    let alice = String::from("alice");
    assert!(accounts.create_account(alice.clone(), 100, key(&[1, 2, 3])).is_ok());
    assert_eq!(accounts.get_balance(&alice), Ok(100));
    assert!(accounts.account_exists(&alice));
}

#[test]
fn create_duplicate_account_rejected() {
    let mut accounts = Accounts::new(5);
    let alice = String::from("alice");
    assert!(accounts.create_account(alice.clone(), 100, key(&[1])).is_ok());
    assert_eq!(
        accounts.create_account(alice.clone(), 7, key(&[2])),
        Err(AccountError::AccountAlreadyExists)
    );
    assert_eq!(accounts.get_balance(&alice), Ok(100));
}

#[test]
fn get_balance_of_missing_account() {
    let accounts = Accounts::new(5);
    let ghost_id = String::from("nobody");
    assert_eq!(accounts.get_balance(&ghost_id), Err(AccountError::AccountNotFound));
}

#[test]
fn adjust_balance_exact_values() {
    let mut accounts = Accounts::new(5);
    let alice = String::from("alice");
    accounts.create_account(alice.clone(), 100, key(&[1])).unwrap();
    assert!(accounts.adjust_balance(&alice, 25).is_ok());
    assert_eq!(accounts.get_balance(&alice), Ok(125));
    assert!(accounts.adjust_balance(&alice, -125).is_ok());
    assert_eq!(accounts.get_balance(&alice), Ok(0));
}

#[test]
fn adjust_balance_never_goes_negative() {
    let mut accounts = Accounts::new(5);
    let alice = String::from("alice");
    accounts.create_account(alice.clone(), 10, key(&[1])).unwrap();
    assert_eq!(accounts.adjust_balance(&alice, -11), Err(AccountError::InsufficientBalance));
    assert_eq!(accounts.get_balance(&alice), Ok(10));
}

#[test]
fn locked_account_rejects_all_adjustments() {
    let mut accounts = Accounts::new(5);
    let alice = String::from("alice");
    accounts.create_account(alice.clone(), 100, key(&[1])).unwrap();
    accounts.lock_account(&alice).unwrap();
    assert_eq!(accounts.adjust_balance(&alice, -10), Err(AccountError::AccountLocked));
    assert_eq!(accounts.adjust_balance(&alice, 10), Err(AccountError::AccountLocked));
    assert_eq!(accounts.update_account_balance(&alice, 7), Err(AccountError::AccountLocked));
    assert_eq!(accounts.get_balance(&alice), Ok(100));
    accounts.unlock_account(&alice).unwrap();
    assert!(accounts.adjust_balance(&alice, -10).is_ok());
    assert_eq!(accounts.get_balance(&alice), Ok(90));
}

#[test]
fn is_account_locked_reports_state() {
    let mut accounts = Accounts::new(5);
    let alice = String::from("alice");
    accounts.create_account(alice.clone(), 1, key(&[1])).unwrap();
    assert_eq!(accounts.is_account_locked(&alice), Ok(()));
    accounts.lock_account(&alice).unwrap();
    assert_eq!(accounts.is_account_locked(&alice), Err(AccountError::AccountLocked));
    let bob = String::from("bob");
    assert_eq!(accounts.is_account_locked(&bob), Err(AccountError::AccountNotFound));
}

#[test]
fn update_account_balance_overwrites() {
    let mut accounts = Accounts::new(5);
    let alice = String::from("alice");
    accounts.create_account(alice.clone(), 100, key(&[1])).unwrap();
    accounts.update_account_balance(&alice, 3).unwrap();
    assert_eq!(accounts.get_balance(&alice), Ok(3));
}

#[test]
fn delete_account_removes_it() {
    let mut accounts = Accounts::new(5);
    let alice = String::from("alice");
    accounts.create_account(alice.clone(), 100, key(&[1])).unwrap();
    assert!(accounts.delete_account(&alice).is_ok());
    assert!(!accounts.account_exists(&alice));
    assert_eq!(accounts.delete_account(&alice), Err(AccountError::AccountNotFound));
}

#[test]
fn list_all_accounts_names_each_once() {
    let mut accounts = Accounts::new(5);
    accounts.create_account(String::from("a"), 1, key(&[1])).unwrap();
    accounts.create_account(String::from("b"), 2, key(&[2])).unwrap();
    accounts.create_account(String::from("c"), 3, key(&[3])).unwrap();
    accounts.delete_account(&String::from("b")).unwrap();
    let mut listed = accounts.list_all_accounts();
    listed.sort();
    assert_eq!(listed, vec![String::from("a"), String::from("c")]);
}

#[test]
fn set_public_key_secure_is_compare_and_swap() {
    let mut accounts = Accounts::new(5);
    let alice = String::from("alice");
    accounts.create_account(alice.clone(), 100, key(&[1, 2])).unwrap();
    assert_eq!(
        accounts.set_public_key_secure(&alice, &key(&[9, 9]), key(&[3, 4])),
        Err(AccountError::UnauthorizedKeyChange)
    );
    assert!(accounts.set_public_key_secure(&alice, &key(&[1, 2]), key(&[3, 4])).is_ok());
    let details = accounts.get_account_details(&alice).unwrap();
    assert_eq!(details.public_key.value, vec![3, 4]);
}

#[test]
fn public_key_to_hex() {
    let pk = key(&[0xde, 0xad]);
    assert_eq!(pk.to_hex(), String::from("dead"));
}

#[test]
fn history_ring_evicts_oldest() {
    let mut accounts = Accounts::new(2);
    let alice = String::from("alice");
    accounts.create_account(alice.clone(), 100, key(&[1])).unwrap();
    for ts in 1..=3u64 {
        let record = TransactionHistory {
            from: alice.clone(),
            to: String::from("bob"),
            amount: ts,
            timestamp: ts,
        };
        accounts.add_transaction(&alice, record).unwrap();
    }
    let history = accounts.get_transactions(&alice).unwrap();
    assert_eq!(history.len(), 2);
    assert_eq!(history[0].amount, 2);
    assert_eq!(history[1].amount, 3);
}

#[test]
fn account_integrity_hash_round_trip() {
    let mut accounts = Accounts::new(5);
    let alice = String::from("alice");
    accounts.create_account(alice.clone(), 100, key(&[1, 2, 3])).unwrap();
    let hash = accounts.get_account_hash(&alice).unwrap();
    assert_eq!(hash.len(), 32);
    assert_eq!(accounts.validate_account_integrity(&alice, hash.clone()), Ok(()));
    let mut tampered = hash.clone();
    tampered[0] ^= 1;
    assert_eq!(
        accounts.validate_account_integrity(&alice, tampered),
        Err(AccountError::AccountAlreadyExists)
    );
    accounts.adjust_balance(&alice, 1).unwrap();
    assert_eq!(
        accounts.validate_account_integrity(&alice, hash),
        Err(AccountError::AccountAlreadyExists)
    );
    let missing = String::from("nobody");
    assert_eq!(
        accounts.validate_account_integrity(&missing, vec![0; 32]),
        Err(AccountError::AccountNotFound)
    );
}
