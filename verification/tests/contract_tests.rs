use myluks::luks_main_contract::{Account, Address, LuksError, LuksMainContract};

fn addr(s: &str) -> Address {
    Address { value: String::from(s) }
}

fn contract() -> LuksMainContract {
    let mut c = LuksMainContract::new(addr("owner"), addr("fees"));
    c.create_account(addr("fees"), 0, None).unwrap();
    c.create_account(addr("alice"), 500, Some(String::from("pk-alice"))).unwrap();
    c.create_account(addr("bob"), 50, None).unwrap();
    c
}

fn balance(c: &LuksMainContract, a: &Address) -> u64 {
    c.get_account_details(a).unwrap().balance
}

#[test]
fn create_and_read_accounts() {
    let c = contract();
    let alice = c.get_account_details(&addr("alice")).unwrap();
    assert_eq!(alice.balance, 500);
    assert_eq!(alice.public_key, Some(String::from("pk-alice")));
    assert!(c.get_account_details(&addr("carol")).is_none());
}

#[test]
fn duplicate_address_is_refused() {
    let mut c = contract();
    assert_eq!(
        c.create_account(addr("alice"), 1, None),
        Err(LuksError::AccountAlreadyExists)
    );
}

#[test]
fn only_the_owner_deletes_accounts() {
    let mut c = contract();
    assert_eq!(
        c.delete_account(&addr("bob"), &addr("alice")),
        Err(LuksError::Unauthorized)
    );
    assert!(c.delete_account(&addr("bob"), &addr("owner")).is_ok());
    assert!(c.get_account_details(&addr("bob")).is_none());
    assert_eq!(
        c.delete_account(&addr("bob"), &addr("owner")),
        Err(LuksError::AccountDeletionError)
    );
}

#[test]
fn issue_coins_credits_the_address() {
    let mut c = contract();
    assert!(c.issue_coins(&addr("bob"), 25).is_ok());
    assert_eq!(balance(&c, &addr("bob")), 75);
    assert_eq!(c.issue_coins(&addr("carol"), 1), Err(LuksError::AccountNotFound));
}

#[test]
fn plain_transfer_moves_the_exact_amount() {
    let mut c = contract();
    let r = c.initiate_transfer(&addr("alice"), &addr("bob"), 100, String::from("sig"));
    assert_eq!(r, Ok(()));
    assert_eq!(balance(&c, &addr("alice")), 400);
    assert_eq!(balance(&c, &addr("bob")), 150);
}

#[test]
fn plain_transfer_conserves_the_total() {
    let mut c = contract();
    let before = balance(&c, &addr("alice")) + balance(&c, &addr("bob"));
    c.initiate_transfer(&addr("alice"), &addr("bob"), 123, String::from("sig")).unwrap();
    let after = balance(&c, &addr("alice")) + balance(&c, &addr("bob"));
    assert_eq!(before, after);
}

#[test]
fn unsigned_transfer_is_not_secured() {
    let mut c = contract();
    let r = c.initiate_transfer(&addr("alice"), &addr("bob"), 100, String::new());
    assert_eq!(r, Err(LuksError::TransactionNotSecured));
    assert_eq!(balance(&c, &addr("alice")), 500);
}

#[test]
fn transfer_requires_funds_and_parties() {
    let mut c = contract();
    assert_eq!(
        c.initiate_transfer(&addr("alice"), &addr("carol"), 1, String::from("s")),
        Err(LuksError::AccountNotFound)
    );
    assert_eq!(
        c.initiate_transfer(&addr("bob"), &addr("alice"), 51, String::from("s")),
        Err(LuksError::InsufficientBalance)
    );
    assert_eq!(
        c.initiate_transfer(&addr("alice"), &addr("bob"), 0, String::from("s")),
        Err(LuksError::InvalidTransaction)
    );
}

#[test]
fn fee_transfer_charges_the_flat_fee_and_records_it() {
    let mut c = contract();
    let r = c.initiate_transfer_with_fee(&addr("alice"), &addr("bob"), 100, String::from("sig"));
    assert_eq!(r, Ok(()));
    assert_eq!(balance(&c, &addr("alice")), 390);
    assert_eq!(balance(&c, &addr("bob")), 150);
    assert_eq!(balance(&c, &addr("fees")), 10);
    let history = c.get_transaction_history(&addr("alice")).unwrap();
    assert_eq!(history.len(), 1);
    assert!(c.get_transaction_history(&addr("bob")).is_none());
}

#[test]
fn fee_transfer_conserves_value_across_the_three_parties() {
    let mut c = contract();
    let before = balance(&c, &addr("alice")) + balance(&c, &addr("bob"))
        + balance(&c, &addr("fees"));
    c.initiate_transfer_with_fee(&addr("alice"), &addr("bob"), 77, String::from("sig")).unwrap();
    let after = balance(&c, &addr("alice")) + balance(&c, &addr("bob"))
        + balance(&c, &addr("fees"));
    assert_eq!(before, after);
}

#[test]
fn fee_transfer_needs_amount_plus_fee() {
    let mut c = contract();
    assert_eq!(
        c.initiate_transfer_with_fee(&addr("bob"), &addr("alice"), 45, String::from("sig")),
        Err(LuksError::InsufficientBalance)
    );
    assert_eq!(balance(&c, &addr("bob")), 50);
}

#[test]
fn ownership_changes_hands_only_through_the_owner() {
    let mut c = contract();
    assert_eq!(
        c.transfer_ownership(addr("alice"), &addr("bob")),
        Err(LuksError::Unauthorized)
    );
    assert!(c.transfer_ownership(addr("alice"), &addr("owner")).is_ok());
    assert!(c.delete_account(&addr("bob"), &addr("alice")).is_ok());
}

#[test]
fn the_timestamp_baseline_is_zero() {
    let c = contract();
    assert_eq!(c.get_current_timestamp(), 0);
}

#[test]
fn account_values_round_trip() {
    let a = Account { balance: 5, public_key: Some(String::from("k")) };
    let b = a.clone();
    assert_eq!(b.balance, 5);
    assert_eq!(b.public_key, Some(String::from("k")));
}

#[test]
fn issuing_past_the_balance_range_is_refused() {
    let mut c = contract();
    c.issue_coins(&addr("bob"), u64::MAX - 50).unwrap();
    assert_eq!(c.issue_coins(&addr("bob"), 1), Err(LuksError::CoinIssueError));
    assert_eq!(balance(&c, &addr("bob")), u64::MAX);
}

#[test]
fn self_transfer_changes_nothing() {
    let mut c = contract();
    let r = c.initiate_transfer(&addr("alice"), &addr("alice"), 100, String::from("sig"));
    assert_eq!(r, Ok(()));
    assert_eq!(balance(&c, &addr("alice")), 500);
}
