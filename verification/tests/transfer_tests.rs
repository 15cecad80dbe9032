use myluks::accounts::{Accounts, PublicKey};
use myluks::transfer::{Transfer, TransferError, TransferType};

fn ledger() -> Accounts {
    let mut accounts = Accounts::new(5);
    accounts
        .create_account(String::from("alice"), 1000, PublicKey { value: vec![1] })
        .unwrap();
    accounts
        .create_account(String::from("bob"), 100, PublicKey { value: vec![2] })
        .unwrap();
    accounts
}

#[test]
fn fee_is_five_percent_rounded_down() {
    let transfer = Transfer { transactions: vec![] };
    assert_eq!(transfer.calculate_transfer_fee(100), 5);
    assert_eq!(transfer.calculate_transfer_fee(19), 0);
    assert_eq!(transfer.calculate_transfer_fee(20), 1);
    assert_eq!(transfer.apply_transfer_fee(100), 95);
}

#[test]
fn transfer_moves_amount_less_fee_and_charges_sender() {
    let mut accounts = ledger();
    let mut transfer = Transfer { transactions: vec![] };
    let r = transfer.initiate_transfer(
        &mut accounts,
        &String::from("alice"),
        &String::from("bob"),
        100,
        TransferType::PeerToPeer,
        42,
    );
    assert_eq!(r, Ok(()));
    assert_eq!(accounts.get_balance(&String::from("alice")), Ok(895));
    assert_eq!(accounts.get_balance(&String::from("bob")), Ok(195));
    assert_eq!(transfer.transactions.len(), 1);
    assert_eq!(transfer.transactions[0].amount, 95);
    assert_eq!(transfer.transactions[0].timestamp, 42);
    let alice_history = accounts.get_transactions(&String::from("alice")).unwrap();
    let bob_history = accounts.get_transactions(&String::from("bob")).unwrap();
    assert_eq!(alice_history.len(), 1);
    assert_eq!(bob_history.len(), 1);
    assert_eq!(alice_history[0].amount, 95);
}

#[test]
fn conservation_modulo_the_burned_fee() {
    let mut accounts = ledger();
    let mut transfer = Transfer { transactions: vec![] };
    let before = 1000 + 100;
    transfer
        .initiate_transfer(
            &mut accounts,
            &String::from("alice"),
            &String::from("bob"),
            100,
            TransferType::PeerToPeer,
            1,
        )
        .unwrap();
    let after = accounts.get_balance(&String::from("alice")).unwrap()
        + accounts.get_balance(&String::from("bob")).unwrap();
    assert_eq!(after, before - 2 * 5);
}

#[test]
fn zero_amount_is_invalid() {
    let mut accounts = ledger();
    let mut transfer = Transfer { transactions: vec![] };
    let r = transfer.initiate_transfer(
        &mut accounts,
        &String::from("alice"),
        &String::from("bob"),
        0,
        TransferType::PeerToPeer,
        1,
    );
    assert_eq!(r, Err(TransferError::InvalidAmount));
    assert_eq!(accounts.get_balance(&String::from("alice")), Ok(1000));
}

#[test]
fn missing_party_fails_without_changes() {
    let mut accounts = ledger();
    let mut transfer = Transfer { transactions: vec![] };
    let r = transfer.initiate_transfer(
        &mut accounts,
        &String::from("alice"),
        &String::from("carol"),
        10,
        TransferType::PeerToPeer,
        1,
    );
    assert_eq!(r, Err(TransferError::AccountNotFound));
    assert_eq!(accounts.get_balance(&String::from("alice")), Ok(1000));
}

#[test]
fn insufficient_funds_cover_amount_plus_fee() {
    let mut accounts = ledger();
    let mut transfer = Transfer { transactions: vec![] };
    let r = transfer.initiate_transfer(
        &mut accounts,
        &String::from("bob"),
        &String::from("alice"),
        100,
        TransferType::PeerToPeer,
        1,
    );
    assert_eq!(r, Err(TransferError::InsufficientBalance));
    assert_eq!(accounts.get_balance(&String::from("bob")), Ok(100));
    assert_eq!(accounts.get_balance(&String::from("alice")), Ok(1000));
}

#[test]
fn revert_returns_the_recorded_amount() {
    let mut accounts = ledger();
    let mut transfer = Transfer { transactions: vec![] };
    transfer
        .initiate_transfer(
            &mut accounts,
            &String::from("alice"),
            &String::from("bob"),
            100,
            TransferType::PeerToPeer,
            1,
        )
        .unwrap();
    let r = transfer.revert_transaction(&mut accounts, 0, &String::from("alice"));
    assert_eq!(r, Ok(()));
    assert_eq!(accounts.get_balance(&String::from("alice")), Ok(990));
    assert_eq!(accounts.get_balance(&String::from("bob")), Ok(100));
    assert_eq!(transfer.transactions.len(), 0);
}

#[test]
fn only_the_sender_may_revert() {
    let mut accounts = ledger();
    let mut transfer = Transfer { transactions: vec![] };
    transfer
        .initiate_transfer(
            &mut accounts,
            &String::from("alice"),
            &String::from("bob"),
            100,
            TransferType::PeerToPeer,
            1,
        )
        .unwrap();
    let r = transfer.revert_transaction(&mut accounts, 0, &String::from("bob"));
    assert_eq!(r, Err(TransferError::UnauthorizedRevert));
    assert_eq!(transfer.transactions.len(), 1);
}

#[test]
fn reverting_a_missing_record_fails() {
    let mut accounts = ledger();
    let mut transfer = Transfer { transactions: vec![] };
    let r = transfer.revert_transaction(&mut accounts, 0, &String::from("alice"));
    assert_eq!(r, Err(TransferError::TransactionNotFound));
}

#[test]
fn self_transfer_burns_only_the_fees() {
    let mut accounts = ledger();
    let mut transfer = Transfer { transactions: vec![] };
    let r = transfer.initiate_transfer(
        &mut accounts,
        &String::from("alice"),
        &String::from("alice"),
        100,
        TransferType::PeerToPeer,
        1,
    );
    assert_eq!(r, Ok(()));
    // alice pays 105 and receives 95 back: both fees are burned.
    assert_eq!(accounts.get_balance(&String::from("alice")), Ok(990));
}

#[test]
fn an_amount_beyond_the_signed_range_is_invalid() {
    let mut accounts = ledger();
    let mut transfer = Transfer { transactions: vec![] };
    let r = transfer.initiate_transfer(
        &mut accounts,
        &String::from("alice"),
        &String::from("bob"),
        u64::MAX,
        TransferType::PeerToPeer,
        1,
    );
    assert_eq!(r, Err(TransferError::InvalidAmount));
    assert_eq!(accounts.get_balance(&String::from("alice")), Ok(1000));
}
