//! Fee-bearing transfers between ledger accounts, with a reversible record of
//! every transfer made.
//!
//! A transfer debits the sender with the amount plus a five-percent fee,
//! credits the recipient with the amount minus the fee, and records the
//! transfer in both accounts' histories and in the transfer log.  All checks
//! run before any balance moves, so a failed transfer changes nothing.

use vstd::prelude::*;
use crate::accounts::{
    bounded_push, AccountError, AccountView, Accounts, RecordView, TransactionHistory,
};

verus! {

/// Reasons a transfer fails.
#[derive(Clone, Copy, Debug, PartialEq, Eq, Structural)]
pub enum TransferError {
    AccountNotFound,
    InsufficientBalance,
    InvalidAmount,
    TransactionNotFound,
    UnauthorizedRevert,
}

/// The kind of transfer being made.
#[derive(Clone, Copy, Debug, PartialEq, Eq, Structural)]
pub enum TransferType {
    PeerToPeer,
    ToContract,
    FromContract,
}

/// The transfer engine: keeps the log of transfers it has applied.
pub struct Transfer {
    pub transactions: Vec<TransactionHistory>,
}

impl Transfer {
    /// The mathematical value of the transfer log.
    pub open spec fn records(&self) -> Seq<RecordView> {
        self.transactions@.map_values(|t: TransactionHistory| t@)
    }

    /// The five-percent transfer fee, rounded down.
    pub fn calculate_transfer_fee(&self, amount: u64) -> (r: u64)
        ensures
            r == amount / 20,
    {
        amount / 20
    }

    /// A transfer must move a positive amount.
    pub fn validate_transfer_amount(&self, amount: u64) -> (r: Result<(), TransferError>)
        ensures
            amount == 0 ==> r == Err::<(), TransferError>(TransferError::InvalidAmount),
            amount > 0 ==> r == Ok::<(), TransferError>(()),
    {
        if amount == 0 {
            return Err(TransferError::InvalidAmount);
        }
        Ok(())
    }

    /// The amount the recipient receives: the amount minus the fee.
    pub fn apply_transfer_fee(&self, amount: u64) -> (r: u64)
        ensures
            r == amount - amount / 20,
    {
        amount - self.calculate_transfer_fee(amount)
    }

    /// Debits the sender.  The account must exist and be unlocked (the caller
    /// has checked both); an insufficient balance is reported as such.
    pub fn decrement_sender_balance(accounts: &mut Accounts, from: &String, amount: u64) -> (r:
        Result<(), TransferError>)
        requires
            old(accounts).wf(),
            amount <= i64::MAX,
            old(accounts)@.contains_key(from@),
            !old(accounts)@[from@].locked,
        ensures
            final(accounts).wf(),
            final(accounts).spec_max() == old(accounts).spec_max(),
            old(accounts)@[from@].balance < amount ==> r == Err::<(), TransferError>(
                TransferError::InsufficientBalance,
            ) && final(accounts)@ == old(accounts)@,
            old(accounts)@[from@].balance >= amount ==> r == Ok::<(), TransferError>(())
                && final(accounts)@ == old(accounts)@.insert(
                from@,
                AccountView {
                    balance: (old(accounts)@[from@].balance - amount) as u64,
                    ..old(accounts)@[from@]
                },
            ),
    {
        let delta: i64 = -(amount as i64);
        match accounts.adjust_balance(from, delta) {
            Ok(()) => Ok(()),
            Err(AccountError::InsufficientBalance) => Err(TransferError::InsufficientBalance),
            Err(_) => {
                proof {
                    assert(false);
                }
                Err(TransferError::AccountNotFound)
            },
        }
    }

    /// Credits the recipient.  Any ledger failure is reported as a missing
    /// account; the caller has ruled out overflow.
    pub fn increment_recipient_balance(accounts: &mut Accounts, to: &String, amount: u64) -> (r:
        Result<(), TransferError>)
        requires
            old(accounts).wf(),
            amount <= i64::MAX,
            old(accounts)@.contains_key(to@) && !old(accounts)@[to@].locked ==> old(accounts)@[to@].balance
                + amount <= u64::MAX,
        ensures
            final(accounts).wf(),
            final(accounts).spec_max() == old(accounts).spec_max(),
            !old(accounts)@.contains_key(to@) || old(accounts)@[to@].locked ==> r == Err::<
                (),
                TransferError,
            >(TransferError::AccountNotFound) && final(accounts)@ == old(accounts)@,
            old(accounts)@.contains_key(to@) && !old(accounts)@[to@].locked ==> r == Ok::<
                (),
                TransferError,
            >(()) && final(accounts)@ == old(accounts)@.insert(
                to@,
                AccountView {
                    balance: (old(accounts)@[to@].balance + amount) as u64,
                    ..old(accounts)@[to@]
                },
            ),
    {
        match accounts.adjust_balance(to, amount as i64) {
            Ok(()) => Ok(()),
            Err(_) => Err(TransferError::AccountNotFound),
        }
    }

    /// Applies a transfer of `amount` from `from` to `to` at `timestamp`: the
    /// sender pays the amount plus the fee, the recipient receives the amount
    /// minus the fee, and the transfer is recorded in both accounts' bounded
    /// histories and in the log.  Every check runs before any balance moves:
    /// a rejected transfer leaves the ledger and the log untouched.
    #[verifier::rlimit(80)]
    pub fn initiate_transfer(
        &mut self,
        accounts: &mut Accounts,
        from: &String,
        to: &String,
        amount: u64,
        transfer_type: TransferType,
        timestamp: u64,
    ) -> (r: Result<(), TransferError>)
        requires
            old(accounts).wf(),
            amount > 0 && amount + amount / 20 <= i64::MAX && old(accounts)@.contains_key(from@)
                && old(accounts)@.contains_key(to@) ==> !old(accounts)@[from@].locked,
        ensures
            final(accounts).wf(),
            final(accounts).spec_max() == old(accounts).spec_max(),
            ({
                let m = old(accounts)@;
                let fee = (amount / 20) as u64;
                let ok_arith = amount + fee <= u64::MAX && amount + fee <= i64::MAX;
                let total = (amount + fee) as u64;
                let fin = (amount - fee) as u64;
                let unchanged = final(accounts)@ == m && final(self).records() == old(
                    self,
                ).records();
                if amount == 0 {
                    r == Err::<(), TransferError>(TransferError::InvalidAmount) && unchanged
                } else if !ok_arith {
                    r == Err::<(), TransferError>(TransferError::InvalidAmount) && unchanged
                } else if !m.contains_key(from@) || !m.contains_key(to@) {
                    r == Err::<(), TransferError>(TransferError::AccountNotFound) && unchanged
                } else if m[from@].balance < total {
                    r == Err::<(), TransferError>(TransferError::InsufficientBalance) && unchanged
                } else if m[to@].locked {
                    r == Err::<(), TransferError>(TransferError::AccountNotFound) && unchanged
                } else if from@ != to@ && m[to@].balance + fin > u64::MAX {
                    r == Err::<(), TransferError>(TransferError::InvalidAmount) && unchanged
                } else {
                    let rec = RecordView { from: from@, to: to@, amount: fin, timestamp };
                    let mx = old(accounts).spec_max();
                    let m1 = m.insert(
                        from@,
                        AccountView { balance: (m[from@].balance - total) as u64, ..m[from@] },
                    );
                    let m2 = m1.insert(
                        to@,
                        AccountView { balance: (m1[to@].balance + fin) as u64, ..m1[to@] },
                    );
                    let m3 = m2.insert(
                        from@,
                        AccountView {
                            transactions: bounded_push(m2[from@].transactions, rec, mx),
                            ..m2[from@]
                        },
                    );
                    let m4 = m3.insert(
                        to@,
                        AccountView {
                            transactions: bounded_push(m3[to@].transactions, rec, mx),
                            ..m3[to@]
                        },
                    );
                    r == Ok::<(), TransferError>(()) && final(accounts)@ == m4
                        && final(self).records() == old(self).records().push(rec)
                }
            }),
    {
        // The transfer type matters only to the embedding's logging.
        let _ = transfer_type;
        match self.validate_transfer_amount(amount) {
            Ok(_) => {},
            Err(e) => { return Err(e) },
        }
        let fee = self.calculate_transfer_fee(amount);
        let total = match amount.checked_add(fee) {
            Some(t) => t,
            None => { return Err(TransferError::InvalidAmount) },
        };
        if total > 9223372036854775807 {
            return Err(TransferError::InvalidAmount);
        }
        let final_amount = self.apply_transfer_fee(amount);
        if !accounts.account_exists(from) || !accounts.account_exists(to) {
            return Err(TransferError::AccountNotFound);
        }
        let sender_balance = match accounts.get_balance(from) {
            Ok(b) => b,
            Err(_) => { return Err(TransferError::AccountNotFound) },
        };
        if sender_balance < total {
            return Err(TransferError::InsufficientBalance);
        }
        match accounts.is_account_locked(to) {
            Ok(_) => {},
            Err(_) => { return Err(TransferError::AccountNotFound) },
        }
        let recipient_balance = match accounts.get_balance(to) {
            Ok(b) => b,
            Err(_) => { return Err(TransferError::AccountNotFound) },
        };
        if !(*from == *to) && recipient_balance.checked_add(final_amount).is_none() {
            return Err(TransferError::InvalidAmount);
        }
        match Self::decrement_sender_balance(accounts, from, total) {
            Ok(_) => {},
            Err(e) => {
                proof {
                    assert(false);
                }
                return Err(e);
            },
        }
        match Self::increment_recipient_balance(accounts, to, final_amount) {
            Ok(_) => {},
            Err(e) => {
                proof {
                    assert(false);
                }
                return Err(e);
            },
        }
        let transaction = TransactionHistory {
            from: from.clone(),
            to: to.clone(),
            amount: final_amount,
            timestamp,
        };
        match accounts.add_transaction(from, transaction.clone()) {
            Ok(_) => {},
            Err(_) => {
                proof {
                    assert(false);
                }
                return Err(TransferError::AccountNotFound);
            },
        }
        match accounts.add_transaction(to, transaction.clone()) {
            Ok(_) => {},
            Err(_) => {
                proof {
                    assert(false);
                }
                return Err(TransferError::AccountNotFound);
            },
        }
        self.transactions.push(transaction);
        Ok(())
    }

    /// Undoes a recorded transfer: only its sender may revert it, both
    /// parties must still exist, and the recorded amount moves back from the
    /// recipient to the sender before the record is struck from the log.
    /// Every check runs before any balance moves.
    pub fn revert_transaction(
        &mut self,
        accounts: &mut Accounts,
        transaction_id: usize,
        caller: &String,
    ) -> (r: Result<(), TransferError>)
        requires
            old(accounts).wf(),
            ({
                let recs = old(self).records();
                let m = old(accounts)@;
                transaction_id < recs.len() && recs[transaction_id as int].from == caller@
                    && m.contains_key(recs[transaction_id as int].from) && m.contains_key(
                    recs[transaction_id as int].to,
                ) ==> recs[transaction_id as int].amount <= i64::MAX && !m[recs[transaction_id as int].to].locked
            }),
        ensures
            final(accounts).wf(),
            final(accounts).spec_max() == old(accounts).spec_max(),
            ({
                let recs = old(self).records();
                let m = old(accounts)@;
                let unchanged = final(accounts)@ == m && final(self).records() == recs;
                if transaction_id >= recs.len() {
                    r == Err::<(), TransferError>(TransferError::TransactionNotFound) && unchanged
                } else {
                    let rec = recs[transaction_id as int];
                    if rec.from != caller@ {
                        r == Err::<(), TransferError>(TransferError::UnauthorizedRevert)
                            && unchanged
                    } else if !m.contains_key(rec.from) || !m.contains_key(rec.to) {
                        r == Err::<(), TransferError>(TransferError::AccountNotFound) && unchanged
                    } else if m[rec.to].balance < rec.amount {
                        r == Err::<(), TransferError>(TransferError::InsufficientBalance)
                            && unchanged
                    } else if m[rec.from].locked {
                        r == Err::<(), TransferError>(TransferError::AccountNotFound) && unchanged
                    } else if rec.from != rec.to && m[rec.from].balance + rec.amount > u64::MAX {
                        r == Err::<(), TransferError>(TransferError::InvalidAmount) && unchanged
                    } else {
                        let m1 = m.insert(
                            rec.to,
                            AccountView {
                                balance: (m[rec.to].balance - rec.amount) as u64,
                                ..m[rec.to]
                            },
                        );
                        let m2 = m1.insert(
                            rec.from,
                            AccountView {
                                balance: (m1[rec.from].balance + rec.amount) as u64,
                                ..m1[rec.from]
                            },
                        );
                        r == Ok::<(), TransferError>(()) && final(accounts)@ == m2
                            && final(self).records() == recs.remove(transaction_id as int)
                    }
                }
            }),
    {
        if transaction_id >= self.transactions.len() {
            return Err(TransferError::TransactionNotFound);
        }
        let record = &self.transactions[transaction_id];
        if !(record.from == *caller) {
            return Err(TransferError::UnauthorizedRevert);
        }
        let from_id = record.from.clone();
        let to_id = record.to.clone();
        let amount = record.amount;
        if !accounts.account_exists(&from_id) || !accounts.account_exists(&to_id) {
            return Err(TransferError::AccountNotFound);
        }
        let to_balance = match accounts.get_balance(&to_id) {
            Ok(b) => b,
            Err(_) => { return Err(TransferError::AccountNotFound) },
        };
        if to_balance < amount {
            return Err(TransferError::InsufficientBalance);
        }
        match accounts.is_account_locked(&from_id) {
            Ok(_) => {},
            Err(_) => { return Err(TransferError::AccountNotFound) },
        }
        let from_balance = match accounts.get_balance(&from_id) {
            Ok(b) => b,
            Err(_) => { return Err(TransferError::AccountNotFound) },
        };
        if !(from_id == to_id) && from_balance.checked_add(amount).is_none() {
            return Err(TransferError::InvalidAmount);
        }
        match Self::decrement_sender_balance(accounts, &to_id, amount) {
            Ok(_) => {},
            Err(e) => {
                proof {
                    assert(false);
                }
                return Err(e);
            },
        }
        match Self::increment_recipient_balance(accounts, &from_id, amount) {
            Ok(_) => {},
            Err(e) => {
                proof {
                    assert(false);
                }
                return Err(e);
            },
        }
        self.transactions.remove(transaction_id);
        Ok(())
    }
}

/// Law: a fee-bearing peer transfer moves the amount less the fee and burns
/// twice the fee: between two distinct accounts the sum of their balances
/// drops by exactly twice the five-percent fee, and every other account keeps
/// the balance it had.
pub proof fn lemma_transfer_burns_twice_the_fee(
    m: Map<Seq<char>, AccountView>,
    from: Seq<char>,
    to: Seq<char>,
    amount: u64,
)
    requires
        m.contains_key(from),
        m.contains_key(to),
        from != to,
        amount + amount / 20 <= u64::MAX,
        m[from].balance >= amount + amount / 20,
        m[to].balance + (amount - amount / 20) <= u64::MAX,
    ensures
        ({
            let fee = (amount / 20) as u64;
            let total = (amount + fee) as u64;
            let fin = (amount - fee) as u64;
            let m1 = m.insert(
                from,
                AccountView { balance: (m[from].balance - total) as u64, ..m[from] },
            );
            let m2 = m1.insert(
                to,
                AccountView { balance: (m1[to].balance + fin) as u64, ..m1[to] },
            );
            &&& m2[from].balance + m2[to].balance + 2 * fee == m[from].balance + m[to].balance
            &&& forall|k: Seq<char>|
                k != from && k != to && m.contains_key(k) ==> (#[trigger] m2[k]) == m[k]
            &&& m2.dom() == m.dom()
        }),
{
    let fee = (amount / 20) as u64;
    let total = (amount + fee) as u64;
    let fin = (amount - fee) as u64;
    let m1 = m.insert(from, AccountView { balance: (m[from].balance - total) as u64, ..m[from] });
    let m2 = m1.insert(to, AccountView { balance: (m1[to].balance + fin) as u64, ..m1[to] });
    assert(m2.dom() =~= m.dom());
}

} // verus!
