//! The account ledger: balances, public keys, lock flags and a bounded
//! transaction history per account, all keyed by an account id.
//!
//! The ledger is the exclusive owner of account state; every mutation goes
//! through the methods here, and every method states exactly how the map of
//! accounts changes.

use vstd::prelude::*;
use vstd::hash_map::StringHashMap;
use vstd::utf8::encode_utf8;
use std::collections::VecDeque;
use crate::hashing::{
    bytes_eq, clone_bytes, dec_digits, hex_encode, hex_of, push_bytes, push_decimal, sha256_digest,
    sha256_of,
};

verus! {

/// Reasons an account operation can fail.
#[derive(Clone, Copy, Debug, PartialEq, Eq, Structural)]
pub enum AccountError {
    AccountAlreadyExists,
    AccountNotFound,
    InsufficientBalance,
    UnauthorizedKeyChange,
    AccountLocked,
    AccountNotLocked,
}

/// A public key held as raw bytes.
#[derive(Debug)]
pub struct PublicKey {
    pub value: Vec<u8>,
}

impl PublicKey {
    /// The hex rendering of the key bytes.
    pub fn to_hex(&self) -> (r: String)
        ensures
            r@ == hex_of(self.value@),
    {
        hex_encode(self.value.as_slice())
    }
}

impl Clone for PublicKey {
    fn clone(&self) -> (r: Self)
        ensures
            r.value@ == self.value@,
    {
        PublicKey { value: clone_bytes(&self.value) }
    }
}

impl PartialEq for PublicKey {
    fn eq(&self, other: &PublicKey) -> (r: bool) {
        bytes_eq(&self.value, &other.value)
    }
}

impl vstd::std_specs::cmp::PartialEqSpecImpl for PublicKey {
    open spec fn obeys_eq_spec() -> bool {
        true
    }

    open spec fn eq_spec(&self, other: &PublicKey) -> bool {
        self.value@ == other.value@
    }
}

/// One recorded transfer: parties, amount and the time it was made.
#[derive(Debug, PartialEq)]
pub struct TransactionHistory {
    pub from: String,
    pub to: String,
    pub amount: u64,
    pub timestamp: u64,
}

/// The mathematical value of a history record.
pub struct RecordView {
    pub from: Seq<char>,
    pub to: Seq<char>,
    pub amount: u64,
    pub timestamp: u64,
}

impl View for TransactionHistory {
    type V = RecordView;

    open spec fn view(&self) -> RecordView {
        RecordView { from: self.from@, to: self.to@, amount: self.amount, timestamp: self.timestamp }
    }
}

impl Clone for TransactionHistory {
    fn clone(&self) -> (r: Self)
        ensures
            r == self,
    {
        TransactionHistory {
            from: self.from.clone(),
            to: self.to.clone(),
            amount: self.amount,
            timestamp: self.timestamp,
        }
    }
}

/// The full state of one account.
#[derive(Debug)]
pub struct AccountDetails {
    pub balance: u64,
    pub public_key: PublicKey,
    pub transactions: VecDeque<TransactionHistory>,
    pub locked: bool,
}

/// The mathematical value of an account.
pub struct AccountView {
    pub balance: u64,
    pub public_key: Seq<u8>,
    pub transactions: Seq<RecordView>,
    pub locked: bool,
}

impl View for AccountDetails {
    type V = AccountView;

    open spec fn view(&self) -> AccountView {
        AccountView {
            balance: self.balance,
            public_key: self.public_key.value@,
            transactions: self.transactions@.map_values(|t: TransactionHistory| t@),
            locked: self.locked,
        }
    }
}

/// Copies a transaction history, element for element.
fn clone_history(h: &VecDeque<TransactionHistory>) -> (r: VecDeque<TransactionHistory>)
    ensures
        r@ == h@,
{
    let len = h.len();
    let mut r: VecDeque<TransactionHistory> = VecDeque::new();
    let mut i: usize = 0;
    while i < len
        invariant
            i <= len,
            len == h@.len(),
            r@ == h@.subrange(0, i as int),
        decreases len - i,
    {
        r.push_back(h[i].clone());
        assert(h@.subrange(0, i as int + 1) =~= h@.subrange(0, i as int).push(h@[i as int]));
        i = i + 1;
    }
    assert(h@.subrange(0, len as int) =~= h@);
    r
}

impl Clone for AccountDetails {
    fn clone(&self) -> (r: Self)
        ensures
            r@ == self@,
    {
        AccountDetails {
            balance: self.balance,
            public_key: self.public_key.clone(),
            transactions: clone_history(&self.transactions),
            locked: self.locked,
        }
    }
}

/// The history ring after appending a record: the oldest entry is evicted
/// when the ring already holds `max` records.
pub open spec fn bounded_push(ts: Seq<RecordView>, r: RecordView, max: usize) -> Seq<RecordView> {
    if ts.len() >= max && ts.len() > 0 {
        ts.drop_first().push(r)
    } else {
        ts.push(r)
    }
}

/// The canonical byte rendering of one history record.
pub open spec fn record_repr(r: RecordView) -> Seq<u8> {
    encode_utf8(r.from) + seq![124u8] + encode_utf8(r.to) + seq![124u8] + dec_digits(
        r.amount as nat,
    ) + seq![124u8] + dec_digits(r.timestamp as nat) + seq![10u8]
}

/// The canonical byte rendering of a sequence of history records.
pub open spec fn records_repr(rs: Seq<RecordView>) -> Seq<u8>
    decreases rs.len(),
{
    if rs.len() == 0 {
        Seq::<u8>::empty()
    } else {
        record_repr(rs.first()) + records_repr(rs.drop_first())
    }
}

/// Appending a record extends the canonical rendering on the right.
proof fn lemma_records_repr_push(rs: Seq<RecordView>, r: RecordView)
    ensures
        records_repr(rs.push(r)) == records_repr(rs) + record_repr(r),
    decreases rs.len(),
{
    if rs.len() == 0 {
        assert(rs.push(r).drop_first() =~= rs);
        assert(records_repr(rs.push(r)) =~= records_repr(rs) + record_repr(r));
    } else {
        assert(rs.push(r).drop_first() =~= rs.drop_first().push(r));
        lemma_records_repr_push(rs.drop_first(), r);
        assert(records_repr(rs.push(r)) =~= records_repr(rs) + record_repr(r));
    }
}

/// The canonical byte rendering of a whole account: balance, key bytes, lock
/// flag and history, separated by `|`.
pub open spec fn account_repr(a: AccountView) -> Seq<u8> {
    dec_digits(a.balance as nat) + seq![124u8] + a.public_key + seq![124u8] + (if a.locked {
        seq![49u8]
    } else {
        seq![48u8]
    }) + seq![124u8] + records_repr(a.transactions)
}

/// A digest that commits to the full state of an account.
#[derive(Debug)]
pub struct AccountHash {
    pub account_id: String,
    pub hash: Vec<u8>,
}

impl AccountHash {
    /// The SHA-256 digest of the canonical rendering of `account`.
    pub fn compute_hash(account: &AccountDetails) -> (r: Vec<u8>)
        ensures
            r@ == sha256_of(account_repr(account@)),
            r@.len() == 32,
    {
        let mut data: Vec<u8> = Vec::new();
        push_decimal(&mut data, account.balance);
        data.push(124);
        push_bytes(&mut data, account.public_key.value.as_slice());
        data.push(124);
        if account.locked {
            data.push(49);
        } else {
            data.push(48);
        }
        data.push(124);
        let ghost base = data@;
        let len = account.transactions.len();
        let mut i: usize = 0;
        while i < len
            invariant
                i <= len,
                len == account.transactions@.len(),
                data@ == base + records_repr(
                    account.transactions@.map_values(|t: TransactionHistory| t@).subrange(
                        0,
                        i as int,
                    ),
                ),
            decreases len - i,
        {
            let ghost views = account.transactions@.map_values(|t: TransactionHistory| t@);
            let ghost before = data@;
            let t = &account.transactions[i];
            push_bytes(&mut data, t.from.as_str().as_bytes());
            data.push(124);
            push_bytes(&mut data, t.to.as_str().as_bytes());
            data.push(124);
            push_decimal(&mut data, t.amount);
            data.push(124);
            push_decimal(&mut data, t.timestamp);
            data.push(10);
            proof {
                assert(data@ =~= before + record_repr(views[i as int]));
                lemma_records_repr_push(views.subrange(0, i as int), views[i as int]);
                assert(views.subrange(0, i as int).push(views[i as int]) =~= views.subrange(
                    0,
                    i as int + 1,
                ));
                assert(data@ =~= base + records_repr(views.subrange(0, i as int + 1)));
            }
            i = i + 1;
        }
        proof {
            let views = account.transactions@.map_values(|t: TransactionHistory| t@);
            assert(views.subrange(0, len as int) =~= views);
            assert(data@ =~= account_repr(account@));
        }
        sha256_digest(data.as_slice())
    }
}

/// The ledger: a map from account id to account state, plus the bound on each
/// account's history ring.
pub struct Accounts {
    accounts_map: StringHashMap<AccountDetails>,
    ids: Vec<String>,
    pub max_transaction_history: usize,
}

impl View for Accounts {
    type V = Map<Seq<char>, AccountView>;

    closed spec fn view(&self) -> Map<Seq<char>, AccountView> {
        self.accounts_map@.map_values(|d: AccountDetails| d@)
    }
}

/// Inserting into a map commutes with taking account views.
proof fn lemma_view_insert(m: Map<Seq<char>, AccountDetails>, k: Seq<char>, v: AccountDetails)
    ensures
        m.insert(k, v).map_values(|d: AccountDetails| d@) == m.map_values(
            |d: AccountDetails| d@,
        ).insert(k, v@),
{
    assert(m.insert(k, v).map_values(|d: AccountDetails| d@) =~= m.map_values(
        |d: AccountDetails| d@,
    ).insert(k, v@));
}

/// Removing from a map commutes with taking account views.
proof fn lemma_view_remove(m: Map<Seq<char>, AccountDetails>, k: Seq<char>)
    ensures
        m.remove(k).map_values(|d: AccountDetails| d@) == m.map_values(
            |d: AccountDetails| d@,
        ).remove(k),
{
    assert(m.remove(k).map_values(|d: AccountDetails| d@) =~= m.map_values(
        |d: AccountDetails| d@,
    ).remove(k));
}

/// Overwriting an existing key leaves the well-formedness of the id list
/// intact.
proof fn lemma_wf_after_overwrite(pre: Accounts, post: Accounts, k: Seq<char>, v: AccountDetails)
    requires
        pre.wf(),
        post.ids@ == pre.ids@,
        post.accounts_map@ == pre.accounts_map@.insert(k, v),
        pre.accounts_map@.contains_key(k),
    ensures
        post.wf(),
{
    assert forall|i: int|
        0 <= i < post.ids@.len() implies post.accounts_map@.contains_key(
        #[trigger] post.ids@[i]@,
    ) by {
        assert(pre.accounts_map@.contains_key(pre.ids@[i]@));
    }
    assert forall|k2: Seq<char>|
        #[trigger] post.accounts_map@.contains_key(k2) implies exists|i: int|
        0 <= i < post.ids@.len() && post.ids@[i]@ == k2 by {
        assert(pre.accounts_map@.contains_key(k2));
        let i = choose|i: int| 0 <= i < pre.ids@.len() && pre.ids@[i]@ == k2;
        assert(post.ids@[i]@ == k2);
    }
}

impl Accounts {
    /// The configured bound on each account's history ring.
    pub closed spec fn spec_max(&self) -> usize {
        self.max_transaction_history
    }

    /// The id list mirrors the key set of the map, without duplicates.
    pub closed spec fn wf(&self) -> bool {
        &&& (forall|i: int, j: int|
            0 <= i < j < self.ids@.len() ==> self.ids@[i]@ != self.ids@[j]@)
        &&& (forall|i: int|
            0 <= i < self.ids@.len() ==> self.accounts_map@.contains_key(#[trigger] self.ids@[i]@))
        &&& (forall|k: Seq<char>|
            #[trigger] self.accounts_map@.contains_key(k) ==> exists|i: int|
                0 <= i < self.ids@.len() && self.ids@[i]@ == k)
    }

    /// An empty ledger with the given history bound.
    pub fn new(max_transaction_history: usize) -> (r: Accounts)
        ensures
            r@ == Map::<Seq<char>, AccountView>::empty(),
            r.spec_max() == max_transaction_history,
            r.wf(),
    {
        let r = Accounts {
            accounts_map: StringHashMap::new(),
            ids: Vec::new(),
            max_transaction_history,
        };
        proof {
            assert(r@ =~= Map::<Seq<char>, AccountView>::empty());
        }
        r
    }

    /// Adds a fresh account with the given opening balance and key; rejects an
    /// id that is already taken.
    pub fn create_account(
        &mut self,
        account_id: String,
        initial_balance: u64,
        public_key: PublicKey,
    ) -> (r: Result<(), AccountError>)
        requires
            old(self).wf(),
        ensures
            final(self).wf(),
            final(self).spec_max() == old(self).spec_max(),
            old(self)@.contains_key(account_id@) ==> r == Err::<(), AccountError>(
                AccountError::AccountAlreadyExists,
            ) && final(self)@ == old(self)@,
            !old(self)@.contains_key(account_id@) ==> r == Ok::<(), AccountError>(())
                && final(self)@ == old(self)@.insert(
                account_id@,
                AccountView {
                    balance: initial_balance,
                    public_key: public_key.value@,
                    transactions: Seq::<RecordView>::empty(),
                    locked: false,
                },
            ),
    {
        if self.accounts_map.contains_key(account_id.as_str()) {
            return Err(AccountError::AccountAlreadyExists);
        }
        let account_details = AccountDetails {
            balance: initial_balance,
            public_key,
            transactions: VecDeque::new(),
            locked: false,
        };
        let ghost m = self.accounts_map@;
        self.ids.push(account_id.clone());
        self.accounts_map.insert(account_id, account_details);
        proof {
            lemma_view_insert(m, account_id@, account_details);
            assert(account_details@.transactions =~= Seq::<RecordView>::empty());
            assert forall|k: Seq<char>|
                #[trigger] self.accounts_map@.contains_key(k) implies exists|i: int|
                0 <= i < self.ids@.len() && self.ids@[i]@ == k by {
                if k != account_id@ {
                    let i = choose|i: int| 0 <= i < old(self).ids@.len() && old(self).ids@[i]@ == k;
                    assert(self.ids@[i]@ == k);
                } else {
                    assert(self.ids@[self.ids@.len() - 1]@ == k);
                }
            }
        }
        Ok(())
    }

    /// The balance of an account, if it exists.
    pub fn get_balance(&self, account_id: &String) -> (r: Result<u64, AccountError>)
        ensures
            self@.contains_key(account_id@) ==> r == Ok::<u64, AccountError>(
                self@[account_id@].balance,
            ),
            !self@.contains_key(account_id@) ==> r == Err::<u64, AccountError>(
                AccountError::AccountNotFound,
            ),
    {
        match self.accounts_map.get(account_id.as_str()) {
            Some(account) => Ok(account.balance),
            None => Err(AccountError::AccountNotFound),
        }
    }

    /// True when the id names an account.
    pub fn account_exists(&self, account_id: &String) -> (r: bool)
        ensures
            r == self@.contains_key(account_id@),
    {
        self.accounts_map.contains_key(account_id.as_str())
    }

    /// Moves an account's balance by a signed amount.  This is the sole
    /// balance-mutation primitive: it refuses a locked account, refuses a
    /// debit beyond the balance (so a balance never goes negative), and
    /// otherwise applies exactly the requested delta.
    pub fn adjust_balance(&mut self, account_id: &String, amount: i64) -> (r: Result<
        (),
        AccountError,
    >)
        requires
            old(self).wf(),
            old(self)@.contains_key(account_id@) && !old(self)@[account_id@].locked && amount > 0
                ==> old(self)@[account_id@].balance + amount <= u64::MAX,
        ensures
            final(self).wf(),
            final(self).spec_max() == old(self).spec_max(),
            ({
                let m = old(self)@;
                let k = account_id@;
                if !m.contains_key(k) {
                    r == Err::<(), AccountError>(AccountError::AccountNotFound) && final(self)@
                        == m
                } else if m[k].locked {
                    r == Err::<(), AccountError>(AccountError::AccountLocked) && final(self)@ == m
                } else if amount < 0 && m[k].balance < -(amount as int) {
                    r == Err::<(), AccountError>(AccountError::InsufficientBalance) && final(self)@
                        == m
                } else {
                    r == Ok::<(), AccountError>(()) && final(self)@ == m.insert(
                        k,
                        AccountView { balance: (m[k].balance + amount) as u64, ..m[k] },
                    )
                }
            }),
    {
        let det = match self.accounts_map.get(account_id.as_str()) {
            Some(d) => d,
            None => { return Err(AccountError::AccountNotFound) },
        };
        if det.locked {
            return Err(AccountError::AccountLocked);
        }
        let bal = det.balance;
        let new_bal: u64;
        if amount < 0 {
            let need: u64 = if amount == i64::MIN {
                9223372036854775808
            } else {
                (-amount) as u64
            };
            assert(need == -(amount as int));
            if bal < need {
                return Err(AccountError::InsufficientBalance);
            }
            new_bal = bal - need;
        } else {
            new_bal = bal + (amount as u64);
        }
        let new_det = AccountDetails {
            balance: new_bal,
            public_key: det.public_key.clone(),
            transactions: clone_history(&det.transactions),
            locked: det.locked,
        };
        let ghost m0 = self.accounts_map@;
        let ghost gdet = new_det;
        self.accounts_map.insert(account_id.clone(), new_det);
        proof {
            lemma_view_insert(m0, account_id@, gdet);
            assert(gdet@ == AccountView {
                balance: new_bal,
                ..old(self)@[account_id@]
            });
            lemma_wf_after_overwrite(*old(self), *self, account_id@, gdet);
        }
        Ok(())
    }

    /// Overwrites an account's balance outright; refused while the account is
    /// locked.
    pub fn update_account_balance(&mut self, account_id: &String, new_balance: u64) -> (r: Result<
        (),
        AccountError,
    >)
        requires
            old(self).wf(),
        ensures
            final(self).wf(),
            final(self).spec_max() == old(self).spec_max(),
            ({
                let m = old(self)@;
                let k = account_id@;
                if !m.contains_key(k) {
                    r == Err::<(), AccountError>(AccountError::AccountNotFound) && final(self)@
                        == m
                } else if m[k].locked {
                    r == Err::<(), AccountError>(AccountError::AccountLocked) && final(self)@ == m
                } else {
                    r == Ok::<(), AccountError>(()) && final(self)@ == m.insert(
                        k,
                        AccountView { balance: new_balance, ..m[k] },
                    )
                }
            }),
    {
        let det = match self.accounts_map.get(account_id.as_str()) {
            Some(d) => d,
            None => { return Err(AccountError::AccountNotFound) },
        };
        if det.locked {
            return Err(AccountError::AccountLocked);
        }
        let new_det = AccountDetails {
            balance: new_balance,
            public_key: det.public_key.clone(),
            transactions: clone_history(&det.transactions),
            locked: det.locked,
        };
        let ghost m0 = self.accounts_map@;
        let ghost gdet = new_det;
        self.accounts_map.insert(account_id.clone(), new_det);
        proof {
            lemma_view_insert(m0, account_id@, gdet);
            assert(gdet@ == AccountView { balance: new_balance, ..old(self)@[account_id@] });
            lemma_wf_after_overwrite(*old(self), *self, account_id@, gdet);
        }
        Ok(())
    }

    /// Sets the lock flag: while locked, every balance mutation fails.
    pub fn lock_account(&mut self, account_id: &String) -> (r: Result<(), AccountError>)
        requires
            old(self).wf(),
        ensures
            final(self).wf(),
            final(self).spec_max() == old(self).spec_max(),
            !old(self)@.contains_key(account_id@) ==> r == Err::<(), AccountError>(
                AccountError::AccountNotFound,
            ) && final(self)@ == old(self)@,
            old(self)@.contains_key(account_id@) ==> r == Ok::<(), AccountError>(())
                && final(self)@ == old(self)@.insert(
                account_id@,
                AccountView { locked: true, ..old(self)@[account_id@] },
            ),
    {
        self.set_locked(account_id, true)
    }

    /// Clears the lock flag.
    pub fn unlock_account(&mut self, account_id: &String) -> (r: Result<(), AccountError>)
        requires
            old(self).wf(),
        ensures
            final(self).wf(),
            final(self).spec_max() == old(self).spec_max(),
            !old(self)@.contains_key(account_id@) ==> r == Err::<(), AccountError>(
                AccountError::AccountNotFound,
            ) && final(self)@ == old(self)@,
            old(self)@.contains_key(account_id@) ==> r == Ok::<(), AccountError>(())
                && final(self)@ == old(self)@.insert(
                account_id@,
                AccountView { locked: false, ..old(self)@[account_id@] },
            ),
    {
        self.set_locked(account_id, false)
    }

    /// Writes the lock flag of an account.
    fn set_locked(&mut self, account_id: &String, locked: bool) -> (r: Result<(), AccountError>)
        requires
            old(self).wf(),
        ensures
            final(self).wf(),
            final(self).spec_max() == old(self).spec_max(),
            !old(self)@.contains_key(account_id@) ==> r == Err::<(), AccountError>(
                AccountError::AccountNotFound,
            ) && final(self)@ == old(self)@,
            old(self)@.contains_key(account_id@) ==> r == Ok::<(), AccountError>(())
                && final(self)@ == old(self)@.insert(
                account_id@,
                AccountView { locked: locked, ..old(self)@[account_id@] },
            ),
    {
        let det = match self.accounts_map.get(account_id.as_str()) {
            Some(d) => d,
            None => { return Err(AccountError::AccountNotFound) },
        };
        let new_det = AccountDetails {
            balance: det.balance,
            public_key: det.public_key.clone(),
            transactions: clone_history(&det.transactions),
            locked,
        };
        let ghost m0 = self.accounts_map@;
        let ghost gdet = new_det;
        self.accounts_map.insert(account_id.clone(), new_det);
        proof {
            lemma_view_insert(m0, account_id@, gdet);
            assert(gdet@ == AccountView { locked: locked, ..old(self)@[account_id@] });
            lemma_wf_after_overwrite(*old(self), *self, account_id@, gdet);
        }
        Ok(())
    }

    /// Reports whether the account is locked: `Ok` when present and unlocked,
    /// `AccountLocked` when locked, `AccountNotFound` when absent.
    pub fn is_account_locked(&self, account_id: &String) -> (r: Result<(), AccountError>)
        ensures
            !self@.contains_key(account_id@) ==> r == Err::<(), AccountError>(
                AccountError::AccountNotFound,
            ),
            self@.contains_key(account_id@) && self@[account_id@].locked ==> r == Err::<
                (),
                AccountError,
            >(AccountError::AccountLocked),
            self@.contains_key(account_id@) && !self@[account_id@].locked ==> r == Ok::<
                (),
                AccountError,
            >(()),
    {
        match self.accounts_map.get(account_id.as_str()) {
            Some(account) => if account.locked {
                Err(AccountError::AccountLocked)
            } else {
                Ok(())
            },
            None => Err(AccountError::AccountNotFound),
        }
    }

    /// The full stored state of an account.
    pub fn get_account_details(&self, account_id: &String) -> (r: Result<
        &AccountDetails,
        AccountError,
    >)
        ensures
            self@.contains_key(account_id@) ==> (r matches Ok(d) && d@ == self@[account_id@]),
            !self@.contains_key(account_id@) ==> r == Err::<&AccountDetails, AccountError>(
                AccountError::AccountNotFound,
            ),
    {
        match self.accounts_map.get(account_id.as_str()) {
            Some(d) => Ok(d),
            None => Err(AccountError::AccountNotFound),
        }
    }

    /// Replaces an account's public key, but only when the caller presents the
    /// key currently on file: a compare-and-swap key rotation.
    pub fn set_public_key_secure(
        &mut self,
        account_id: &String,
        old_key: &PublicKey,
        new_key: PublicKey,
    ) -> (r: Result<(), AccountError>)
        requires
            old(self).wf(),
        ensures
            final(self).wf(),
            final(self).spec_max() == old(self).spec_max(),
            ({
                let m = old(self)@;
                let k = account_id@;
                if !m.contains_key(k) {
                    r == Err::<(), AccountError>(AccountError::AccountNotFound) && final(self)@
                        == m
                } else if m[k].public_key != old_key.value@ {
                    r == Err::<(), AccountError>(AccountError::UnauthorizedKeyChange) && final(self)@
                        == m
                } else {
                    r == Ok::<(), AccountError>(()) && final(self)@ == m.insert(
                        k,
                        AccountView { public_key: new_key.value@, ..m[k] },
                    )
                }
            }),
    {
        let det = match self.accounts_map.get(account_id.as_str()) {
            Some(d) => d,
            None => { return Err(AccountError::AccountNotFound) },
        };
        if !bytes_eq(&det.public_key.value, &old_key.value) {
            return Err(AccountError::UnauthorizedKeyChange);
        }
        let new_det = AccountDetails {
            balance: det.balance,
            public_key: new_key,
            transactions: clone_history(&det.transactions),
            locked: det.locked,
        };
        let ghost m0 = self.accounts_map@;
        let ghost gdet = new_det;
        self.accounts_map.insert(account_id.clone(), new_det);
        proof {
            lemma_view_insert(m0, account_id@, gdet);
            assert(gdet@ == AccountView {
                public_key: gdet.public_key.value@,
                ..old(self)@[account_id@]
            });
            lemma_wf_after_overwrite(*old(self), *self, account_id@, gdet);
        }
        Ok(())
    }

    /// The state digest of an account, if it exists.
    pub fn get_account_hash(&self, account_id: &String) -> (r: Option<Vec<u8>>)
        ensures
            self@.contains_key(account_id@) ==> (r matches Some(v) && v@ == sha256_of(
                account_repr(self@[account_id@]),
            )),
            !self@.contains_key(account_id@) ==> r is None,
    {
        match self.accounts_map.get(account_id.as_str()) {
            Some(account) => Some(AccountHash::compute_hash(account)),
            None => None,
        }
    }

    /// Checks a caller-provided digest against the account's current state:
    /// `Ok` on an exact match, `AccountAlreadyExists` on a mismatch (the
    /// historical reuse of that variant), `AccountNotFound` when absent.
    pub fn validate_account_integrity(&self, account_id: &String, provided_hash: Vec<u8>) -> (r:
        Result<(), AccountError>)
        ensures
            ({
                let k = account_id@;
                if !self@.contains_key(k) {
                    r == Err::<(), AccountError>(AccountError::AccountNotFound)
                } else if sha256_of(account_repr(self@[k])) == provided_hash@ {
                    r == Ok::<(), AccountError>(())
                } else {
                    r == Err::<(), AccountError>(AccountError::AccountAlreadyExists)
                }
            }),
    {
        match self.get_account_hash(account_id) {
            Some(hash) => if bytes_eq(&hash, &provided_hash) {
                Ok(())
            } else {
                Err(AccountError::AccountAlreadyExists)
            },
            None => Err(AccountError::AccountNotFound),
        }
    }

    /// Removes an account and all its history.
    #[verifier::loop_isolation(false)]
    pub fn delete_account(&mut self, account_id: &String) -> (r: Result<(), AccountError>)
        requires
            old(self).wf(),
        ensures
            final(self).wf(),
            final(self).spec_max() == old(self).spec_max(),
            !old(self)@.contains_key(account_id@) ==> r == Err::<(), AccountError>(
                AccountError::AccountNotFound,
            ) && final(self)@ == old(self)@,
            old(self)@.contains_key(account_id@) ==> r == Ok::<(), AccountError>(())
                && final(self)@ == old(self)@.remove(account_id@),
    {
        if !self.accounts_map.contains_key(account_id.as_str()) {
            return Err(AccountError::AccountNotFound);
        }
        let len = self.ids.len();
        let mut i: usize = 0;
        while i < len
            invariant
                i <= len,
                len == self.ids@.len(),
                forall|j: int| 0 <= j < i ==> self.ids@[j]@ != account_id@,
                self == old(self),
            decreases len - i,
        {
            if self.ids[i] == *account_id {
                let ghost m0 = self.accounts_map@;
                let ghost ids0 = self.ids@;
                proof {
                    assert(ids0[i as int]@ == account_id@);
                }
                self.ids.remove(i);
                self.accounts_map.remove(account_id.as_str());
                proof {
                    lemma_view_remove(m0, account_id@);
                    assert(self.ids@ =~= ids0.subrange(0, i as int) + ids0.subrange(
                        i as int + 1,
                        ids0.len() as int,
                    ));
                    assert forall|p: int, q: int|
                        0 <= p < q < self.ids@.len() implies self.ids@[p]@ != self.ids@[q]@ by {
                        let p0 = if p < i { p } else { p + 1 };
                        let q0 = if q < i { q } else { q + 1 };
                        assert(self.ids@[p] == ids0[p0]);
                        assert(self.ids@[q] == ids0[q0]);
                    }
                    assert forall|j: int|
                        0 <= j < self.ids@.len() implies self.accounts_map@.contains_key(
                        #[trigger] self.ids@[j]@,
                    ) by {
                        let j0 = if j < i { j } else { j + 1 };
                        assert(self.ids@[j] == ids0[j0]);
                        assert(ids0[j0]@ != account_id@);
                    }
                    assert forall|k: Seq<char>|
                        #[trigger] self.accounts_map@.contains_key(k) implies exists|j: int|
                        0 <= j < self.ids@.len() && self.ids@[j]@ == k by {
                        assert(m0.remove(account_id@).contains_key(k));
                        assert(m0.contains_key(k) && k != account_id@);
                        let j0 = choose|j0: int| 0 <= j0 < ids0.len() && ids0[j0]@ == k;
                        assert(j0 != i);
                        let j = if j0 < i { j0 } else { j0 - 1 };
                        assert(self.ids@[j] == ids0[j0]);
                    }
                }
                return Ok(());
            }
            i = i + 1;
        }
        proof {
            assert(self.accounts_map@.contains_key(account_id@));
            let j = choose|j: int| 0 <= j < self.ids@.len() && self.ids@[j]@ == account_id@;
            assert(false);
        }
        Err(AccountError::AccountNotFound)
    }

    /// Every account id currently on the ledger, each exactly once.
    pub fn list_all_accounts(&self) -> (r: Vec<String>)
        requires
            self.wf(),
        ensures
            forall|i: int| 0 <= i < r@.len() ==> self@.contains_key(#[trigger] r@[i]@),
            forall|k: Seq<char>| #[trigger] self@.contains_key(k) ==> exists|i: int|
                0 <= i < r@.len() && r@[i]@ == k,
            forall|i: int, j: int| 0 <= i < j < r@.len() ==> r@[i]@ != r@[j]@,
    {
        let len = self.ids.len();
        let mut r: Vec<String> = Vec::new();
        let mut i: usize = 0;
        while i < len
            invariant
                i <= len,
                len == self.ids@.len(),
                r@.len() == i,
                forall|j: int| 0 <= j < i ==> r@[j]@ == self.ids@[j]@,
            decreases len - i,
        {
            r.push(self.ids[i].clone());
            i = i + 1;
        }
        proof {
            assert forall|k: Seq<char>| #[trigger] self@.contains_key(k) implies exists|i: int|
                0 <= i < r@.len() && r@[i]@ == k by {
                let j = choose|j: int| 0 <= j < self.ids@.len() && self.ids@[j]@ == k;
                assert(r@[j]@ == k);
            }
        }
        r
    }

    /// Appends a record to the account's bounded history, evicting the oldest
    /// record when the ring is full.
    pub fn add_transaction(&mut self, account_id: &String, transaction: TransactionHistory) -> (r:
        Result<(), AccountError>)
        requires
            old(self).wf(),
        ensures
            final(self).wf(),
            final(self).spec_max() == old(self).spec_max(),
            !old(self)@.contains_key(account_id@) ==> r == Err::<(), AccountError>(
                AccountError::AccountNotFound,
            ) && final(self)@ == old(self)@,
            old(self)@.contains_key(account_id@) ==> r == Ok::<(), AccountError>(())
                && final(self)@ == old(self)@.insert(
                account_id@,
                AccountView {
                    transactions: bounded_push(
                        old(self)@[account_id@].transactions,
                        transaction@,
                        old(self).spec_max(),
                    ),
                    ..old(self)@[account_id@]
                },
            ),
    {
        let det = match self.accounts_map.get(account_id.as_str()) {
            Some(d) => d,
            None => { return Err(AccountError::AccountNotFound) },
        };
        let mut new_history = clone_history(&det.transactions);
        if new_history.len() >= self.max_transaction_history {
            new_history.pop_front();
        }
        new_history.push_back(transaction);
        let new_det = AccountDetails {
            balance: det.balance,
            public_key: det.public_key.clone(),
            transactions: new_history,
            locked: det.locked,
        };
        let ghost m0 = self.accounts_map@;
        let ghost gdet = new_det;
        self.accounts_map.insert(account_id.clone(), new_det);
        proof {
            lemma_view_insert(m0, account_id@, gdet);
            let ts = old(self)@[account_id@].transactions;
            if ts.len() >= old(self).spec_max() && ts.len() > 0 {
                assert(gdet.transactions@.map_values(|t: TransactionHistory| t@) =~= ts.drop_first(
                ).push(gdet.transactions@.last()@));
            } else {
                assert(gdet.transactions@.map_values(|t: TransactionHistory| t@) =~= ts.push(
                    gdet.transactions@.last()@,
                ));
            }
            lemma_wf_after_overwrite(*old(self), *self, account_id@, gdet);
        }
        Ok(())
    }

    /// A copy of the account's recorded history, oldest first.
    pub fn get_transactions(&self, account_id: &String) -> (r: Result<
        VecDeque<TransactionHistory>,
        AccountError,
    >)
        ensures
            self@.contains_key(account_id@) ==> (r matches Ok(v) && v@.map_values(
                |t: TransactionHistory| t@,
            ) == self@[account_id@].transactions),
            !self@.contains_key(account_id@) ==> r == Err::<
                VecDeque<TransactionHistory>,
                AccountError,
            >(AccountError::AccountNotFound),
    {
        match self.accounts_map.get(account_id.as_str()) {
            Some(account) => Ok(clone_history(&account.transactions)),
            None => Err(AccountError::AccountNotFound),
        }
    }
}

/// Law: a balance adjustment that succeeds lands exactly on the old balance
/// plus the delta, and a balance is never negative: a debit beyond the
/// balance is refused before any change is made.
pub proof fn lemma_adjust_balance_never_negative(
    m: Map<Seq<char>, AccountView>,
    k: Seq<char>,
    amount: i64,
)
    requires
        m.contains_key(k),
        !m[k].locked,
        !(amount < 0 && m[k].balance < -(amount as int)),
        m[k].balance + amount <= u64::MAX,
    ensures
        ({
            let m2 = m.insert(k, AccountView { balance: (m[k].balance + amount) as u64, ..m[k] });
            m2[k].balance == m[k].balance + amount && m2[k].balance >= 0
        }),
{
}

/// Law: locking is absolute.  After an account is locked, the state that
/// every balance mutation sees satisfies the condition under which
/// `adjust_balance` and `update_account_balance` refuse with `AccountLocked`
/// and change nothing, until `unlock_account` clears the flag again.
pub proof fn lemma_locked_is_absolute(m: Map<Seq<char>, AccountView>, k: Seq<char>)
    requires
        m.contains_key(k),
    ensures
        m.insert(k, AccountView { locked: true, ..m[k] })[k].locked,
        !m.insert(k, AccountView { locked: false, ..m[k] })[k].locked,
{
}

} // verus!
