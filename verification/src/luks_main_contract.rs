//! The main contract: the public face of the ledger.  It owns a simple
//! account map keyed by address, an owner who alone may delete accounts or
//! hand over ownership, a fee account, and a per-address transfer history.
//!
//! Every transfer checks everything before it moves anything: a failed
//! transfer leaves every balance as it was.

use vstd::prelude::*;
use vstd::hash_map::StringHashMap;

verus! {

/// The flat fee charged on a recorded transfer.
pub const TRANSACTION_FEE: u64 = 10;

/// Reasons a contract operation fails.
#[derive(Clone, Copy, Debug, PartialEq, Eq, Structural)]
pub enum LuksError {
    AccountAlreadyExists,
    AccountDeletionError,
    AccountNotFound,
    InsufficientBalance,
    InvalidTransaction,
    Unauthorized,
    CoinIssueError,
    TransactionNotSecured,
}

/// An address on the chain.
#[derive(Debug)]
pub struct Address {
    pub value: String,
}

impl View for Address {
    type V = Seq<char>;

    open spec fn view(&self) -> Seq<char> {
        self.value@
    }
}

impl Clone for Address {
    fn clone(&self) -> (r: Self)
        ensures
            r == self,
    {
        Address { value: self.value.clone() }
    }
}

impl PartialEq for Address {
    fn eq(&self, other: &Address) -> (r: bool) {
        self.value == other.value
    }
}

impl vstd::std_specs::cmp::PartialEqSpecImpl for Address {
    open spec fn obeys_eq_spec() -> bool {
        true
    }

    open spec fn eq_spec(&self, other: &Address) -> bool {
        self.value@ == other.value@
    }
}

/// A contract account: a balance and an optional public key.
#[derive(Debug)]
pub struct Account {
    pub balance: u64,
    pub public_key: Option<String>,
}

/// The mathematical value of a contract account.
pub struct AcctView {
    pub balance: u64,
    pub public_key: Option<Seq<char>>,
}

impl View for Account {
    type V = AcctView;

    open spec fn view(&self) -> AcctView {
        AcctView {
            balance: self.balance,
            public_key: match self.public_key {
                Some(k) => Some(k@),
                None => None,
            },
        }
    }
}

impl Clone for Account {
    fn clone(&self) -> (r: Self)
        ensures
            r == self,
    {
        Account {
            balance: self.balance,
            public_key: match &self.public_key {
                Some(k) => Some(k.clone()),
                None => None,
            },
        }
    }
}

/// One recorded transfer between addresses.
#[derive(Debug)]
pub struct TransactionRecord {
    from: Address,
    to: Address,
    amount: u64,
    timestamp: u64,
}

/// The mathematical value of a transfer record.
pub struct ContractRecordView {
    pub from: Seq<char>,
    pub to: Seq<char>,
    pub amount: u64,
    pub timestamp: u64,
}

impl View for TransactionRecord {
    type V = ContractRecordView;

    closed spec fn view(&self) -> ContractRecordView {
        ContractRecordView {
            from: self.from@,
            to: self.to@,
            amount: self.amount,
            timestamp: self.timestamp,
        }
    }
}

impl Clone for TransactionRecord {
    fn clone(&self) -> (r: Self)
        ensures
            r == self,
    {
        TransactionRecord {
            from: self.from.clone(),
            to: self.to.clone(),
            amount: self.amount,
            timestamp: self.timestamp,
        }
    }
}

/// The main contract state.
pub struct LuksMainContract {
    pub owner: Address,
    pub fees_account: Address,
    accounts: StringHashMap<Account>,
    accounts_transaction_history: StringHashMap<Vec<TransactionRecord>>,
}

/// Copies a list of transfer records.
fn clone_records(v: &Vec<TransactionRecord>) -> (r: Vec<TransactionRecord>)
    ensures
        r@ == v@,
{
    let len = v.len();
    let mut r: Vec<TransactionRecord> = Vec::new();
    let mut i: usize = 0;
    while i < len
        invariant
            i <= len,
            len == v@.len(),
            r@ == v@.subrange(0, i as int),
        decreases len - i,
    {
        r.push(v[i].clone());
        assert(v@.subrange(0, i as int + 1) =~= v@.subrange(0, i as int).push(v@[i as int]));
        i = i + 1;
    }
    assert(v@.subrange(0, len as int) =~= v@);
    r
}

impl LuksMainContract {
    /// The contract owner's address.
    pub closed spec fn spec_owner(&self) -> Seq<char> {
        self.owner@
    }

    /// The address that collects transfer fees.
    pub closed spec fn spec_fees(&self) -> Seq<char> {
        self.fees_account@
    }

    /// The account map, by address.
    pub closed spec fn accts(&self) -> Map<Seq<char>, AcctView> {
        self.accounts@.map_values(|a: Account| a@)
    }

    /// The per-address transfer history.
    pub closed spec fn history(&self) -> Map<Seq<char>, Seq<ContractRecordView>> {
        self.accounts_transaction_history@.map_values(
            |v: Vec<TransactionRecord>| v@.map_values(|t: TransactionRecord| t@),
        )
    }

    /// A contract with the given owner and fee account and no accounts yet.
    pub fn new(owner: Address, fees_account: Address) -> (r: LuksMainContract)
        ensures
            r.spec_owner() == owner@,
            r.spec_fees() == fees_account@,
            r.accts() == Map::<Seq<char>, AcctView>::empty(),
            r.history() == Map::<Seq<char>, Seq<ContractRecordView>>::empty(),
    {
        let r = LuksMainContract {
            owner,
            fees_account,
            accounts: StringHashMap::new(),
            accounts_transaction_history: StringHashMap::new(),
        };
        proof {
            assert(r.accts() =~= Map::<Seq<char>, AcctView>::empty());
            assert(r.history() =~= Map::<Seq<char>, Seq<ContractRecordView>>::empty());
        }
        r
    }

    /// Creates an account with an optional public key; an address already in
    /// use is refused.
    pub fn create_account(
        &mut self,
        address: Address,
        initial_balance: u64,
        public_key: Option<String>,
    ) -> (r: Result<(), LuksError>)
        ensures
            final(self).spec_owner() == old(self).spec_owner(),
            final(self).spec_fees() == old(self).spec_fees(),
            final(self).history() == old(self).history(),
            old(self).accts().contains_key(address@) ==> r == Err::<(), LuksError>(
                LuksError::AccountAlreadyExists,
            ) && final(self).accts() == old(self).accts(),
            !old(self).accts().contains_key(address@) ==> r == Ok::<(), LuksError>(())
                && final(self).accts() == old(self).accts().insert(
                address@,
                AcctView {
                    balance: initial_balance,
                    public_key: match public_key {
                        Some(k) => Some(k@),
                        None => None::<Seq<char>>,
                    },
                },
            ),
    {
        if self.accounts.contains_key(address.value.as_str()) {
            return Err(LuksError::AccountAlreadyExists);
        }
        let account = Account { balance: initial_balance, public_key };
        let ghost m0 = self.accounts@;
        let ghost g = account;
        self.accounts.insert(address.value, account);
        proof {
            assert(self.accts() =~= old(self).accts().insert(address@, g@));
        }
        Ok(())
    }

    /// Deletes an account; only the contract owner may do this.
    pub fn delete_account(&mut self, address: &Address, caller: &Address) -> (r: Result<
        (),
        LuksError,
    >)
        ensures
            final(self).spec_owner() == old(self).spec_owner(),
            final(self).spec_fees() == old(self).spec_fees(),
            final(self).history() == old(self).history(),
            ({
                if old(self).spec_owner() != caller@ {
                    r == Err::<(), LuksError>(LuksError::Unauthorized) && final(self).accts()
                        == old(self).accts()
                } else if !old(self).accts().contains_key(address@) {
                    r == Err::<(), LuksError>(LuksError::AccountDeletionError) && final(self).accts() == old(self).accts()
                } else {
                    r == Ok::<(), LuksError>(()) && final(self).accts() == old(self).accts().remove(address@)
                }
            }),
    {
        if !(self.owner == *caller) {
            return Err(LuksError::Unauthorized);
        }
        if !self.accounts.contains_key(address.value.as_str()) {
            return Err(LuksError::AccountDeletionError);
        }
        self.accounts.remove(address.value.as_str());
        proof {
            assert(self.accts() =~= old(self).accts().remove(address@));
        }
        Ok(())
    }

    /// The account at an address, if any.
    pub fn get_account_details(&self, address: &Address) -> (r: Option<&Account>)
        ensures
            self.accts().contains_key(address@) ==> (r matches Some(a) && a@ == self.accts()[
                address@
            ]),
            !self.accts().contains_key(address@) ==> r is None,
    {
        self.accounts.get(address.value.as_str())
    }

    /// Credits freshly issued coins to an address.
    pub fn issue_coins(&mut self, address: &Address, amount: u64) -> (r: Result<(), LuksError>)
        ensures
            final(self).spec_owner() == old(self).spec_owner(),
            final(self).spec_fees() == old(self).spec_fees(),
            final(self).history() == old(self).history(),
            ({
                let m = old(self).accts();
                if !m.contains_key(address@) {
                    r == Err::<(), LuksError>(LuksError::AccountNotFound) && final(self).accts()
                        == m
                } else if m[address@].balance + amount > u64::MAX {
                    r == Err::<(), LuksError>(LuksError::CoinIssueError) && final(self).accts()
                        == m
                } else {
                    r == Ok::<(), LuksError>(()) && final(self).accts() == m.insert(
                        address@,
                        AcctView { balance: (m[address@].balance + amount) as u64, ..m[address@] },
                    )
                }
            }),
    {
        let account = match self.accounts.get(address.value.as_str()) {
            Some(a) => a,
            None => { return Err(LuksError::AccountNotFound) },
        };
        let new_balance = match account.balance.checked_add(amount) {
            Some(b) => b,
            None => { return Err(LuksError::CoinIssueError) },
        };
        let mut new_account = account.clone();
        new_account.balance = new_balance;
        let ghost g = new_account;
        self.accounts.insert(address.value.clone(), new_account);
        proof {
            assert(g@ == AcctView { balance: g.balance, ..old(self).accts()[address@] });
            assert(self.accts() =~= old(self).accts().insert(address@, g@));
        }
        Ok(())
    }

    /// Takes `amount` off the balance at `key`; the caller has checked that
    /// the account exists and covers it.
    fn debit(&mut self, key: &String, amount: u64)
        requires
            old(self).accts().contains_key(key@),
            old(self).accts()[key@].balance >= amount,
        ensures
            final(self).spec_owner() == old(self).spec_owner(),
            final(self).spec_fees() == old(self).spec_fees(),
            final(self).history() == old(self).history(),
            final(self).accts() == old(self).accts().insert(
                key@,
                AcctView {
                    balance: (old(self).accts()[key@].balance - amount) as u64,
                    ..old(self).accts()[key@]
                },
            ),
    {
        let account = match self.accounts.get(key.as_str()) {
            Some(a) => a,
            None => {
                proof {
                    assert(false);
                }
                return ;
            },
        };
        let mut new_account = account.clone();
        new_account.balance = new_account.balance - amount;
        let ghost g = new_account;
        self.accounts.insert(key.clone(), new_account);
        proof {
            assert(g@ == AcctView { balance: g.balance, ..old(self).accts()[key@] });
            assert(self.accts() =~= old(self).accts().insert(key@, g@));
        }
    }

    /// Adds `amount` to the balance at `key`; the caller has checked that the
    /// account exists and that the balance does not overflow.
    fn credit(&mut self, key: &String, amount: u64)
        requires
            old(self).accts().contains_key(key@),
            old(self).accts()[key@].balance + amount <= u64::MAX,
        ensures
            final(self).spec_owner() == old(self).spec_owner(),
            final(self).spec_fees() == old(self).spec_fees(),
            final(self).history() == old(self).history(),
            final(self).accts() == old(self).accts().insert(
                key@,
                AcctView {
                    balance: (old(self).accts()[key@].balance + amount) as u64,
                    ..old(self).accts()[key@]
                },
            ),
    {
        let account = match self.accounts.get(key.as_str()) {
            Some(a) => a,
            None => {
                proof {
                    assert(false);
                }
                return ;
            },
        };
        let mut new_account = account.clone();
        new_account.balance = new_account.balance + amount;
        let ghost g = new_account;
        self.accounts.insert(key.clone(), new_account);
        proof {
            assert(g@ == AcctView { balance: g.balance, ..old(self).accts()[key@] });
            assert(self.accts() =~= old(self).accts().insert(key@, g@));
        }
    }

    /// Moves `amount` from one address to another, with no fee.  The request
    /// must carry a signature, the amount must be positive, both accounts
    /// must exist and the sender must cover the amount; everything is checked
    /// before any balance moves.
    pub fn initiate_transfer(
        &mut self,
        from: &Address,
        to: &Address,
        amount: u64,
        signature: String,
    ) -> (r: Result<(), LuksError>)
        ensures
            final(self).spec_owner() == old(self).spec_owner(),
            final(self).spec_fees() == old(self).spec_fees(),
            final(self).history() == old(self).history(),
            ({
                let m = old(self).accts();
                let unchanged = final(self).accts() == m;
                if signature@.len() == 0 {
                    r == Err::<(), LuksError>(LuksError::TransactionNotSecured) && unchanged
                } else if amount == 0 {
                    r == Err::<(), LuksError>(LuksError::InvalidTransaction) && unchanged
                } else if !m.contains_key(from@) || !m.contains_key(to@) {
                    r == Err::<(), LuksError>(LuksError::AccountNotFound) && unchanged
                } else if m[from@].balance < amount {
                    r == Err::<(), LuksError>(LuksError::InsufficientBalance) && unchanged
                } else if from@ != to@ && m[to@].balance + amount > u64::MAX {
                    r == Err::<(), LuksError>(LuksError::InvalidTransaction) && unchanged
                } else {
                    let m1 = m.insert(
                        from@,
                        AcctView { balance: (m[from@].balance - amount) as u64, ..m[from@] },
                    );
                    let m2 = m1.insert(
                        to@,
                        AcctView { balance: (m1[to@].balance + amount) as u64, ..m1[to@] },
                    );
                    r == Ok::<(), LuksError>(()) && final(self).accts() == m2
                }
            }),
    {
        if signature.as_str().is_empty() {
            return Err(LuksError::TransactionNotSecured);
        }
        if amount == 0 {
            return Err(LuksError::InvalidTransaction);
        }
        if !self.accounts.contains_key(from.value.as_str()) || !self.accounts.contains_key(
            to.value.as_str(),
        ) {
            return Err(LuksError::AccountNotFound);
        }
        let sender_balance = match self.accounts.get(from.value.as_str()) {
            Some(a) => a.balance,
            None => { return Err(LuksError::AccountNotFound) },
        };
        if sender_balance < amount {
            return Err(LuksError::InsufficientBalance);
        }
        let recipient_balance = match self.accounts.get(to.value.as_str()) {
            Some(a) => a.balance,
            None => { return Err(LuksError::AccountNotFound) },
        };
        if !(from.value == to.value) && recipient_balance.checked_add(amount).is_none() {
            return Err(LuksError::InvalidTransaction);
        }
        self.debit(&from.value, amount);
        self.credit(&to.value, amount);
        Ok(())
    }

    /// The recorded transfer history of an address, if any.
    pub fn get_transaction_history(&self, address: &Address) -> (r: Option<
        &Vec<TransactionRecord>,
    >)
        ensures
            self.history().contains_key(address@) ==> (r matches Some(v) && v@.map_values(
                |t: TransactionRecord| t@,
            ) == self.history()[address@]),
            !self.history().contains_key(address@) ==> r is None,
    {
        self.accounts_transaction_history.get(address.value.as_str())
    }

    /// Hands the contract to a new owner; only the current owner may do this.
    pub fn transfer_ownership(&mut self, new_owner: Address, caller: &Address) -> (r: Result<
        (),
        LuksError,
    >)
        ensures
            final(self).spec_fees() == old(self).spec_fees(),
            final(self).accts() == old(self).accts(),
            final(self).history() == old(self).history(),
            old(self).spec_owner() != caller@ ==> r == Err::<(), LuksError>(LuksError::Unauthorized)
                && final(self).spec_owner() == old(self).spec_owner(),
            old(self).spec_owner() == caller@ ==> r == Ok::<(), LuksError>(()) && final(self).spec_owner() == new_owner@,
    {
        if !(self.owner == *caller) {
            return Err(LuksError::Unauthorized);
        }
        self.owner = new_owner;
        Ok(())
    }

    /// A fixed timestamp baseline; the embedding application supplies real
    /// clock readings where they are needed.
    pub fn get_current_timestamp(&self) -> (r: u64)
        ensures
            r == 0,
    {
        0
    }

    /// Moves `amount` from one address to another and charges the flat fee to
    /// the sender, crediting it to the fee account; the transfer is recorded
    /// in the sender's history.  Everything is checked before any balance
    /// moves.
    pub fn initiate_transfer_with_fee(
        &mut self,
        from: &Address,
        to: &Address,
        amount: u64,
        signature: String,
    ) -> (r: Result<(), LuksError>)
        ensures
            final(self).spec_owner() == old(self).spec_owner(),
            final(self).spec_fees() == old(self).spec_fees(),
            ({
                let m = old(self).accts();
                let fees = old(self).spec_fees();
                let unchanged = final(self).accts() == m && final(self).history() == old(self).history();
                if signature@.len() == 0 {
                    r == Err::<(), LuksError>(LuksError::TransactionNotSecured) && unchanged
                } else if amount == 0 {
                    r == Err::<(), LuksError>(LuksError::InvalidTransaction) && unchanged
                } else if !m.contains_key(from@) || !m.contains_key(to@) {
                    r == Err::<(), LuksError>(LuksError::AccountNotFound) && unchanged
                } else if !m.contains_key(fees) {
                    r == Err::<(), LuksError>(LuksError::AccountNotFound) && unchanged
                } else if amount + TRANSACTION_FEE > u64::MAX {
                    r == Err::<(), LuksError>(LuksError::InvalidTransaction) && unchanged
                } else if m[from@].balance < amount + TRANSACTION_FEE {
                    r == Err::<(), LuksError>(LuksError::InsufficientBalance) && unchanged
                } else {
                    let m1 = m.insert(
                        from@,
                        AcctView {
                            balance: (m[from@].balance - TRANSACTION_FEE) as u64,
                            ..m[from@]
                        },
                    );
                    let m2 = m1.insert(
                        fees,
                        AcctView {
                            balance: (m1[fees].balance + TRANSACTION_FEE) as u64,
                            ..m1[fees]
                        },
                    );
                    let m3 = m2.insert(
                        from@,
                        AcctView { balance: (m2[from@].balance - amount) as u64, ..m2[from@] },
                    );
                    let m4 = m3.insert(
                        to@,
                        AcctView { balance: (m3[to@].balance + amount) as u64, ..m3[to@] },
                    );
                    let rec = ContractRecordView {
                        from: from@,
                        to: to@,
                        amount,
                        timestamp: 0,
                    };
                    let old_hist = if old(self).history().contains_key(from@) {
                        old(self).history()[from@]
                    } else {
                        Seq::<ContractRecordView>::empty()
                    };
                    if (fees != from@ && m1[fees].balance + TRANSACTION_FEE > u64::MAX) || (to@
                        != from@ && m3[to@].balance + amount > u64::MAX) {
                        r == Err::<(), LuksError>(LuksError::InvalidTransaction) && unchanged
                    } else {
                        r == Ok::<(), LuksError>(()) && final(self).accts() == m4 && final(self).history() == old(self).history().insert(from@, old_hist.push(rec))
                    }
                }
            }),
    {
        if signature.as_str().is_empty() {
            return Err(LuksError::TransactionNotSecured);
        }
        if amount == 0 {
            return Err(LuksError::InvalidTransaction);
        }
        if !self.accounts.contains_key(from.value.as_str()) || !self.accounts.contains_key(
            to.value.as_str(),
        ) {
            return Err(LuksError::AccountNotFound);
        }
        if !self.accounts.contains_key(self.fees_account.value.as_str()) {
            return Err(LuksError::AccountNotFound);
        }
        let total = match amount.checked_add(TRANSACTION_FEE) {
            Some(t) => t,
            None => { return Err(LuksError::InvalidTransaction) },
        };
        let sender_balance = match self.accounts.get(from.value.as_str()) {
            Some(a) => a.balance,
            None => { return Err(LuksError::AccountNotFound) },
        };
        if sender_balance < total {
            return Err(LuksError::InsufficientBalance);
        }
        let fees_is_from = self.fees_account.value == from.value;
        let fees_balance = match self.accounts.get(self.fees_account.value.as_str()) {
            Some(a) => a.balance,
            None => { return Err(LuksError::AccountNotFound) },
        };
        if !fees_is_from && fees_balance.checked_add(TRANSACTION_FEE).is_none() {
            return Err(LuksError::InvalidTransaction);
        }
        let to_is_from = to.value == from.value;
        let to_is_fees = to.value == self.fees_account.value;
        if !to_is_from {
            let to_balance = match self.accounts.get(to.value.as_str()) {
                Some(a) => a.balance,
                None => { return Err(LuksError::AccountNotFound) },
            };
            let to_after_fee = if to_is_fees {
                fees_balance + TRANSACTION_FEE
            } else {
                to_balance
            };
            if to_after_fee.checked_add(amount).is_none() {
                return Err(LuksError::InvalidTransaction);
            }
        }
        let fees_key = self.fees_account.value.clone();
        self.debit(&from.value, TRANSACTION_FEE);
        self.credit(&fees_key, TRANSACTION_FEE);
        self.debit(&from.value, amount);
        self.credit(&to.value, amount);
        let record = TransactionRecord {
            from: from.clone(),
            to: to.clone(),
            amount,
            timestamp: self.get_current_timestamp(),
        };
        let new_history = match self.accounts_transaction_history.get(from.value.as_str()) {
            Some(v) => {
                let mut copy = clone_records(v);
                copy.push(record);
                copy
            },
            None => {
                let mut copy: Vec<TransactionRecord> = Vec::new();
                copy.push(record);
                copy
            },
        };
        let ghost ghist = new_history;
        self.accounts_transaction_history.insert(from.value.clone(), new_history);
        proof {
            let rec = ContractRecordView { from: from@, to: to@, amount, timestamp: 0 };
            let old_hist = if old(self).history().contains_key(from@) {
                old(self).history()[from@]
            } else {
                Seq::<ContractRecordView>::empty()
            };
            assert(ghist@.map_values(|t: TransactionRecord| t@) =~= old_hist.push(rec));
            assert(self.history() =~= old(self).history().insert(
                from@,
                ghist@.map_values(|t: TransactionRecord| t@),
            ));
        }
        Ok(())
    }
}

/// Law: a committed transfer conserves value.  Between two distinct
/// addresses the sum of their balances is unchanged, and every other account
/// keeps exactly the balance it had; a transfer to oneself changes nothing.
pub proof fn lemma_transfer_conserves_total(
    m: Map<Seq<char>, AcctView>,
    from: Seq<char>,
    to: Seq<char>,
    amount: u64,
)
    requires
        m.contains_key(from),
        m.contains_key(to),
        m[from].balance >= amount,
        from != to ==> m[to].balance + amount <= u64::MAX,
    ensures
        ({
            let m1 = m.insert(from, AcctView { balance: (m[from].balance - amount) as u64, ..m[from] });
            let m2 = m1.insert(to, AcctView { balance: (m1[to].balance + amount) as u64, ..m1[to] });
            &&& from != to ==> m2[from].balance + m2[to].balance == m[from].balance + m[to].balance
            &&& from == to ==> m2[to].balance == m[to].balance
            &&& forall|k: Seq<char>|
                k != from && k != to && m.contains_key(k) ==> (#[trigger] m2[k]) == m[k]
            &&& m2.dom() == m.dom()
        }),
{
    let m1 = m.insert(from, AcctView { balance: (m[from].balance - amount) as u64, ..m[from] });
    let m2 = m1.insert(to, AcctView { balance: (m1[to].balance + amount) as u64, ..m1[to] });
    assert(m2.dom() =~= m.dom());
}

/// Law: a fee-bearing transfer between three distinct addresses conserves
/// value: the fee moves to the fee account, the amount to the recipient, and
/// the sum over sender, recipient and fee account is unchanged.
pub proof fn lemma_fee_transfer_conserves_total(
    m: Map<Seq<char>, AcctView>,
    from: Seq<char>,
    to: Seq<char>,
    fees: Seq<char>,
    amount: u64,
)
    requires
        m.contains_key(from),
        m.contains_key(to),
        m.contains_key(fees),
        from != to && from != fees && to != fees,
        amount + TRANSACTION_FEE <= u64::MAX,
        m[from].balance >= amount + TRANSACTION_FEE,
        m[fees].balance + TRANSACTION_FEE <= u64::MAX,
        m[to].balance + amount <= u64::MAX,
    ensures
        ({
            let m1 = m.insert(
                from,
                AcctView { balance: (m[from].balance - TRANSACTION_FEE) as u64, ..m[from] },
            );
            let m2 = m1.insert(
                fees,
                AcctView { balance: (m1[fees].balance + TRANSACTION_FEE) as u64, ..m1[fees] },
            );
            let m3 = m2.insert(
                from,
                AcctView { balance: (m2[from].balance - amount) as u64, ..m2[from] },
            );
            let m4 = m3.insert(to, AcctView { balance: (m3[to].balance + amount) as u64, ..m3[to] });
            &&& m4[from].balance + m4[to].balance + m4[fees].balance == m[from].balance
                + m[to].balance + m[fees].balance
            &&& m4[fees].balance == m[fees].balance + TRANSACTION_FEE
            &&& m4[to].balance == m[to].balance + amount
            &&& forall|k: Seq<char>|
                k != from && k != to && k != fees && m.contains_key(k) ==> (#[trigger] m4[k])
                    == m[k]
            &&& m4.dom() == m.dom()
        }),
{
    let m1 = m.insert(
        from,
        AcctView { balance: (m[from].balance - TRANSACTION_FEE) as u64, ..m[from] },
    );
    let m2 = m1.insert(
        fees,
        AcctView { balance: (m1[fees].balance + TRANSACTION_FEE) as u64, ..m1[fees] },
    );
    let m3 = m2.insert(from, AcctView { balance: (m2[from].balance - amount) as u64, ..m2[from] });
    let m4 = m3.insert(to, AcctView { balance: (m3[to].balance + amount) as u64, ..m3[to] });
    assert(m4.dom() =~= m.dom());
}

} // verus!
