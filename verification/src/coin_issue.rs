//! Coin issuance: the pure arithmetic of block rewards.  Only the central
//! bank may issue; each issuance re-derives the reward from the inflation
//! rate, respects the maximum supply, and is keyed by a transaction id that
//! can be used at most once.

use vstd::prelude::*;
use vstd::hash_set::StringHashSet;
use vstd::utf8::encode_utf8;
use crate::hashing::{crypto_sha256_hex, crypto_sha256_hex_of, push_bytes};

verus! {

/// Reasons an issuance fails.
#[derive(Clone, Copy, Debug, PartialEq, Eq, Structural)]
pub enum CoinIssueError {
    TransactionAlreadyProcessed,
    MaxSupplyReached,
    InvalidAddress,
    NotAuthorized,
    IntegrityViolation,
}

/// The issuance ledger: supply counters, reward parameters, the issuing
/// authority, the ids already used, and a running integrity hash.
pub struct CoinIssue {
    total_supply: u64,
    reward_per_block: u64,
    inflation_rate: u64,
    max_supply: u64,
    central_bank: String,
    emitted_transactions: StringHashSet,
    accounts_hash: String,
}

/// The integrity hash after folding a transaction id into the previous hash.
pub open spec fn next_integrity_hash(prev: Seq<char>, tx: Seq<char>) -> Seq<char> {
    crypto_sha256_hex_of(encode_utf8(prev) + encode_utf8(tx))
}

impl CoinIssue {
    /// The coins in circulation.
    pub closed spec fn spec_total(&self) -> u64 {
        self.total_supply
    }

    /// The current per-block reward.
    pub closed spec fn spec_reward(&self) -> u64 {
        self.reward_per_block
    }

    /// The inflation rate, in percent.
    pub closed spec fn spec_rate(&self) -> u64 {
        self.inflation_rate
    }

    /// The hard cap on circulation.
    pub closed spec fn spec_max_supply(&self) -> u64 {
        self.max_supply
    }

    /// The id of the only account allowed to issue.
    pub closed spec fn spec_bank(&self) -> Seq<char> {
        self.central_bank@
    }

    /// The transaction ids already used for issuance.
    pub closed spec fn emitted(&self) -> Set<Seq<char>> {
        self.emitted_transactions@
    }

    /// The running integrity hash.
    pub closed spec fn spec_hash(&self) -> Seq<char> {
        self.accounts_hash@
    }

    /// A fresh issuance ledger.
    pub fn new(
        initial_supply: u64,
        reward_per_block: u64,
        inflation_rate: u64,
        max_supply: u64,
        central_bank: String,
    ) -> (r: CoinIssue)
        ensures
            r.spec_total() == initial_supply,
            r.spec_reward() == reward_per_block,
            r.spec_rate() == inflation_rate,
            r.spec_max_supply() == max_supply,
            r.spec_bank() == central_bank@,
            r.emitted() == Set::<Seq<char>>::empty(),
            r.spec_hash() == "some_real_initial_hash_value"@,
    {
        CoinIssue {
            total_supply: initial_supply,
            reward_per_block,
            inflation_rate,
            max_supply,
            central_bank,
            emitted_transactions: StringHashSet::new(),
            accounts_hash: "some_real_initial_hash_value".to_owned(),
        }
    }

    /// True exactly for the central bank's own address.
    pub fn can_issue_coins(&self, requesting_address: &String) -> (r: bool)
        ensures
            r == (self.spec_bank() == requesting_address@),
    {
        self.central_bank == *requesting_address
    }

    /// Folds a transaction id into the running integrity hash; reports
    /// failure, leaving the state unchanged, in the degenerate case where the
    /// hash would not move.
    pub fn update_and_verify_hash(&mut self, new_transaction_id: &String) -> (r: bool)
        ensures
            final(self).spec_total() == old(self).spec_total(),
            final(self).spec_reward() == old(self).spec_reward(),
            final(self).spec_rate() == old(self).spec_rate(),
            final(self).spec_max_supply() == old(self).spec_max_supply(),
            final(self).spec_bank() == old(self).spec_bank(),
            final(self).emitted() == old(self).emitted(),
            ({
                let nh = next_integrity_hash(old(self).spec_hash(), new_transaction_id@);
                if nh == old(self).spec_hash() {
                    r == false && final(self).spec_hash() == old(self).spec_hash()
                } else {
                    r == true && final(self).spec_hash() == nh
                }
            }),
    {
        let mut data: Vec<u8> = Vec::new();
        push_bytes(&mut data, self.accounts_hash.as_str().as_bytes());
        push_bytes(&mut data, new_transaction_id.as_str().as_bytes());
        let new_hash = crypto_sha256_hex(data.as_slice());
        if new_hash == self.accounts_hash {
            return false;
        }
        self.accounts_hash = new_hash;
        true
    }

    /// Raises the per-block reward by the inflation share of the circulating
    /// supply.  The caller has ruled out overflow of the new reward.
    pub fn recalculate_reward(&mut self)
        requires
            old(self).spec_reward() + old(self).spec_total() * old(self).spec_rate() / 100
                <= u64::MAX,
        ensures
            final(self).spec_reward() == old(self).spec_reward() + old(self).spec_total() * old(self).spec_rate() / 100,
            final(self).spec_total() == old(self).spec_total(),
            final(self).spec_rate() == old(self).spec_rate(),
            final(self).spec_max_supply() == old(self).spec_max_supply(),
            final(self).spec_bank() == old(self).spec_bank(),
            final(self).emitted() == old(self).emitted(),
            final(self).spec_hash() == old(self).spec_hash(),
    {
        let a = self.total_supply;
        let b = self.inflation_rate;
        proof {
            assert((a as int) * (b as int) < 340282366920938463463374607431768211456int)
                by (nonlinear_arith)
                requires
                    a <= 18446744073709551615u64,
                    b <= 18446744073709551615u64,
            ;
        }
        let increment: u128 = (a as u128) * (b as u128) / 100;
        self.reward_per_block = self.reward_per_block + (increment as u64);
    }

    /// Issues one block reward to the requesting address' credit: only the
    /// central bank may issue, the transaction id must be fresh, the
    /// integrity hash must move, and the cap on total supply must hold.  The
    /// integrity hash (and, past the reward step, the reward) stay updated
    /// even when a later check fails, as the order of steps dictates.
    pub fn issue_coins(&mut self, transaction_id: String, requesting_address: &String) -> (r:
        Result<u64, CoinIssueError>)
        ensures
            final(self).spec_rate() == old(self).spec_rate(),
            final(self).spec_max_supply() == old(self).spec_max_supply(),
            final(self).spec_bank() == old(self).spec_bank(),
            ({
                let nh = next_integrity_hash(old(self).spec_hash(), transaction_id@);
                let emission = old(self).spec_reward() + old(self).spec_total() * old(self).spec_rate() / 100;
                let pristine = final(self).spec_total() == old(self).spec_total() && final(self).spec_reward() == old(self).spec_reward() && final(self).emitted() == old(self).emitted() && final(self).spec_hash() == old(self).spec_hash();
                if old(self).spec_bank() != requesting_address@ {
                    r == Err::<u64, CoinIssueError>(CoinIssueError::NotAuthorized) && pristine
                } else if nh == old(self).spec_hash() {
                    r == Err::<u64, CoinIssueError>(CoinIssueError::IntegrityViolation) && pristine
                } else if old(self).emitted().contains(transaction_id@) {
                    r == Err::<u64, CoinIssueError>(CoinIssueError::TransactionAlreadyProcessed)
                        && final(self).spec_hash() == nh && final(self).spec_total() == old(self).spec_total() && final(self).spec_reward() == old(self).spec_reward() && final(self).emitted() == old(self).emitted()
                } else if emission > u64::MAX {
                    r == Err::<u64, CoinIssueError>(CoinIssueError::MaxSupplyReached) && final(self).spec_hash() == nh && final(self).spec_total() == old(self).spec_total()
                        && final(self).spec_reward() == old(self).spec_reward() && final(self).emitted() == old(self).emitted()
                } else if old(self).spec_total() + emission > old(self).spec_max_supply() {
                    r == Err::<u64, CoinIssueError>(CoinIssueError::MaxSupplyReached) && final(self).spec_hash() == nh && final(self).spec_total() == old(self).spec_total()
                        && final(self).spec_reward() == emission && final(self).emitted() == old(self).emitted()
                } else {
                    r == Ok::<u64, CoinIssueError>(emission as u64) && final(self).spec_hash() == nh
                        && final(self).spec_total() == old(self).spec_total() + emission && final(self).spec_reward() == emission && final(self).emitted() == old(self).emitted().insert(transaction_id@)
                }
            }),
    {
        if !self.can_issue_coins(requesting_address) {
            return Err(CoinIssueError::NotAuthorized);
        }
        if !self.update_and_verify_hash(&transaction_id) {
            return Err(CoinIssueError::IntegrityViolation);
        }
        if self.emitted_transactions.contains(transaction_id.as_str()) {
            return Err(CoinIssueError::TransactionAlreadyProcessed);
        }
        let a = self.total_supply;
        let b = self.inflation_rate;
        proof {
            assert((a as int) * (b as int) < 340282366920938463463374607431768211456int)
                by (nonlinear_arith)
                requires
                    a <= 18446744073709551615u64,
                    b <= 18446744073709551615u64,
            ;
        }
        let increment: u128 = (a as u128) * (b as u128) / 100;
        if (self.reward_per_block as u128) + increment > 18446744073709551615 {
            return Err(CoinIssueError::MaxSupplyReached);
        }
        self.recalculate_reward();
        let emission = self.reward_per_block;
        if (self.total_supply as u128) + (emission as u128) > (self.max_supply as u128) {
            return Err(CoinIssueError::MaxSupplyReached);
        }
        self.total_supply = self.total_supply + emission;
        self.emitted_transactions.insert(transaction_id);
        Ok(emission)
    }
}

} // verus!
