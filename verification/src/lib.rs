//! Ledger and consensus core of a small blockchain: an account ledger with
//! balance and locking invariants, a transaction-validation pipeline, and a
//! block-production protocol (proof-of-work plus node voting) that commits
//! validated transactions into an append-only chain.

pub mod accounts;
pub mod coin_issue;
pub mod consensus;
pub mod hashing;
pub mod luks_main_contract;
pub mod security;
pub mod transfer;
pub mod validate_transaction;
