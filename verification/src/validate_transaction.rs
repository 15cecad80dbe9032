//! The transaction validator: a pure decision function over the ledger and
//! the security state.  Checks run in a fixed order and the first failing
//! check names the rejection; validation itself never changes any state, so a
//! transaction whose block is later rejected can be resubmitted.

use vstd::prelude::*;
use crate::accounts::Accounts;
use crate::hashing::{dec_digits, hex_encode, hex_of, push_bytes, push_decimal, sha256_digest, sha256_of};
use crate::security::{sig_ok_bytes, Security};

verus! {

/// The largest amount a single transaction may move.
pub const MAX_TRANSACTION_AMOUNT: u64 = 10_000;

/// Reasons a transaction is rejected.
#[derive(Clone, Copy, Debug, PartialEq, Eq, Structural)]
pub enum ValidationError {
    ExceedsMaxAmount,
    InsufficientSenderBalance,
    InvalidRecipient,
    SignatureFailure,
    DoubleSpend,
    SenderAccountLocked,
    InvalidSignature,
    InvalidTransactionHash,
}

/// The canonical signed message of a transfer: sender, recipient and decimal
/// amount, separated by `-`.
pub open spec fn transfer_data_bytes(from: Seq<char>, to: Seq<char>, amount: u64) -> Seq<u8> {
    vstd::utf8::encode_utf8(from) + seq![45u8] + vstd::utf8::encode_utf8(to) + seq![45u8]
        + dec_digits(amount as nat)
}

/// The identity of a transfer: the hex SHA-256 digest of its canonical data.
pub open spec fn transfer_hash_chars(from: Seq<char>, to: Seq<char>, amount: u64) -> Seq<char> {
    hex_of(sha256_of(transfer_data_bytes(from, to, amount)))
}

/// The validator: holds the security state it consults.
pub struct ValidateTransaction {
    security_module: Security,
}

impl ValidateTransaction {
    /// The security state the validator reads.
    pub closed spec fn security(&self) -> Security {
        self.security_module
    }

    /// A validator over the given security state.
    pub fn new(security_module: Security) -> (r: Self)
        ensures
            r.security() == security_module,
    {
        ValidateTransaction { security_module }
    }

    /// The canonical data of a transfer, as bytes.
    fn transfer_data(from: &String, to: &String, amount: u64) -> (r: Vec<u8>)
        ensures
            r@ == transfer_data_bytes(from@, to@, amount),
    {
        let mut data: Vec<u8> = Vec::new();
        push_bytes(&mut data, from.as_str().as_bytes());
        data.push(45);
        push_bytes(&mut data, to.as_str().as_bytes());
        data.push(45);
        push_decimal(&mut data, amount);
        proof {
            assert(data@ =~= transfer_data_bytes(from@, to@, amount));
        }
        data
    }

    /// The unique hash that identifies a transfer.
    pub fn generate_transaction_hash(&self, from: &String, to: &String, amount: u64) -> (r: String)
        ensures
            r@ == transfer_hash_chars(from@, to@, amount),
    {
        let data = Self::transfer_data(from, to, amount);
        let digest = sha256_digest(data.as_slice());
        hex_encode(digest.as_slice())
    }

    /// Validates a proposed transfer against the ledger and the security
    /// state, in this fixed order: amount cap, sender present, sender not
    /// locked, sender balance, recipient present, signature, double spend.
    /// The first failing check names the rejection; nothing is recorded as
    /// processed here.
    pub fn validate_transaction(
        &self,
        accounts: &Accounts,
        from: &String,
        to: &String,
        amount: u64,
        signature: &String,
    ) -> (r: Result<bool, ValidationError>)
        ensures
            ({
                let m = accounts@;
                let keys = self.security().pub_keys();
                let data = transfer_data_bytes(from@, to@, amount);
                let h = transfer_hash_chars(from@, to@, amount);
                if amount > MAX_TRANSACTION_AMOUNT {
                    r == Err::<bool, ValidationError>(ValidationError::ExceedsMaxAmount)
                } else if !m.contains_key(from@) {
                    r == Err::<bool, ValidationError>(ValidationError::InvalidRecipient)
                } else if m[from@].locked {
                    r == Err::<bool, ValidationError>(ValidationError::SenderAccountLocked)
                } else if m[from@].balance < amount {
                    r == Err::<bool, ValidationError>(ValidationError::InsufficientSenderBalance)
                } else if !m.contains_key(to@) {
                    r == Err::<bool, ValidationError>(ValidationError::InvalidRecipient)
                } else if !keys.contains_key(from@) || !sig_ok_bytes(
                    keys[from@],
                    data,
                    signature@,
                ) {
                    r == Err::<bool, ValidationError>(ValidationError::InvalidSignature)
                } else if self.security().processed().contains(h) {
                    r == Err::<bool, ValidationError>(ValidationError::DoubleSpend)
                } else {
                    r == Ok::<bool, ValidationError>(true)
                }
            }),
    {
        if amount > MAX_TRANSACTION_AMOUNT {
            return Err(ValidationError::ExceedsMaxAmount);
        }
        let sender_details = match accounts.get_account_details(from) {
            Ok(d) => d,
            Err(_) => { return Err(ValidationError::InvalidRecipient) },
        };
        if sender_details.locked {
            return Err(ValidationError::SenderAccountLocked);
        }
        if sender_details.balance < amount {
            return Err(ValidationError::InsufficientSenderBalance);
        }
        if !accounts.account_exists(to) {
            return Err(ValidationError::InvalidRecipient);
        }
        let data = Self::transfer_data(from, to, amount);
        match self.security_module.validate_signature_bytes(from, data.as_slice(), signature) {
            Ok(true) => {},
            _ => { return Err(ValidationError::InvalidSignature) },
        }
        let transaction_hash = self.generate_transaction_hash(from, to, amount);
        if self.security_module.has_transaction_been_processed(&transaction_hash) {
            return Err(ValidationError::DoubleSpend);
        }
        // The hash is a function of its inputs alone, so this re-check can
        // never fire; the contract above has no case for it.
        if !(self.generate_transaction_hash(from, to, amount) == transaction_hash) {
            return Err(ValidationError::InvalidTransactionHash);
        }
        Ok(true)
    }
}

} // verus!
