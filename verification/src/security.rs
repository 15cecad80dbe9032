//! Cryptographic gatekeeping: the processed-transaction ledger that blocks
//! double spends, the key store, and signature validation.
//!
//! Private key material never leaves this module; only `sign` and
//! `validate_signature` cross the boundary.

use vstd::prelude::*;
use vstd::hash_map::StringHashMap;
use vstd::hash_set::StringHashSet;
use vstd::utf8::encode_utf8;
use crate::hashing::{hex_decode, hex_encode, hex_of, hex_val_of, is_hex_chars, sha256_digest, sha256_of};

verus! {

/// Reasons a security operation can fail.
#[derive(Clone, Copy, Debug, PartialEq, Eq, Structural)]
pub enum SecurityError {
    TransactionAlreadyProcessed,
    InvalidSignature,
    KeyNotFound,
    FailedToSign,
    InvalidKey,
}

/// The ECDSA verification outcome over secp256k1 for a public key, a 32-byte
/// message digest and a compact signature, named but not defined here: a
/// deterministic function of the three byte strings.
pub uninterp spec fn secp_sig_valid(pubkey: Seq<u8>, digest: Seq<u8>, signature: Seq<u8>) -> bool;

/// Relies on secp256k1 (PublicKey::from_slice, Message::from_digest,
/// ecdsa::Signature::from_compact, ecdsa::verify): whether `signature` is a
/// valid compact ECDSA signature of the 32-byte `digest` under `pubkey`,
/// false whenever any of the three fails to parse.
#[verifier::external_body]
pub(crate) fn secp_verify_bytes(pubkey: &[u8], digest: &[u8], signature: &[u8]) -> (r: bool)
    ensures
        r == secp_sig_valid(pubkey@, digest@, signature@),
{
    let pk = match secp256k1::PublicKey::from_slice(pubkey) {
        Ok(pk) => pk,
        Err(_) => return false,
    };
    let digest32: [u8; 32] = match digest.try_into() {
        Ok(d) => d,
        Err(_) => return false,
    };
    let msg = secp256k1::Message::from_digest(digest32);
    let sig = match secp256k1::ecdsa::Signature::from_compact(signature) {
        Ok(s) => s,
        Err(_) => return false,
    };
    secp256k1::ecdsa::verify(&sig, msg, &pk).is_ok()
}

/// The compact ECDSA signature over secp256k1 for a secret key and a 32-byte
/// message digest, named but not defined here.  Signing uses RFC 6979
/// deterministic nonces, so the signature is a function of the two byte
/// strings alone.
pub uninterp spec fn secp_sig_of(seckey: Seq<u8>, digest: Seq<u8>) -> Seq<u8>;

/// Relies on secp256k1 (SecretKey::from_byte_array, SecretKey::sign_ecdsa
/// with RFC 6979 nonces, Signature::serialize_compact): the deterministic
/// compact ECDSA signature of the 32-byte `digest` under `seckey`; `None`
/// when the key bytes cannot act as a secret key or the digest is not 32
/// bytes long.
#[verifier::external_body]
fn secp_sign_bytes(seckey: &[u8], digest: &[u8]) -> (r: Option<Vec<u8>>)
    ensures
        r matches Some(v) ==> v@ == secp_sig_of(seckey@, digest@),
{
    let key_bytes: [u8; 32] = match seckey.try_into() {
        Ok(k) => k,
        Err(_) => return None,
    };
    let sk = match secp256k1::SecretKey::from_byte_array(key_bytes) {
        Ok(s) => s,
        Err(_) => return None,
    };
    let digest32: [u8; 32] = match digest.try_into() {
        Ok(d) => d,
        Err(_) => return None,
    };
    let msg = secp256k1::Message::from_digest(digest32);
    Some(sk.sign_ecdsa(msg).serialize_compact().to_vec())
}

/// The hex SHA-256 digest of a string's bytes: the identity this library
/// assigns to arbitrary string data.
pub open spec fn digest_chars(data: Seq<char>) -> Seq<char> {
    hex_of(sha256_of(encode_utf8(data)))
}

/// Whether `signature`, carried as a hex string, verifies under `pubkey`
/// against the SHA-256 digest of the message bytes `data`.  A string that is
/// not well-formed hex never verifies.
pub open spec fn sig_ok_bytes(pubkey: Seq<u8>, data: Seq<u8>, signature: Seq<char>) -> bool {
    is_hex_chars(signature) && secp_sig_valid(pubkey, sha256_of(data), hex_val_of(signature))
}

/// `sig_ok_bytes` for a message carried as a string.
pub open spec fn sig_ok(pubkey: Seq<u8>, data: Seq<char>, signature: Seq<char>) -> bool {
    sig_ok_bytes(pubkey, encode_utf8(data), signature)
}

/// The double-spend ledger and the key store.
pub struct Security {
    processed_transactions: StringHashSet,
    public_keys: StringHashMap<Vec<u8>>,
    private_keys: StringHashMap<Vec<u8>>,
}

impl Security {
    /// The set of transaction hashes already committed.
    pub closed spec fn processed(&self) -> Set<Seq<char>> {
        self.processed_transactions@
    }

    /// The public keys on file, by account id.
    pub closed spec fn pub_keys(&self) -> Map<Seq<char>, Seq<u8>> {
        self.public_keys@.map_values(|v: Vec<u8>| v@)
    }

    /// The private key references on file, by account id.
    pub closed spec fn priv_keys(&self) -> Map<Seq<char>, Seq<u8>> {
        self.private_keys@.map_values(|v: Vec<u8>| v@)
    }

    /// An empty security state: nothing processed, no keys.
    pub fn new() -> (r: Security)
        ensures
            r.processed() == Set::<Seq<char>>::empty(),
            r.pub_keys() == Map::<Seq<char>, Seq<u8>>::empty(),
            r.priv_keys() == Map::<Seq<char>, Seq<u8>>::empty(),
    {
        let r = Security {
            processed_transactions: StringHashSet::new(),
            public_keys: StringHashMap::new(),
            private_keys: StringHashMap::new(),
        };
        proof {
            assert(r.pub_keys() =~= Map::<Seq<char>, Seq<u8>>::empty());
            assert(r.priv_keys() =~= Map::<Seq<char>, Seq<u8>>::empty());
        }
        r
    }

    /// Records a transaction hash as committed; refuses one already recorded,
    /// so an entry is made at most once.
    pub fn add_processed_transaction(&mut self, transaction_hash: String) -> (r: Result<
        (),
        SecurityError,
    >)
        ensures
            final(self).pub_keys() == old(self).pub_keys(),
            final(self).priv_keys() == old(self).priv_keys(),
            old(self).processed().contains(transaction_hash@) ==> r == Err::<(), SecurityError>(
                SecurityError::TransactionAlreadyProcessed,
            ) && final(self).processed() == old(self).processed(),
            !old(self).processed().contains(transaction_hash@) ==> r == Ok::<(), SecurityError>(())
                && final(self).processed() == old(self).processed().insert(transaction_hash@),
    {
        let ghost pre = self.processed();
        if !self.processed_transactions.insert(transaction_hash) {
            proof {
                assert(self.processed() =~= pre);
            }
            return Err(SecurityError::TransactionAlreadyProcessed);
        }
        Ok(())
    }

    /// True when the hash is already on the processed ledger.
    pub fn has_transaction_been_processed(&self, transaction_hash: &String) -> (r: bool)
        ensures
            r == self.processed().contains(transaction_hash@),
    {
        self.processed_transactions.contains(transaction_hash.as_str())
    }

    /// The hex SHA-256 digest of a string's bytes.
    pub fn hash(&self, data: &String) -> (r: String)
        ensures
            r@ == digest_chars(data@),
    {
        let digest = sha256_digest(data.as_str().as_bytes());
        hex_encode(digest.as_slice())
    }

    /// Signs `data` with the account's stored private key: the deterministic
    /// compact ECDSA signature, carried in hex, of the SHA-256 digest of the
    /// data's bytes.  Fails with `KeyNotFound` when no key is on file, and
    /// with `FailedToSign` when the stored bytes cannot act as a secret key:
    /// whether they can is the signing operation's own decision, so success
    /// is not promised, but any signature returned is pinned exactly.
    pub fn sign(&self, account: &String, data: &String) -> (r: Result<String, SecurityError>)
        ensures
            !self.priv_keys().contains_key(account@) ==> r == Err::<String, SecurityError>(
                SecurityError::KeyNotFound,
            ),
            self.priv_keys().contains_key(account@) ==> ((r matches Ok(s) && s@ == hex_of(
                secp_sig_of(self.priv_keys()[account@], sha256_of(encode_utf8(data@))),
            )) || r == Err::<String, SecurityError>(SecurityError::FailedToSign)),
    {
        let private_key = match self.private_keys.get(account.as_str()) {
            Some(k) => k,
            None => { return Err(SecurityError::KeyNotFound) },
        };
        let digest = sha256_digest(data.as_str().as_bytes());
        match secp_sign_bytes(private_key.as_slice(), digest.as_slice()) {
            Some(signature) => Ok(hex_encode(signature.as_slice())),
            None => Err(SecurityError::FailedToSign),
        }
    }

    /// Checks `signature` against the account's stored public key: the
    /// signature, hex-decoded, must be a valid ECDSA signature of the SHA-256
    /// digest of `data`'s bytes.  Fails only when no key is on file.
    pub fn validate_signature(&self, account: &String, data: &String, signature: &String) -> (r:
        Result<bool, SecurityError>)
        ensures
            !self.pub_keys().contains_key(account@) ==> r == Err::<bool, SecurityError>(
                SecurityError::KeyNotFound,
            ),
            self.pub_keys().contains_key(account@) ==> r == Ok::<bool, SecurityError>(
                sig_ok(self.pub_keys()[account@], data@, signature@),
            ),
    {
        self.validate_signature_bytes(account, data.as_str().as_bytes(), signature)
    }

    /// `validate_signature` for a message given directly as bytes.
    pub fn validate_signature_bytes(&self, account: &String, data: &[u8], signature: &String) -> (r:
        Result<bool, SecurityError>)
        ensures
            !self.pub_keys().contains_key(account@) ==> r == Err::<bool, SecurityError>(
                SecurityError::KeyNotFound,
            ),
            self.pub_keys().contains_key(account@) ==> r == Ok::<bool, SecurityError>(
                sig_ok_bytes(self.pub_keys()[account@], data@, signature@),
            ),
    {
        let public_key = match self.public_keys.get(account.as_str()) {
            Some(k) => k,
            None => { return Err(SecurityError::KeyNotFound) },
        };
        let digest = sha256_digest(data);
        let sig_bytes = match hex_decode(signature.as_str()) {
            Some(b) => b,
            None => { return Ok(false) },
        };
        Ok(secp_verify_bytes(public_key.as_slice(), digest.as_slice(), sig_bytes.as_slice()))
    }

    /// Rejects empty key material.
    pub fn validate_keys(public_key: &Vec<u8>, private_key: &Vec<u8>) -> (r: Result<
        (),
        SecurityError,
    >)
        ensures
            public_key@.len() == 0 || private_key@.len() == 0 ==> r == Err::<(), SecurityError>(
                SecurityError::InvalidKey,
            ),
            public_key@.len() > 0 && private_key@.len() > 0 ==> r == Ok::<(), SecurityError>(()),
    {
        if public_key.is_empty() || private_key.is_empty() {
            return Err(SecurityError::InvalidKey);
        }
        Ok(())
    }

    /// Puts an account's key pair on file; either key empty is refused.
    pub fn add_keys(&mut self, account: String, public_key: Vec<u8>, private_key: Vec<u8>) -> (r:
        Result<(), SecurityError>)
        ensures
            final(self).processed() == old(self).processed(),
            public_key@.len() == 0 || private_key@.len() == 0 ==> r == Err::<(), SecurityError>(
                SecurityError::InvalidKey,
            ) && final(self).pub_keys() == old(self).pub_keys() && final(self).priv_keys() == old(
                self,
            ).priv_keys(),
            public_key@.len() > 0 && private_key@.len() > 0 ==> r == Ok::<(), SecurityError>(())
                && final(self).pub_keys() == old(self).pub_keys().insert(account@, public_key@)
                && final(self).priv_keys() == old(self).priv_keys().insert(
                account@,
                private_key@,
            ),
    {
        match Self::validate_keys(&public_key, &private_key) {
            Ok(_) => {},
            Err(e) => { return Err(e) },
        }
        let ghost gpub = public_key@;
        let ghost gpriv = private_key@;
        let ghost mpub = self.public_keys@;
        let ghost mpriv = self.private_keys@;
        self.public_keys.insert(account.clone(), public_key);
        self.private_keys.insert(account, private_key);
        proof {
            assert(self.pub_keys() =~= old(self).pub_keys().insert(account@, gpub));
            assert(self.priv_keys() =~= old(self).priv_keys().insert(account@, gpriv));
        }
        Ok(())
    }

    /// Checks that `expected_hash` is the hex SHA-256 digest of `data`.
    pub fn verify_hash(data: &str, expected_hash: &str) -> (r: bool)
        ensures
            r == (hex_of(sha256_of(encode_utf8(data@))) == expected_hash@),
    {
        let digest = sha256_digest(data.as_bytes());
        let hex = hex_encode(digest.as_slice());
        let expected = expected_hash.to_owned();
        hex == expected
    }

    /// Validates a transaction: its data must not already be on the processed
    /// ledger, and its signature must verify under the account's key.
    pub fn validate_transaction(&self, account: &String, data: &String, signature: &String) -> (r:
        Result<bool, SecurityError>)
        ensures
            self.processed().contains(data@) ==> r == Err::<bool, SecurityError>(
                SecurityError::TransactionAlreadyProcessed,
            ),
            !self.processed().contains(data@) && !self.pub_keys().contains_key(account@) ==> r
                == Err::<bool, SecurityError>(SecurityError::KeyNotFound),
            !self.processed().contains(data@) && self.pub_keys().contains_key(account@) ==> ({
                if sig_ok(self.pub_keys()[account@], data@, signature@) {
                    r == Ok::<bool, SecurityError>(true)
                } else {
                    r == Err::<bool, SecurityError>(SecurityError::InvalidSignature)
                }
            }),
    {
        if self.has_transaction_been_processed(data) {
            return Err(SecurityError::TransactionAlreadyProcessed);
        }
        match self.validate_signature(account, data, signature) {
            Ok(true) => Ok(true),
            Ok(false) => Err(SecurityError::InvalidSignature),
            Err(e) => Err(e),
        }
    }
}

} // verus!
