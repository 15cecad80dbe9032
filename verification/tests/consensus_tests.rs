use myluks::consensus::{Block, Consensus, ConsensusError, Node, Transaction};
use myluks::consensus::BlockValidationError;
use sha2::Digest;

fn node(id: &str, validating: bool) -> Node {
    Node { id: String::from(id), is_validating: validating }
}

fn test_secret_key() -> secp256k1::SecretKey {
    secp256k1::SecretKey::from_byte_array([0x33; 32]).unwrap()
}

/// A transaction whose `from` is the signer's public key in hex and whose
/// signature covers the digest of `from`, `to` and the decimal amount,
/// concatenated.
fn signed_transaction(sk: &secp256k1::SecretKey, to: &str, amount: u64) -> Transaction {
    let from = hex::encode(sk.public_key().serialize());
    let message = format!("{}{}{}", from, to, amount);
    let digest: [u8; 32] = sha2::Sha256::digest(message.as_bytes()).as_slice().try_into().unwrap();
    let m = secp256k1::Message::from_digest(digest);
    let signature = hex::encode(sk.sign_ecdsa(m).serialize_compact());
    Transaction { from, to: String::from(to), amount, signature }
}

#[test]
fn genesis_block_is_synthesized_at_construction() {
    let consensus = Consensus::new(String::new());
    assert_eq!(consensus.blockchain.len(), 1);
    assert_eq!(consensus.blockchain[0].index, 0);
    assert_eq!(consensus.blockchain[0].timestamp, 0);
    assert!(consensus.blockchain[0].transactions.is_empty());
}

#[test]
fn empty_block_commits_with_one_validating_node() {
    let mut consensus = Consensus::new(String::new());
    consensus.register_node(node("n1", true));
    assert_eq!(consensus.implement_poh(vec![], 1), Ok(()));
    assert_eq!(consensus.blockchain.len(), 2);
    assert_eq!(consensus.blockchain[1].index, 1);
    assert_eq!(consensus.blockchain[1].timestamp, 1);
}

#[test]
fn chain_links_and_timestamps_hold_over_many_blocks() {
    let mut consensus = Consensus::new(String::new());
    consensus.register_node(node("n1", true));
    for ts in 1..=4u64 {
        assert_eq!(consensus.implement_poh(vec![], ts), Ok(()));
    }
    assert_eq!(consensus.blockchain.len(), 5);
    for i in 1..consensus.blockchain.len() {
        assert_eq!(
            consensus.blockchain[i].prev_block_hash,
            consensus.blockchain[i - 1].block_hash
        );
        assert!(consensus.blockchain[i].timestamp > consensus.blockchain[i - 1].timestamp);
        assert_eq!(consensus.blockchain[i].index as usize, i);
    }
}

#[test]
fn stale_timestamp_is_rejected() {
    let mut consensus = Consensus::new(String::new());
    consensus.register_node(node("n1", true));
    assert_eq!(consensus.implement_poh(vec![], 5), Ok(()));
    assert_eq!(
        consensus.implement_poh(vec![], 5),
        Err(ConsensusError::BlockValidationError(BlockValidationError::InvalidTimestamp))
    );
    assert_eq!(consensus.blockchain.len(), 2);
}

#[test]
fn quorum_of_two_nodes_requires_unanimity() {
    let mut consensus = Consensus::new(String::new());
    consensus.register_node(node("n1", true));
    consensus.register_node(node("n2", false));
    assert_eq!(consensus.implement_poh(vec![], 1), Err(ConsensusError::BlockRejectedByNetwork));
    assert_eq!(consensus.blockchain.len(), 1);
    let mut unanimous = Consensus::new(String::new());
    unanimous.register_node(node("n1", true));
    unanimous.register_node(node("n2", true));
    assert_eq!(unanimous.implement_poh(vec![], 1), Ok(()));
    assert_eq!(unanimous.blockchain.len(), 2);
}

#[test]
fn quorum_of_five_nodes_needs_a_majority() {
    let mut consensus = Consensus::new(String::new());
    for i in 0..5 {
        consensus.register_node(node(&format!("n{}", i), i < 3));
    }
    assert_eq!(consensus.implement_poh(vec![], 1), Ok(()));
    assert_eq!(consensus.blockchain.len(), 2);
    let mut minority = Consensus::new(String::new());
    for i in 0..5 {
        minority.register_node(node(&format!("n{}", i), i < 2));
    }
    assert_eq!(minority.implement_poh(vec![], 1), Err(ConsensusError::BlockRejectedByNetwork));
    assert_eq!(minority.blockchain.len(), 1);
}

#[test]
fn committed_transaction_cannot_be_committed_twice() {
    let mut consensus = Consensus::new(String::new());
    consensus.register_node(node("n1", true));
    let sk = test_secret_key();
    let tx = signed_transaction(&sk, "bob", 5);
    let again = Transaction {
        from: tx.from.clone(),
        to: tx.to.clone(),
        amount: tx.amount,
        signature: tx.signature.clone(),
    };
    assert_eq!(consensus.implement_poh(vec![tx], 1), Ok(()));
    assert_eq!(consensus.blockchain.len(), 2);
    assert_eq!(
        consensus.implement_poh(vec![again], 2),
        Err(ConsensusError::DuplicateTransaction)
    );
    assert_eq!(consensus.blockchain.len(), 2);
}

#[test]
fn rejected_candidate_leaves_the_processed_ledger_unchanged() {
    let mut consensus = Consensus::new(String::new());
    consensus.register_node(node("n1", true));
    consensus.register_node(node("n2", false));
    let sk = test_secret_key();
    let tx = signed_transaction(&sk, "bob", 5);
    let again = Transaction {
        from: tx.from.clone(),
        to: tx.to.clone(),
        amount: tx.amount,
        signature: tx.signature.clone(),
    };
    assert_eq!(consensus.implement_poh(vec![tx], 1), Err(ConsensusError::BlockRejectedByNetwork));
    assert_eq!(consensus.blockchain.len(), 1);
    consensus.register_node(node("n3", true));
    assert_eq!(consensus.implement_poh(vec![again], 2), Ok(()));
    assert_eq!(consensus.blockchain.len(), 2);
}

#[test]
fn invalid_signature_rejects_the_batch() {
    let mut consensus = Consensus::new(String::new());
    consensus.register_node(node("n1", true));
    let sk = test_secret_key();
    let mut tx = signed_transaction(&sk, "bob", 5);
    tx.amount = 6;
    assert_eq!(
        consensus.implement_poh(vec![tx], 1),
        Err(ConsensusError::InvalidTransactionSignature)
    );
    assert_eq!(consensus.blockchain.len(), 1);
}

#[test]
fn verify_transaction_signature_accepts_and_rejects() {
    let consensus = Consensus::new(String::new());
    let sk = test_secret_key();
    let good = signed_transaction(&sk, "bob", 5);
    assert!(consensus.verify_transaction_signature(&good));
    let mut bad = signed_transaction(&sk, "bob", 5);
    let mut bytes = bad.signature.into_bytes();
    bytes[0] = if bytes[0] == b'0' { b'1' } else { b'0' };
    bad.signature = String::from_utf8(bytes).unwrap();
    assert!(!consensus.verify_transaction_signature(&bad));
}

#[test]
fn mining_honours_the_difficulty_prefix() {
    let mut consensus = Consensus::new(String::from("0"));
    consensus.register_node(node("n1", true));
    assert_eq!(consensus.implement_poh(vec![], 1), Ok(()));
    assert!(consensus.blockchain[1].block_hash.starts_with('0'));
}

#[test]
fn validate_block_names_each_failure() {
    let mut consensus = Consensus::new(String::new());
    consensus.register_node(node("n1", true));
    consensus.implement_poh(vec![], 5).unwrap();
    let last = &consensus.blockchain[1];
    let stale = Block {
        index: 2,
        timestamp: 5,
        prev_block_hash: last.block_hash.clone(),
        block_hash: String::from("00"),
        transactions: vec![],
        nonce: 0,
    };
    assert_eq!(
        consensus.validate_block(&stale),
        Err(BlockValidationError::InvalidTimestamp)
    );
    let unlinked = Block {
        index: 2,
        timestamp: 6,
        prev_block_hash: String::from("not-the-hash"),
        block_hash: String::from("00"),
        transactions: vec![],
        nonce: 0,
    };
    assert_eq!(
        consensus.validate_block(&unlinked),
        Err(BlockValidationError::MismatchedPreviousHash)
    );
    let miscomputed = Block {
        index: 2,
        timestamp: 6,
        prev_block_hash: last.block_hash.clone(),
        block_hash: String::from("00"),
        transactions: vec![],
        nonce: 0,
    };
    assert_eq!(
        consensus.validate_block(&miscomputed),
        Err(BlockValidationError::IncorrectBlockHash)
    );
    let mut good = Block {
        index: 2,
        timestamp: 6,
        prev_block_hash: last.block_hash.clone(),
        block_hash: String::new(),
        transactions: vec![],
        nonce: 0,
    };
    good.block_hash = consensus.calculate_block_hash(&good);
    assert_eq!(consensus.validate_block(&good), Ok(()));
    assert!(consensus.nodes_vote_on_block(&good));
}

#[test]
fn transaction_id_is_stable_and_distinct() {
    let consensus = Consensus::new(String::new());
    let a = Transaction {
        from: String::from("x"),
        to: String::from("y"),
        amount: 5,
        signature: String::from("00"),
    };
    let b = Transaction {
        from: String::from("x"),
        to: String::from("y"),
        amount: 6,
        signature: String::from("00"),
    };
    let id_a = consensus.calculate_transaction_id(&a);
    let id_a2 = consensus.calculate_transaction_id(&a);
    let id_b = consensus.calculate_transaction_id(&b);
    assert_eq!(id_a, id_a2);
    assert_ne!(id_a, id_b);
    assert_eq!(id_a, hex::encode(sha2::Sha256::digest(b"x|y|5|00")));
}

#[test]
fn registering_a_node_twice_counts_it_once() {
    let mut consensus = Consensus::new(String::new());
    consensus.register_node(node("n1", true));
    consensus.register_node(node("n1", true));
    consensus.register_node(node("n2", false));
    // Two distinct nodes, one approving: unanimity fails.  If the duplicate
    // registration counted, two of three votes would carry the block.
    assert_eq!(consensus.implement_poh(vec![], 1), Err(ConsensusError::BlockRejectedByNetwork));
    assert_eq!(consensus.blockchain.len(), 1);
}
