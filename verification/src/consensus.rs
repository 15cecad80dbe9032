//! The consensus engine: an append-only chain of blocks, produced by
//! proof-of-work and admitted by a vote of the registered nodes.
//!
//! The chain invariant — indices count up from the genesis block, every block
//! links to the hash of its predecessor, timestamps strictly increase, and
//! every stored hash recomputes from the block's own contents — is
//! established at construction and preserved by every operation.

use vstd::prelude::*;
use vstd::hash_set::StringHashSet;
use vstd::utf8::encode_utf8;
use crate::hashing::{
    dec_digits, hex_decode, hex_encode, hex_of, hex_val_of, is_hex_chars, lemma_hex_of_ascii_len,
    push_bytes, push_decimal, sha256_digest, sha256_of, str_starts_with,
};
use crate::security::{secp_sig_valid, secp_verify_bytes};

verus! {

/// A transfer to be committed into a block.  `from` carries the sender's
/// public key in hex; the signature is a hex compact ECDSA signature.
pub struct Transaction {
    pub from: String,
    pub to: String,
    pub amount: u64,
    pub signature: String,
}

/// The mathematical value of a transaction.
pub struct TransactionView {
    pub from: Seq<char>,
    pub to: Seq<char>,
    pub amount: u64,
    pub signature: Seq<char>,
}

impl View for Transaction {
    type V = TransactionView;

    open spec fn view(&self) -> TransactionView {
        TransactionView {
            from: self.from@,
            to: self.to@,
            amount: self.amount,
            signature: self.signature@,
        }
    }
}

impl Clone for Transaction {
    fn clone(&self) -> (r: Self)
        ensures
            r == self,
    {
        Transaction {
            from: self.from.clone(),
            to: self.to.clone(),
            amount: self.amount,
            signature: self.signature.clone(),
        }
    }
}

/// One block of the chain.
pub struct Block {
    pub index: u64,
    pub timestamp: u64,
    pub prev_block_hash: String,
    pub block_hash: String,
    pub transactions: Vec<Transaction>,
    pub nonce: u64,
}

/// The mathematical value of a block.
pub struct BlockView {
    pub index: u64,
    pub timestamp: u64,
    pub prev_block_hash: Seq<char>,
    pub block_hash: Seq<char>,
    pub transactions: Seq<TransactionView>,
    pub nonce: u64,
}

impl View for Block {
    type V = BlockView;

    open spec fn view(&self) -> BlockView {
        BlockView {
            index: self.index,
            timestamp: self.timestamp,
            prev_block_hash: self.prev_block_hash@,
            block_hash: self.block_hash@,
            transactions: self.transactions@.map_values(|t: Transaction| t@),
            nonce: self.nonce,
        }
    }
}

/// Reasons the consensus engine rejects a proposal.
#[derive(Clone, Copy, Debug, PartialEq, Eq, Structural)]
pub enum ConsensusError {
    DuplicateTransaction,
    BlockValidationError(BlockValidationError),
    InvalidTransactionSignature,
    BlockRejectedByNetwork,
    MiningExhausted,
}

/// Reasons a candidate block fails validation.
#[derive(Clone, Copy, Debug, PartialEq, Eq, Structural)]
pub enum BlockValidationError {
    InvalidTimestamp,
    MismatchedPreviousHash,
    IncorrectBlockHash,
}

/// A registered validating node.
#[derive(Debug)]
pub struct Node {
    pub id: String,
    pub is_validating: bool,
}

/// The mathematical value of a node.
pub struct NodeView {
    pub id: Seq<char>,
    pub is_validating: bool,
}

impl View for Node {
    type V = NodeView;

    open spec fn view(&self) -> NodeView {
        NodeView { id: self.id@, is_validating: self.is_validating }
    }
}

/// The canonical byte rendering that identifies a transaction: sender,
/// recipient, decimal amount and signature, separated by `|`.
pub open spec fn tx_id_bytes(t: TransactionView) -> Seq<u8> {
    encode_utf8(t.from) + seq![124u8] + encode_utf8(t.to) + seq![124u8] + dec_digits(
        t.amount as nat,
    ) + seq![124u8] + encode_utf8(t.signature)
}

/// A transaction's id: the hex SHA-256 digest of its canonical rendering.
pub open spec fn tx_id_chars(t: TransactionView) -> Seq<char> {
    hex_of(sha256_of(tx_id_bytes(t)))
}

/// The canonical rendering of a block's transaction list.
pub open spec fn txs_repr(ts: Seq<TransactionView>) -> Seq<u8>
    decreases ts.len(),
{
    if ts.len() == 0 {
        Seq::<u8>::empty()
    } else {
        tx_id_bytes(ts.first()) + seq![10u8] + txs_repr(ts.drop_first())
    }
}

/// Appending a transaction extends the canonical rendering on the right.
proof fn lemma_txs_repr_push(ts: Seq<TransactionView>, t: TransactionView)
    ensures
        txs_repr(ts.push(t)) == txs_repr(ts) + tx_id_bytes(t) + seq![10u8],
    decreases ts.len(),
{
    if ts.len() == 0 {
        assert(ts.push(t).drop_first() =~= ts);
        assert(txs_repr(ts.push(t)) =~= txs_repr(ts) + tx_id_bytes(t) + seq![10u8]);
    } else {
        assert(ts.push(t).drop_first() =~= ts.drop_first().push(t));
        lemma_txs_repr_push(ts.drop_first(), t);
        assert(txs_repr(ts.push(t)) =~= txs_repr(ts) + tx_id_bytes(t) + seq![10u8]);
    }
}

/// The canonical byte rendering a block's hash is computed over: index,
/// timestamp, previous hash, transaction list and nonce, separated by `|`.
pub open spec fn block_hash_input(
    index: u64,
    timestamp: u64,
    prev: Seq<char>,
    ts: Seq<TransactionView>,
    nonce: u64,
) -> Seq<u8> {
    dec_digits(index as nat) + seq![124u8] + dec_digits(timestamp as nat) + seq![124u8]
        + encode_utf8(prev) + seq![124u8] + txs_repr(ts) + seq![124u8] + dec_digits(nonce as nat)
}

/// A block's hash: the hex SHA-256 digest of its canonical rendering.
pub open spec fn block_hash_chars(
    index: u64,
    timestamp: u64,
    prev: Seq<char>,
    ts: Seq<TransactionView>,
    nonce: u64,
) -> Seq<char> {
    hex_of(sha256_of(block_hash_input(index, timestamp, prev, ts, nonce)))
}

/// The message a transaction's signature covers: sender, recipient and
/// decimal amount, concatenated.
pub open spec fn tx_sig_msg_bytes(t: TransactionView) -> Seq<u8> {
    encode_utf8(t.from) + encode_utf8(t.to) + dec_digits(t.amount as nat)
}

/// Whether a transaction carries a valid signature: `from`, read as a hex
/// public key, must verify the hex compact signature against the SHA-256
/// digest of the signed message.
pub open spec fn tx_sig_valid(t: TransactionView) -> bool {
    &&& is_hex_chars(t.from)
    &&& is_hex_chars(t.signature)
    &&& secp_sig_valid(
        hex_val_of(t.from),
        sha256_of(tx_sig_msg_bytes(t)),
        hex_val_of(t.signature),
    )
}

/// Whether a candidate block extends the chain: a later timestamp, a link to
/// the last block's hash, and a block hash that recomputes from its contents.
pub open spec fn block_ok(c: Seq<BlockView>, b: BlockView) -> bool {
    &&& b.timestamp > c.last().timestamp
    &&& b.prev_block_hash == c.last().block_hash
    &&& b.block_hash == block_hash_chars(
        b.index,
        b.timestamp,
        b.prev_block_hash,
        b.transactions,
        b.nonce,
    )
}

/// How many registered nodes are currently validating.
pub open spec fn count_validating(ns: Seq<NodeView>) -> int
    decreases ns.len(),
{
    if ns.len() == 0 {
        0
    } else {
        (if ns.first().is_validating {
            1int
        } else {
            0int
        }) + count_validating(ns.drop_first())
    }
}

/// No two registered nodes share an id: the node list has set semantics.
pub open spec fn nodes_distinct(ns: Seq<NodeView>) -> bool {
    forall|i: int, j: int| 0 <= i < j < ns.len() ==> (#[trigger] ns[i]).id != (#[trigger] ns[j]).id
}

/// Whether a hash clears the difficulty bar: it starts with the prefix.
pub open spec fn meets_difficulty(prefix: Seq<char>, h: Seq<char>) -> bool {
    prefix.len() <= h.len() && h.subrange(0, prefix.len() as int) == prefix
}

/// The quorum rule: below three registered nodes approval must be unanimous,
/// otherwise strictly more than half of the registered nodes must approve.
pub open spec fn quorum(n_nodes: int, votes_for: int) -> bool {
    if n_nodes < 3 {
        votes_for == n_nodes
    } else {
        votes_for > n_nodes / 2
    }
}

/// The chain invariant: non-empty, indices count up from genesis, each block
/// links to its predecessor's hash, timestamps strictly increase, and every
/// stored hash recomputes from the block's contents.
pub open spec fn chain_wf(c: Seq<BlockView>) -> bool {
    &&& c.len() >= 1
    &&& forall|i: int| 0 <= i < c.len() ==> (#[trigger] c[i]).index == i
    &&& forall|i: int|
        1 <= i < c.len() ==> (#[trigger] c[i]).prev_block_hash == c[i - 1].block_hash
    &&& forall|i: int| 1 <= i < c.len() ==> (#[trigger] c[i]).timestamp > c[i - 1].timestamp
    &&& forall|i: int|
        0 <= i < c.len() ==> (#[trigger] c[i]).block_hash == block_hash_chars(
            c[i].index,
            c[i].timestamp,
            c[i].prev_block_hash,
            c[i].transactions,
            c[i].nonce,
        )
}

/// The consensus engine.
pub struct Consensus {
    pub blockchain: Vec<Block>,
    pub hash_prefix: String,
    processed_transactions: StringHashSet,
    nodes: Vec<Node>,
}

impl Consensus {
    /// The chain as a sequence of block values.
    pub closed spec fn chain(&self) -> Seq<BlockView> {
        self.blockchain@.map_values(|b: Block| b@)
    }

    /// The transaction ids already committed into the chain.
    pub closed spec fn processed(&self) -> Set<Seq<char>> {
        self.processed_transactions@
    }

    /// The registered nodes, in registration order.
    pub closed spec fn node_views(&self) -> Seq<NodeView> {
        self.nodes@.map_values(|n: Node| n@)
    }

    /// The difficulty prefix a mined block hash must start with.
    pub closed spec fn prefix(&self) -> Seq<char> {
        self.hash_prefix@
    }

    /// The engine is well-formed when its chain is, the processed ledger
    /// holds exactly the ids of the transactions committed in the chain, and
    /// no node is registered twice.
    pub open spec fn wf(&self) -> bool {
        &&& chain_wf(self.chain())
        &&& self.processed() == chain_ids(self.chain())
        &&& nodes_distinct(self.node_views())
    }

    /// A fresh engine holding only the genesis block: index zero, a zero
    /// timestamp baseline, a sentinel previous hash and no transactions.
    pub fn new(hash_prefix: String) -> (r: Consensus)
        ensures
            r.wf(),
            r.chain().len() == 1,
            r.chain()[0].index == 0,
            r.chain()[0].timestamp == 0,
            r.chain()[0].transactions == Seq::<TransactionView>::empty(),
            r.chain()[0].prev_block_hash == Seq::<char>::empty(),
            r.processed() == Set::<Seq<char>>::empty(),
            r.node_views() == Seq::<NodeView>::empty(),
            r.prefix() == hash_prefix@,
    {
        let mut consensus = Consensus {
            blockchain: Vec::new(),
            hash_prefix,
            processed_transactions: StringHashSet::new(),
            nodes: Vec::new(),
        };
        consensus.create_genesis_block();
        proof {
            let c = consensus.chain();
            assert(c.drop_first() =~= Seq::<BlockView>::empty());
            assert(chain_ids(c.drop_first()) =~= Set::<Seq<char>>::empty());
            assert(c.first().transactions =~= Seq::<TransactionView>::empty());
            assert(tx_ids(c.first().transactions) =~= Set::<Seq<char>>::empty());
            assert(chain_ids(c) == chain_ids(c.drop_first()).union(tx_ids(c.first().transactions)));
            assert(chain_ids(c) =~= Set::<Seq<char>>::empty());
        }
        consensus
    }

    /// Synthesizes the genesis block once; a non-empty chain is left alone.
    fn create_genesis_block(&mut self)
        ensures
            old(self).chain().len() == 0 ==> final(self).chain().len() == 1 && chain_wf(
                final(self).chain(),
            ) && final(self).chain()[0].index == 0 && final(self).chain()[0].timestamp == 0
                && final(self).chain()[0].transactions == Seq::<TransactionView>::empty()
                && final(self).chain()[0].prev_block_hash == Seq::<char>::empty(),
            old(self).chain().len() > 0 ==> final(self).chain() == old(self).chain(),
            final(self).processed() == old(self).processed(),
            final(self).node_views() == old(self).node_views(),
            final(self).prefix() == old(self).prefix(),
    {
        if self.blockchain.len() > 0 {
            return ;
        }
        let transactions: Vec<Transaction> = Vec::new();
        let prev = String::new();
        let block_hash = Self::hash_parts(0, 0, &prev, &transactions, 0);
        let genesis = Block {
            index: 0,
            timestamp: 0,
            prev_block_hash: prev,
            block_hash,
            transactions,
            nonce: 0,
        };
        let ghost g = genesis;
        self.blockchain.push(genesis);
        proof {
            assert(self.chain() =~= Seq::<BlockView>::empty().push(g@));
            assert(g@.transactions =~= Seq::<TransactionView>::empty());
        }
    }

    /// Registers a node with the network.  An id already registered is left
    /// exactly as it is, so the registered nodes form a set and a node can
    /// never count twice in a quorum.
    #[verifier::loop_isolation(false)]
    pub fn register_node(&mut self, node: Node)
        requires
            old(self).wf(),
        ensures
            final(self).wf(),
            final(self).chain() == old(self).chain(),
            final(self).processed() == old(self).processed(),
            final(self).prefix() == old(self).prefix(),
            (exists|i: int|
                0 <= i < old(self).node_views().len() && (#[trigger] old(self).node_views()[i]).id
                    == node@.id) ==> final(self).node_views() == old(self).node_views(),
            !(exists|i: int|
                0 <= i < old(self).node_views().len() && (#[trigger] old(self).node_views()[i]).id
                    == node@.id) ==> final(self).node_views() == old(self).node_views().push(
                node@,
            ),
    {
        let len = self.nodes.len();
        let mut i: usize = 0;
        while i < len
            invariant
                i <= len,
                self == old(self),
                forall|j: int| 0 <= j < i ==> (#[trigger] self.node_views()[j]).id != node@.id,
            decreases len - i,
        {
            if self.nodes[i].id == node.id {
                proof {
                    assert(self.node_views()[i as int].id == node@.id);
                }
                return ;
            }
            i = i + 1;
        }
        let ghost n = node;
        self.nodes.push(node);
        proof {
            assert(self.node_views() =~= old(self).node_views().push(n@));
            assert forall|p: int, q: int|
                0 <= p < q < self.node_views().len() implies (#[trigger] self.node_views()[p]).id
                != (#[trigger] self.node_views()[q]).id by {
                if q < old(self).node_views().len() {
                    assert(self.node_views()[p] == old(self).node_views()[p]);
                    assert(self.node_views()[q] == old(self).node_views()[q]);
                } else {
                    assert(self.node_views()[p] == old(self).node_views()[p]);
                    assert(self.node_views()[q] == n@);
                }
            }
        }
    }

    /// The canonical id bytes of a transaction, appended to `out`.
    fn push_tx_id_bytes(out: &mut Vec<u8>, tx: &Transaction)
        ensures
            final(out)@ == old(out)@ + tx_id_bytes(tx@),
    {
        push_bytes(out, tx.from.as_str().as_bytes());
        out.push(124);
        push_bytes(out, tx.to.as_str().as_bytes());
        out.push(124);
        push_decimal(out, tx.amount);
        out.push(124);
        push_bytes(out, tx.signature.as_str().as_bytes());
        proof {
            assert(out@ =~= old(out)@ + tx_id_bytes(tx@));
        }
    }

    /// The block hash over explicit parts.
    fn hash_parts(
        index: u64,
        timestamp: u64,
        prev: &String,
        transactions: &Vec<Transaction>,
        nonce: u64,
    ) -> (r: String)
        ensures
            r@ == block_hash_chars(
                index,
                timestamp,
                prev@,
                transactions@.map_values(|t: Transaction| t@),
                nonce,
            ),
    {
        let ghost views = transactions@.map_values(|t: Transaction| t@);
        let mut data: Vec<u8> = Vec::new();
        push_decimal(&mut data, index);
        data.push(124);
        push_decimal(&mut data, timestamp);
        data.push(124);
        push_bytes(&mut data, prev.as_str().as_bytes());
        data.push(124);
        let ghost base = data@;
        let len = transactions.len();
        let mut i: usize = 0;
        while i < len
            invariant
                i <= len,
                len == transactions@.len(),
                views == transactions@.map_values(|t: Transaction| t@),
                data@ == base + txs_repr(views.subrange(0, i as int)),
            decreases len - i,
        {
            let ghost before = data@;
            Self::push_tx_id_bytes(&mut data, &transactions[i]);
            data.push(10);
            proof {
                lemma_txs_repr_push(views.subrange(0, i as int), views[i as int]);
                assert(views.subrange(0, i as int).push(views[i as int]) =~= views.subrange(
                    0,
                    i as int + 1,
                ));
                assert(data@ =~= base + txs_repr(views.subrange(0, i as int + 1)));
            }
            i = i + 1;
        }
        data.push(124);
        push_decimal(&mut data, nonce);
        proof {
            assert(views.subrange(0, len as int) =~= views);
            assert(data@ =~= block_hash_input(index, timestamp, prev@, views, nonce));
        }
        let digest = sha256_digest(data.as_slice());
        hex_encode(digest.as_slice())
    }

    /// The hash a block's contents denote.
    pub fn calculate_block_hash(&self, block: &Block) -> (r: String)
        ensures
            r@ == block_hash_chars(
                block@.index,
                block@.timestamp,
                block@.prev_block_hash,
                block@.transactions,
                block@.nonce,
            ),
    {
        Self::hash_parts(
            block.index,
            block.timestamp,
            &block.prev_block_hash,
            &block.transactions,
            block.nonce,
        )
    }

    /// The id that identifies a transaction in the processed ledger.
    pub fn calculate_transaction_id(&self, tx: &Transaction) -> (r: String)
        ensures
            r@ == tx_id_chars(tx@),
    {
        let mut data: Vec<u8> = Vec::new();
        Self::push_tx_id_bytes(&mut data, tx);
        proof {
            assert(data@ =~= tx_id_bytes(tx@));
        }
        let digest = sha256_digest(data.as_slice());
        hex_encode(digest.as_slice())
    }

    /// Checks a transaction's ECDSA signature: `from` is read as a hex public
    /// key and must verify the hex compact signature against the digest of
    /// the signed message.
    pub fn verify_transaction_signature(&self, tx: &Transaction) -> (r: bool)
        ensures
            r == tx_sig_valid(tx@),
    {
        let pubkey = match hex_decode(tx.from.as_str()) {
            Some(k) => k,
            None => { return false },
        };
        let sig = match hex_decode(tx.signature.as_str()) {
            Some(s) => s,
            None => { return false },
        };
        let mut msg: Vec<u8> = Vec::new();
        push_bytes(&mut msg, tx.from.as_str().as_bytes());
        push_bytes(&mut msg, tx.to.as_str().as_bytes());
        push_decimal(&mut msg, tx.amount);
        proof {
            assert(msg@ =~= tx_sig_msg_bytes(tx@));
        }
        let digest = sha256_digest(msg.as_slice());
        secp_verify_bytes(pubkey.as_slice(), digest.as_slice(), sig.as_slice())
    }

    /// Validates a candidate block against the last committed block:
    /// timestamp monotonicity, previous-hash linkage, hash recomputation.
    pub fn validate_block(&self, block: &Block) -> (r: Result<(), BlockValidationError>)
        requires
            self.chain().len() >= 1,
        ensures
            ({
                let prev = self.chain().last();
                let b = block@;
                if b.timestamp <= prev.timestamp {
                    r == Err::<(), BlockValidationError>(BlockValidationError::InvalidTimestamp)
                } else if b.prev_block_hash != prev.block_hash {
                    r == Err::<(), BlockValidationError>(
                        BlockValidationError::MismatchedPreviousHash,
                    )
                } else if b.block_hash != block_hash_chars(
                    b.index,
                    b.timestamp,
                    b.prev_block_hash,
                    b.transactions,
                    b.nonce,
                ) {
                    r == Err::<(), BlockValidationError>(BlockValidationError::IncorrectBlockHash)
                } else {
                    r == Ok::<(), BlockValidationError>(())
                }
            }),
            r is Ok <==> block_ok(self.chain(), block@),
    {
        let prev_block = &self.blockchain[self.blockchain.len() - 1];
        if block.timestamp <= prev_block.timestamp {
            return Err(BlockValidationError::InvalidTimestamp);
        }
        if !(block.prev_block_hash == prev_block.block_hash) {
            return Err(BlockValidationError::MismatchedPreviousHash);
        }
        let recomputed = self.calculate_block_hash(block);
        if !(block.block_hash == recomputed) {
            return Err(BlockValidationError::IncorrectBlockHash);
        }
        Ok(())
    }

    /// One node's vote on a candidate block: every node re-runs the same
    /// block validation.
    pub fn validate_block_for_node(&self, _node: &Node, block: &Block) -> (r: bool)
        requires
            self.chain().len() >= 1,
        ensures
            r == block_ok(self.chain(), block@),
    {
        self.validate_block(block).is_ok()
    }

    /// Collects the registered nodes' votes on a candidate block and applies
    /// the quorum rule.  A node that is not currently validating never votes
    /// in favour, but still counts toward the quorum's denominator.
    pub fn nodes_vote_on_block(&self, block: &Block) -> (r: bool)
        requires
            self.chain().len() >= 1,
        ensures
            r == quorum(
                self.node_views().len() as int,
                if block_ok(self.chain(), block@) {
                    count_validating(self.node_views())
                } else {
                    0
                },
            ),
    {
        let ghost views = self.node_views();
        let len = self.nodes.len();
        let mut votes_for: usize = 0;
        let mut i: usize = 0;
        while i < len
            invariant
                i <= len,
                len == self.nodes@.len(),
                views == self.node_views(),
                self.chain().len() >= 1,
                votes_for <= i,
                votes_for == (if block_ok(self.chain(), block@) {
                    count_validating(views.subrange(0, i as int))
                } else {
                    0int
                }),
            decreases len - i,
        {
            proof {
                lemma_count_validating_push(views.subrange(0, i as int), views[i as int]);
                assert(views.subrange(0, i as int).push(views[i as int]) =~= views.subrange(
                    0,
                    i as int + 1,
                ));
            }
            let node = &self.nodes[i];
            if node.is_validating && self.validate_block_for_node(node, block) {
                votes_for = votes_for + 1;
            }
            i = i + 1;
        }
        proof {
            assert(views.subrange(0, len as int) =~= views);
        }
        if self.nodes.len() < 3 {
            votes_for == self.nodes.len()
        } else {
            votes_for > self.nodes.len() / 2
        }
    }
}

/// A transaction the collecting phase accepts: a valid signature and an id
/// not yet committed.
pub open spec fn tx_clean(t: TransactionView, processed: Set<Seq<char>>) -> bool {
    tx_sig_valid(t) && !processed.contains(tx_id_chars(t))
}

/// The set of ids of a transaction list.
pub open spec fn tx_ids(ts: Seq<TransactionView>) -> Set<Seq<char>>
    decreases ts.len(),
{
    if ts.len() == 0 {
        Set::<Seq<char>>::empty()
    } else {
        tx_ids(ts.drop_first()).insert(tx_id_chars(ts.first()))
    }
}

/// Appending a transaction adds exactly its id to the id set.
proof fn lemma_tx_ids_push(ts: Seq<TransactionView>, t: TransactionView)
    ensures
        tx_ids(ts.push(t)) == tx_ids(ts).insert(tx_id_chars(t)),
    decreases ts.len(),
{
    if ts.len() == 0 {
        assert(ts.push(t).drop_first() =~= ts);
        assert(tx_ids(ts.push(t)) =~= tx_ids(ts).insert(tx_id_chars(t)));
    } else {
        assert(ts.push(t).drop_first() =~= ts.drop_first().push(t));
        lemma_tx_ids_push(ts.drop_first(), t);
        assert(tx_ids(ts.push(t)) =~= tx_ids(ts).insert(tx_id_chars(t)));
    }
}

/// The ids of every transaction contained in any block of the chain.
pub open spec fn chain_ids(c: Seq<BlockView>) -> Set<Seq<char>>
    decreases c.len(),
{
    if c.len() == 0 {
        Set::<Seq<char>>::empty()
    } else {
        chain_ids(c.drop_first()).union(tx_ids(c.first().transactions))
    }
}

/// Appending a block adds exactly its transactions' ids.
proof fn lemma_chain_ids_push(c: Seq<BlockView>, b: BlockView)
    ensures
        chain_ids(c.push(b)) == chain_ids(c).union(tx_ids(b.transactions)),
    decreases c.len(),
{
    if c.len() == 0 {
        assert(c.push(b).drop_first() =~= c);
        assert(chain_ids(c.push(b)) =~= chain_ids(c).union(tx_ids(b.transactions)));
    } else {
        assert(c.push(b).drop_first() =~= c.drop_first().push(b));
        lemma_chain_ids_push(c.drop_first(), b);
        assert(chain_ids(c.push(b)) =~= chain_ids(c).union(tx_ids(b.transactions)));
    }
}

/// An id in a transaction list's id set names one of its transactions.
proof fn lemma_tx_ids_member(ts: Seq<TransactionView>, h: Seq<char>)
    requires
        tx_ids(ts).contains(h),
    ensures
        exists|j: int| 0 <= j < ts.len() && h == tx_id_chars(#[trigger] ts[j]),
    decreases ts.len(),
{
    if ts.len() == 0 {
    } else if h == tx_id_chars(ts.first()) {
        assert(h == tx_id_chars(ts[0]));
    } else {
        lemma_tx_ids_member(ts.drop_first(), h);
        let j = choose|j: int|
            0 <= j < ts.drop_first().len() && h == tx_id_chars(#[trigger] ts.drop_first()[j]);
        assert(ts.drop_first()[j] == ts[j + 1]);
        assert(h == tx_id_chars(ts[j + 1]));
    }
}

/// An id in the chain's id set names a transaction of one of its blocks.
proof fn lemma_chain_ids_member(c: Seq<BlockView>, h: Seq<char>)
    requires
        chain_ids(c).contains(h),
    ensures
        exists|i: int, j: int|
            0 <= i < c.len() && 0 <= j < c[i].transactions.len() && h == tx_id_chars(
                #[trigger] c[i].transactions[j],
            ),
    decreases c.len(),
{
    if c.len() == 0 {
    } else if tx_ids(c.first().transactions).contains(h) {
        lemma_tx_ids_member(c.first().transactions, h);
        let j = choose|j: int|
            0 <= j < c.first().transactions.len() && h == tx_id_chars(
                #[trigger] c.first().transactions[j],
            );
        assert(0 <= 0 < c.len() && 0 <= j < c[0].transactions.len() && h == tx_id_chars(
            c[0].transactions[j],
        ));
    } else {
        lemma_chain_ids_member(c.drop_first(), h);
        let (i, j) = choose|i: int, j: int|
            0 <= i < c.drop_first().len() && 0 <= j < c.drop_first()[i].transactions.len()
                && h == tx_id_chars(#[trigger] c.drop_first()[i].transactions[j]);
        assert(c.drop_first()[i] == c[i + 1]);
        assert(0 <= i + 1 < c.len() && 0 <= j < c[i + 1].transactions.len() && h == tx_id_chars(
            c[i + 1].transactions[j],
        ));
    }
}

impl Consensus {
    /// Screens a batch for the collecting phase: every transaction must
    /// carry a valid signature and an id not yet committed.  On success the
    /// ids of all transactions come back, in order.
    fn collect_ids(&self, transactions: &Vec<Transaction>) -> (r: Result<Vec<String>, ConsensusError>)
        ensures
            ({
                let txs = transactions@.map_values(|t: Transaction| t@);
                let p = self.processed();
                match r {
                    Ok(ids) => {
                        &&& forall|j: int| 0 <= j < txs.len() ==> tx_clean(#[trigger] txs[j], p)
                        &&& ids@.len() == txs.len()
                        &&& forall|j: int|
                            0 <= j < txs.len() ==> ids@[j]@ == tx_id_chars(#[trigger] txs[j])
                    },
                    Err(e) => exists|i: int|
                        {
                            &&& 0 <= i < txs.len()
                            &&& forall|j: int| 0 <= j < i ==> tx_clean(#[trigger] txs[j], p)
                            &&& !tx_clean(txs[i], p)
                            &&& e == (if !tx_sig_valid(txs[i]) {
                                ConsensusError::InvalidTransactionSignature
                            } else {
                                ConsensusError::DuplicateTransaction
                            })
                        },
                }
            }),
    {
        let ghost txs = transactions@.map_values(|t: Transaction| t@);
        let ghost p = self.processed();
        let mut ids: Vec<String> = Vec::new();
        let n = transactions.len();
        let mut i: usize = 0;
        while i < n
            invariant
                i <= n,
                n == transactions@.len(),
                txs == transactions@.map_values(|t: Transaction| t@),
                p == self.processed(),
                ids@.len() == i,
                forall|j: int| 0 <= j < i ==> tx_clean(#[trigger] txs[j], p),
                forall|j: int| 0 <= j < i ==> ids@[j]@ == tx_id_chars(#[trigger] txs[j]),
            decreases n - i,
        {
            let tx = &transactions[i];
            proof {
                assert(txs[i as int] == transactions@[i as int]@);
            }
            if !self.verify_transaction_signature(tx) {
                proof {
                    let wi = i as int;
                    assert(0 <= wi < txs.len() && (forall|j: int|
                        0 <= j < wi ==> tx_clean(#[trigger] txs[j], p)) && !tx_clean(txs[wi], p)
                        && ConsensusError::InvalidTransactionSignature == (if !tx_sig_valid(
                        txs[wi],
                    ) {
                        ConsensusError::InvalidTransactionSignature
                    } else {
                        ConsensusError::DuplicateTransaction
                    }));
                }
                return Err(ConsensusError::InvalidTransactionSignature);
            }
            let id = self.calculate_transaction_id(tx);
            if self.processed_transactions.contains(id.as_str()) {
                proof {
                    let wi = i as int;
                    assert(0 <= wi < txs.len() && (forall|j: int|
                        0 <= j < wi ==> tx_clean(#[trigger] txs[j], p)) && !tx_clean(txs[wi], p)
                        && ConsensusError::DuplicateTransaction == (if !tx_sig_valid(txs[wi]) {
                        ConsensusError::InvalidTransactionSignature
                    } else {
                        ConsensusError::DuplicateTransaction
                    }));
                }
                return Err(ConsensusError::DuplicateTransaction);
            }
            ids.push(id);
            i = i + 1;
        }
        Ok(ids)
    }

    /// Appends an admitted block and moves every contained transaction's id
    /// into the processed ledger.
    fn commit_block(&mut self, candidate: Block, ids: Vec<String>)
        requires
            old(self).wf(),
            block_ok(old(self).chain(), candidate@),
            candidate@.index == old(self).chain().last().index + 1,
            ids@.len() == candidate@.transactions.len(),
            forall|j: int|
                0 <= j < ids@.len() ==> ids@[j]@ == tx_id_chars(
                    #[trigger] candidate@.transactions[j],
                ),
        ensures
            final(self).wf(),
            final(self).prefix() == old(self).prefix(),
            final(self).node_views() == old(self).node_views(),
            final(self).chain() == old(self).chain().push(candidate@),
            final(self).processed() == old(self).processed().union(
                tx_ids(candidate@.transactions),
            ),
    {
        let ghost c = self.chain();
        let ghost p = self.processed();
        let ghost txs = candidate@.transactions;
        let ghost gcand = candidate;
        self.blockchain.push(candidate);
        proof {
            assert(self.chain() =~= c.push(gcand@));
            assert forall|j: int|
                0 <= j < self.chain().len() implies (#[trigger] self.chain()[j]).index == j by {
                if j < c.len() {
                    assert(self.chain()[j] == c[j]);
                }
            }
            assert forall|j: int|
                0 <= j < self.chain().len() implies (#[trigger] self.chain()[j]).block_hash
                == block_hash_chars(
                self.chain()[j].index,
                self.chain()[j].timestamp,
                self.chain()[j].prev_block_hash,
                self.chain()[j].transactions,
                self.chain()[j].nonce,
            ) by {
                if j < c.len() {
                    assert(self.chain()[j] == c[j]);
                }
            }
            assert(chain_wf(self.chain()));
        }
        let m = ids.len();
        let mut k: usize = 0;
        while k < m
            invariant
                k <= m,
                m == ids@.len(),
                self.processed() == p.union(tx_ids(txs.subrange(0, k as int))),
                self.blockchain@ == old(self).blockchain@.push(gcand),
                self.nodes@ == old(self).nodes@,
                self.hash_prefix == old(self).hash_prefix,
                forall|j: int| 0 <= j < m ==> ids@[j]@ == tx_id_chars(#[trigger] txs[j]),
                txs.len() == m,
            decreases m - k,
        {
            proof {
                assert(tx_ids(txs.subrange(0, 0)) =~= Set::<Seq<char>>::empty());
            }
            let id = ids[k].clone();
            self.processed_transactions.insert(id);
            proof {
                lemma_tx_ids_push(txs.subrange(0, k as int), txs[k as int]);
                assert(txs.subrange(0, k as int).push(txs[k as int]) =~= txs.subrange(
                    0,
                    k as int + 1,
                ));
                assert(self.processed() =~= p.union(tx_ids(txs.subrange(0, k as int + 1))));
            }
            k = k + 1;
        }
        proof {
            assert(tx_ids(txs.subrange(0, 0)) =~= Set::<Seq<char>>::empty());
            assert(p.union(tx_ids(txs.subrange(0, 0))) =~= p);
            assert(txs.subrange(0, m as int) =~= txs);
            lemma_chain_ids_push(c, gcand@);
        }
    }

    /// Runs the whole block-production pipeline on a batch of transactions at
    /// the given timestamp: every transaction must carry a valid signature
    /// and a fresh id; the timestamp must move the chain forward; a nonce is
    /// searched until the block hash starts with the difficulty prefix; the
    /// registered nodes vote; and on quorum the block is appended and every
    /// contained transaction's id enters the processed ledger.  On any
    /// rejection the chain and the processed ledger are left exactly as they
    /// were, so the same batch may be resubmitted later.
    #[verifier::loop_isolation(false)]
    #[verifier::rlimit(100)]
    pub fn implement_poh(&mut self, transactions: Vec<Transaction>, timestamp: u64) -> (r: Result<
        (),
        ConsensusError,
    >)
        requires
            old(self).wf(),
        ensures
            final(self).wf(),
            final(self).prefix() == old(self).prefix(),
            final(self).node_views() == old(self).node_views(),
            ({
                let c = old(self).chain();
                let txs = transactions@.map_values(|t: Transaction| t@);
                let p = old(self).processed();
                let unchanged = final(self).chain() == c && final(self).processed() == p;
                if exists|i: int| 0 <= i < txs.len() && !tx_clean(#[trigger] txs[i], p) {
                    unchanged && exists|i: int|
                        {
                            &&& 0 <= i < txs.len()
                            &&& forall|j: int| 0 <= j < i ==> tx_clean(#[trigger] txs[j], p)
                            &&& !tx_clean(txs[i], p)
                            &&& r == (if !tx_sig_valid(txs[i]) {
                                Err::<(), ConsensusError>(
                                    ConsensusError::InvalidTransactionSignature,
                                )
                            } else {
                                Err::<(), ConsensusError>(ConsensusError::DuplicateTransaction)
                            })
                        }
                } else if timestamp <= c.last().timestamp {
                    unchanged && r == Err::<(), ConsensusError>(
                        ConsensusError::BlockValidationError(BlockValidationError::InvalidTimestamp),
                    )
                } else {
                    let q = quorum(
                        old(self).node_views().len() as int,
                        count_validating(old(self).node_views()),
                    );
                    ||| (unchanged && r == Err::<(), ConsensusError>(
                        ConsensusError::MiningExhausted,
                    ) && (forall|n: u64|
                        !meets_difficulty(
                            old(self).prefix(),
                            #[trigger] block_hash_chars(
                                (c.last().index + 1) as u64,
                                timestamp,
                                c.last().block_hash,
                                txs,
                                n,
                            ),
                        )))
                    ||| (unchanged && !q && r == Err::<(), ConsensusError>(
                        ConsensusError::BlockRejectedByNetwork,
                    ))
                    ||| (q && r == Ok::<(), ConsensusError>(()) && ({
                        let b = final(self).chain().last();
                        &&& final(self).chain().len() == c.len() + 1
                        &&& final(self).chain().subrange(0, c.len() as int) == c
                        &&& b.index == c.last().index + 1
                        &&& b.timestamp == timestamp
                        &&& b.prev_block_hash == c.last().block_hash
                        &&& b.transactions == txs
                        &&& b.block_hash == block_hash_chars(
                            b.index,
                            b.timestamp,
                            b.prev_block_hash,
                            txs,
                            b.nonce,
                        )
                        &&& old(self).prefix().len() <= b.block_hash.len()
                        &&& b.block_hash.subrange(0, old(self).prefix().len() as int) == old(
                            self,
                        ).prefix()
                        &&& final(self).processed() == p.union(tx_ids(txs))
                    }))
                }
            }),
    {
        let ghost c = self.chain();
        let ghost p = self.processed();
        let ghost txs = transactions@.map_values(|t: Transaction| t@);
        let ids = match self.collect_ids(&transactions) {
            Ok(ids) => ids,
            Err(e) => { return Err(e) },
        };
        let chain_len = self.blockchain.len();
        let last_timestamp = self.blockchain[chain_len - 1].timestamp;
        proof {
            assert(c.last() == self.blockchain@[chain_len - 1]@);
        }
        if timestamp <= last_timestamp {
            return Err(ConsensusError::BlockValidationError(BlockValidationError::InvalidTimestamp));
        }
        let index = self.blockchain[chain_len - 1].index + 1;
        let prev = self.blockchain[chain_len - 1].block_hash.clone();
        let mut nonce: u64 = 0;
        let mut block_hash = Self::hash_parts(index, timestamp, &prev, &transactions, nonce);
        proof {
            lemma_hex_of_ascii_len(sha256_of(block_hash_input(index, timestamp, prev@, txs, nonce)));
        }
        while !str_starts_with(&block_hash, &self.hash_prefix)
            invariant
                block_hash@ == block_hash_chars(index, timestamp, prev@, txs, nonce),
                vstd::utf8::is_ascii_chars(block_hash@),
                forall|n: u64|
                    n < nonce ==> !meets_difficulty(
                        self.hash_prefix@,
                        #[trigger] block_hash_chars(index, timestamp, prev@, txs, n),
                    ),
            decreases u64::MAX - nonce,
        {
            proof {
                assert(!meets_difficulty(
                    self.hash_prefix@,
                    block_hash_chars(index, timestamp, prev@, txs, nonce),
                ));
            }
            if nonce == 18446744073709551615 {
                proof {
                    assert forall|n: u64|
                        !meets_difficulty(
                            self.hash_prefix@,
                            #[trigger] block_hash_chars(index, timestamp, prev@, txs, n),
                        ) by {
                        if n < nonce {
                        } else {
                            assert(n == nonce);
                        }
                    }
                }
                return Err(ConsensusError::MiningExhausted);
            }
            nonce = nonce + 1;
            block_hash = Self::hash_parts(index, timestamp, &prev, &transactions, nonce);
            proof {
                lemma_hex_of_ascii_len(
                    sha256_of(block_hash_input(index, timestamp, prev@, txs, nonce)),
                );
            }
        }
        let candidate = Block {
            index,
            timestamp,
            prev_block_hash: prev,
            block_hash,
            transactions,
            nonce,
        };
        proof {
            assert(candidate@.transactions == txs);
            assert(block_ok(c, candidate@));
        }
        if !self.nodes_vote_on_block(&candidate) {
            return Err(ConsensusError::BlockRejectedByNetwork);
        }
        match self.validate_block(&candidate) {
            Ok(_) => {},
            Err(e) => {
                proof {
                    assert(false);
                }
                return Err(ConsensusError::BlockValidationError(e));
            },
        }
        self.commit_block(candidate, ids);
        Ok(())
    }
}

/// Counting validators distributes over appending a node.
proof fn lemma_count_validating_push(ns: Seq<NodeView>, n: NodeView)
    ensures
        count_validating(ns.push(n)) == count_validating(ns) + (if n.is_validating {
            1int
        } else {
            0int
        }),
    decreases ns.len(),
{
    if ns.len() == 0 {
        assert(ns.push(n).drop_first() =~= ns);
    } else {
        assert(ns.push(n).drop_first() =~= ns.drop_first().push(n));
        lemma_count_validating_push(ns.drop_first(), n);
    }
}

/// Law: every committed block after the genesis links to the hash of its
/// predecessor.
pub proof fn lemma_chain_prev_hash_linked(c: &Consensus)
    requires
        c.wf(),
    ensures
        forall|i: int|
            1 <= i < c.chain().len() ==> (#[trigger] c.chain()[i]).prev_block_hash == c.chain()[i
                - 1].block_hash,
{
}

/// Law: timestamps strictly increase along the committed chain.
pub proof fn lemma_chain_timestamps_monotonic(c: &Consensus)
    requires
        c.wf(),
    ensures
        forall|i: int|
            1 <= i < c.chain().len() ==> (#[trigger] c.chain()[i]).timestamp > c.chain()[i
                - 1].timestamp,
{
}

/// Law: timestamps increase across the whole committed chain, not only
/// between neighbours: any later block is strictly newer than any earlier
/// one.
pub proof fn lemma_chain_timestamps_increase_across(c: &Consensus, i: int, j: int)
    requires
        c.wf(),
        0 <= i < j < c.chain().len(),
    ensures
        c.chain()[i].timestamp < c.chain()[j].timestamp,
    decreases j - i,
{
    if i + 1 < j {
        lemma_chain_timestamps_increase_across(c, i, j - 1);
    }
}

/// Law: a transaction id stands on the processed ledger only when some
/// committed block contains a transaction with that id; a rejected candidate
/// leaves the ledger untouched, so its transactions may be resubmitted.
pub proof fn lemma_processed_only_when_committed(c: &Consensus, h: Seq<char>)
    requires
        c.wf(),
        c.processed().contains(h),
    ensures
        exists|i: int, j: int|
            0 <= i < c.chain().len() && 0 <= j < c.chain()[i].transactions.len() && h
                == tx_id_chars(#[trigger] c.chain()[i].transactions[j]),
{
    lemma_chain_ids_member(c.chain(), h);
}

} // verus!
