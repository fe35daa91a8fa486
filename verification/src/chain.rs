//! The data that makes up the chain.
use vstd::prelude::*;

use crate::hash;

verus! {

/// The number of a checkpoint, at which a block joins the chain.
pub type Epoch = u32;

/// A point of the chain: an epoch and the block before it.
#[derive(Clone, Copy, Debug, PartialEq, Eq)]
pub struct CheckpointBeacon {
    /// The epoch of the point.
    pub checkpoint: Epoch,
    /// The hash of the block before the point.
    pub hash_prev_block: hash::Hash,
}

/// The header of a block.
#[derive(Clone, Copy, Debug, PartialEq, Eq)]
pub struct BlockHeader {
    /// The version of the block's format.
    pub version: u32,
    /// The point of the chain at which the block stands.
    pub beacon: CheckpointBeacon,
    /// The root of the Merkle tree of the block's transactions.
    pub hash_merkle_root: hash::Hash,
}

/// An ECDSA signature over the curve secp256k1.
#[derive(Clone, Copy, Debug, PartialEq, Eq)]
pub struct Secp256k1Signature {
    /// The number `r` of the signature.
    pub r: [u8; 32],
    /// The number `s` of the signature.
    pub s: [u8; 32],
    /// The recovery number of the signature.
    pub v: u8,
}

/// A signature.
#[derive(Clone, Copy, Debug, PartialEq, Eq)]
pub enum Signature {
    /// An ECDSA signature over the curve secp256k1.
    Secp256k1(Secp256k1Signature),
}

/// The proof that a node may propose a block.
#[derive(Clone, Copy, Debug, PartialEq, Eq)]
pub struct LeadershipProof {
    /// The signature of the node, if it signed.
    pub block_sig: Option<Signature>,
    /// The influence of the node.
    pub influence: u64,
}

/// A transaction. All transactions are alike so far.
#[derive(Clone, Copy, Debug, PartialEq, Eq)]
pub struct Transaction;

/// A block.
#[derive(Debug, PartialEq, Eq)]
pub struct Block {
    /// The header of the block.
    pub block_header: BlockHeader,
    /// The proof that the block's author may propose it.
    pub proof: LeadershipProof,
    /// The transactions of the block.
    pub txns: Vec<Transaction>,
}

/// What a block holds.
#[verifier::ext_equal]
pub struct BlockView {
    /// The header of the block.
    pub block_header: BlockHeader,
    /// The proof that the block's author may propose it.
    pub proof: LeadershipProof,
    /// The transactions of the block, in order.
    pub txns: Seq<Transaction>,
}

impl BlockView {
    /// The epoch for which the block was made.
    pub open spec fn epoch(self) -> Epoch {
        self.block_header.beacon.checkpoint
    }
}

impl View for Block {
    type V = BlockView;

    open spec fn view(&self) -> BlockView {
        BlockView { block_header: self.block_header, proof: self.proof, txns: self.txns@ }
    }
}

impl Clone for Block {
    fn clone(&self) -> (copy: Self)
        ensures
            copy@ == self@,
            copy.block_header == self.block_header,
            copy.proof == self.proof,
            copy.txns@ == self.txns@,
    {
        let copy = Block {
            block_header: self.block_header,
            proof: self.proof,
            txns: self.txns.clone(),
        };
        assert(copy.txns@ =~= self.txns@);
        copy
    }
}

/// The transactions that wait for a block.
#[derive(Debug)]
pub struct TransactionsPool {
    /// The transactions, in the order in which a block takes them.
    pub transactions: Vec<Transaction>,
}

impl View for TransactionsPool {
    type V = Seq<Transaction>;

    open spec fn view(&self) -> Seq<Transaction> {
        self.transactions@
    }
}

impl Default for TransactionsPool {
    fn default() -> (pool: Self)
        ensures
            pool@ == Seq::<Transaction>::empty(),
            pool.transactions@.len() == 0,
    {
        TransactionsPool { transactions: Vec::new() }
    }
}

/// The state of the chain and its constants, in the encoding in which they are stored. What they
/// are is of no concern to the code that keeps them.
#[derive(Debug)]
pub struct ChainInfo {
    /// The encoded form.
    pub encoded: Vec<u8>,
}

impl View for ChainInfo {
    type V = Seq<u8>;

    open spec fn view(&self) -> Seq<u8> {
        self.encoded@
    }
}

/// The announcement of an item: its kind and its hash.
#[derive(Clone, Copy, Debug, PartialEq, Eq)]
pub enum InventoryEntry {
    /// An item that went wrong.
    Error(hash::Hash),
    /// A transaction.
    Tx(hash::Hash),
    /// A block.
    Block(hash::Hash),
    /// A data request.
    DataRequest(hash::Hash),
    /// The result of a data request.
    DataResult(hash::Hash),
}

impl InventoryEntry {
    /// The hash of the announced item, whatever its kind.
    pub open spec fn spec_hash(self) -> hash::Hash {
        match self {
            InventoryEntry::Error(hash) => hash,
            InventoryEntry::Tx(hash) => hash,
            InventoryEntry::Block(hash) => hash,
            InventoryEntry::DataRequest(hash) => hash,
            InventoryEntry::DataResult(hash) => hash,
        }
    }

    /// The hash of the announced item, whatever its kind.
    pub fn hash(&self) -> (hash: hash::Hash)
        ensures
            hash == self.spec_hash(),
            *self == InventoryEntry::Error(hash) || *self == InventoryEntry::Tx(hash) || *self
                == InventoryEntry::Block(hash) || *self == InventoryEntry::DataRequest(hash)
                || *self == InventoryEntry::DataResult(hash),
    {
        match self {
            InventoryEntry::Error(hash)
            | InventoryEntry::Block(hash)
            | InventoryEntry::Tx(hash)
            | InventoryEntry::DataRequest(hash)
            | InventoryEntry::DataResult(hash) => *hash,
        }
    }
}

/// An item of the inventory.
#[derive(Debug, PartialEq, Eq)]
pub enum InventoryItem {
    /// A transaction.
    Transaction(Transaction),
    /// A block.
    Block(Block),
}

} // verus!
