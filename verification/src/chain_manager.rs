//! The chain manager: the blocks that a node knows, and what it does with them.
use std::collections::HashMap;
use vstd::prelude::*;
use vstd::slice::slice_to_vec;

use crate::chain::{
    Block, BlockHeader, BlockView, ChainInfo, Epoch, InventoryEntry, InventoryItem, Transaction,
    TransactionsPool,
};
use crate::error::ChainManagerError;
use crate::hash;
use crate::hash_index::{HashGroup, HashIndex};
use crate::messages::{
    AddItem, AnnounceItems, Answer, Broadcast, BuildBlock, InventoryEntriesResult, Put,
};

verus! {

/// The chain manager.
pub struct ChainManager {
    /// Blockchain information data structure.
    pub chain_info: Option<ChainInfo>,
    /// Map that relates an epoch with the hashes of the blocks for that epoch. One epoch can have
    /// more than one block.
    pub epoch_to_block_hash: HashMap<Epoch, HashGroup>,
    /// Map that stores blocks by their hash.
    pub blocks: HashIndex<Block>,
    /// Current epoch.
    pub current_epoch: Option<Epoch>,
    /// Transactions pool.
    pub transactions_pool: TransactionsPool,
    /// Block candidate to update `chain_info` in the next epoch.
    pub block_candidate: Option<Block>,
}

/// What a chain manager holds.
#[verifier::ext_equal]
pub struct ChainManagerView {
    /// The encoded blockchain information.
    pub chain_info: Option<Seq<u8>>,
    /// The hashes of the known blocks of each epoch that has any.
    pub epochs: Map<Epoch, Set<hash::Hash>>,
    /// The known blocks by their hash.
    pub blocks: Map<hash::Hash, BlockView>,
    /// The current epoch.
    pub current_epoch: Option<Epoch>,
    /// The transactions that wait for a block, in order.
    pub pool: Seq<Transaction>,
    /// The block candidate.
    pub block_candidate: Option<BlockView>,
}

impl View for ChainManager {
    type V = ChainManagerView;

    open spec fn view(&self) -> ChainManagerView {
        ChainManagerView {
            chain_info: match self.chain_info {
                Some(info) => Some(info@),
                None => None,
            },
            epochs: self.epoch_to_block_hash@.map_values(|group: HashGroup| group@),
            blocks: self.blocks@.map_values(|block: Block| block@),
            current_epoch: self.current_epoch,
            pool: self.transactions_pool@,
            block_candidate: match self.block_candidate {
                Some(block) => Some(block@),
                None => None,
            },
        }
    }
}

impl ChainManagerView {
    /// A manager that knows nothing yet.
    pub open spec fn initial() -> ChainManagerView {
        ChainManagerView {
            chain_info: None,
            epochs: Map::empty(),
            blocks: Map::empty(),
            current_epoch: None,
            pool: Seq::empty(),
            block_candidate: None,
        }
    }

    /// Whether a block with this hash is known.
    pub open spec fn knows(self, hash: hash::Hash) -> bool {
        self.blocks.contains_key(hash)
    }

    /// The hashes of the blocks that are listed for an epoch.
    pub open spec fn hashes_at(self, epoch: Epoch) -> Set<hash::Hash> {
        if self.epochs.contains_key(epoch) {
            self.epochs[epoch]
        } else {
            Set::empty()
        }
    }

    /// The two maps agree: an epoch lists exactly the hashes of the known blocks of that epoch, and
    /// an epoch without blocks is not listed.
    pub open spec fn wf(self) -> bool {
        &&& self.blocks.dom().finite()
        &&& forall|epoch: Epoch, hash: hash::Hash| #[trigger]
            self.hashes_at(epoch).contains(hash) <==> self.knows(hash)
                && self.blocks[hash].epoch() == epoch
        &&& forall|epoch: Epoch| #[trigger]
            self.epochs.contains_key(epoch) ==> exists|hash: hash::Hash|
                self.epochs[epoch].contains(hash)
    }

    /// The manager with one more block, listed for its epoch.
    pub open spec fn with_block(self, hash: hash::Hash, block: BlockView) -> ChainManagerView {
        ChainManagerView {
            epochs: self.epochs.insert(
                block.epoch(),
                self.hashes_at(block.epoch()).insert(hash),
            ),
            blocks: self.blocks.insert(hash, block),
            ..self
        }
    }

    /// The manager after a block came in: a block with a known hash changes nothing.
    pub open spec fn after_block(self, hash: hash::Hash, block: BlockView) -> ChainManagerView {
        if self.knows(hash) {
            self
        } else {
            self.with_block(hash, block)
        }
    }

    /// What the sender of a block is told.
    pub open spec fn answer_to_block(self, hash: hash::Hash) -> Result<
        hash::Hash,
        ChainManagerError,
    > {
        if self.knows(hash) {
            Err(ChainManagerError::BlockAlreadyExists)
        } else {
            Ok(hash)
        }
    }

    /// The known block with this hash, if there is one.
    pub open spec fn block_with(self, hash: hash::Hash) -> Option<BlockView> {
        if self.knows(hash) {
            Some(self.blocks[hash])
        } else {
            None
        }
    }

    /// The manager after the blocks of a list came in one after the other, each with its hash.
    pub open spec fn after_blocks(self, arrivals: Seq<(hash::Hash, BlockView)>) -> ChainManagerView
        decreases arrivals.len(),
    {
        if arrivals.len() == 0 {
            self
        } else {
            let (hash, block) = arrivals.last();
            self.after_blocks(arrivals.drop_last()).after_block(hash, block)
        }
    }

    /// Each known block is known under the hash that `hash_of` gives it.
    pub open spec fn keyed_by(self, hash_of: spec_fn(BlockView) -> hash::Hash) -> bool {
        forall|hash: hash::Hash| #[trigger]
            self.knows(hash) ==> hash_of(self.blocks[hash]) == hash
    }

    /// The announcements of items that are not known as blocks, in their order.
    pub open spec fn missing(self, entries: Seq<InventoryEntry>) -> Seq<InventoryEntry> {
        entries.filter(|entry: InventoryEntry| !self.knows(entry.spec_hash()))
    }

    /// The fees of the waiting transactions: each pays one unit.
    pub open spec fn transaction_fees(self) -> nat {
        self.pool.len()
    }
}

impl Default for ChainManager {
    fn default() -> (manager: Self)
        ensures
            manager@ == ChainManagerView::initial(),
            manager@.wf(),
            manager.chain_info is None,
            manager.epoch_to_block_hash@ == Map::<Epoch, HashGroup>::empty(),
            manager.blocks@ == Map::<hash::Hash, Block>::empty(),
            manager.current_epoch is None,
            manager.transactions_pool.transactions@.len() == 0,
            manager.block_candidate is None,
    {
        let manager = ChainManager {
            chain_info: None,
            epoch_to_block_hash: HashMap::new(),
            blocks: HashIndex::new(),
            current_epoch: None,
            transactions_pool: TransactionsPool::default(),
            block_candidate: None,
        };
        assert(manager@.epochs =~= Map::empty());
        assert(manager@.blocks =~= Map::empty());
        manager
    }
}

impl ChainManager {
    /// Takes in a block under a given hash, unless a block with that hash is known already.
    pub fn add_block(&mut self, hash: hash::Hash, block: Block) -> (result: Result<
        hash::Hash,
        ChainManagerError,
    >)
        ensures
            result == old(self)@.answer_to_block(hash),
            final(self)@ == old(self)@.after_block(hash, block@),
            old(self)@.wf() ==> final(self)@.wf(),
            result is Ok <==> !old(self).blocks@.contains_key(hash),
            result matches Ok(answered) ==> {
                &&& answered == hash
                &&& final(self).blocks@ == old(self).blocks@.insert(answered, block)
                &&& forall|epoch: Epoch|
                    final(self).epoch_to_block_hash@.contains_key(epoch) <==> epoch
                        == block.block_header.beacon.checkpoint
                        || old(self).epoch_to_block_hash@.contains_key(epoch)
                &&& forall|epoch: Epoch, other: hash::Hash|
                    final(self).epoch_to_block_hash@.contains_key(epoch) ==> (
                    #[trigger] final(self).epoch_to_block_hash@[epoch]@.contains(other) <==> (epoch
                        == block.block_header.beacon.checkpoint && other == answered) || (
                    old(self).epoch_to_block_hash@.contains_key(epoch)
                        && old(self).epoch_to_block_hash@[epoch]@.contains(other)))
                &&& final(self).chain_info == old(self).chain_info
                &&& final(self).current_epoch == old(self).current_epoch
                &&& final(self).transactions_pool == old(self).transactions_pool
                &&& final(self).block_candidate == old(self).block_candidate
            },
            result matches Err(error) ==> {
                &&& error == ChainManagerError::BlockAlreadyExists
                &&& *final(self) == *old(self)
            },
    {
        if self.blocks.contains_key(&hash) {
            Err(ChainManagerError::BlockAlreadyExists)
        } else {
            let epoch: Epoch = block.block_header.beacon.checkpoint;
            let group = self.epoch_to_block_hash.entry(epoch).or_insert(HashGroup::new());
            group.insert(hash);
            self.blocks.insert(hash, block);
            proof {
                let ghost expected = old(self)@.with_block(hash, block@);
                assert(self@.epochs =~= expected.epochs);
                assert(self@.blocks =~= expected.blocks);
                if old(self)@.wf() {
                    crate::laws::law_agreement_is_kept(old(self)@, hash, block@);
                }
            }
            Ok(hash)
        }
    }

    /// Takes in a new block, under the hash that `hash_of` gives it. A block whose hash is known
    /// already is refused. Where `hash_of` computes a function of what a block holds, and each known
    /// block is known under what that function gives, it stays so.
    pub fn process_new_block<H>(&mut self, block: Block, hash_of: H) -> (result: Result<
        hash::Hash,
        ChainManagerError,
    >) where H: Fn(&Block) -> hash::Hash
        requires
            call_requires(hash_of, (&block,)),
        ensures
            exists|hash: hash::Hash| #[trigger]
                call_ensures(hash_of, (&block,), hash) && result == old(self)@.answer_to_block(hash)
                    && final(self)@ == old(self)@.after_block(hash, block@),
            old(self)@.wf() ==> final(self)@.wf(),
            forall|f: spec_fn(BlockView) -> hash::Hash| #[trigger]
                old(self)@.keyed_by(f) && (forall|hash: hash::Hash| #[trigger]
                    call_ensures(hash_of, (&block,), hash) ==> hash == f(block@))
                    ==> final(self)@.keyed_by(f),
            result matches Ok(answered) ==> {
                &&& call_ensures(hash_of, (&block,), answered)
                &&& !old(self).blocks@.contains_key(answered)
                &&& final(self).blocks@ == old(self).blocks@.insert(answered, block)
                &&& forall|epoch: Epoch|
                    final(self).epoch_to_block_hash@.contains_key(epoch) <==> epoch
                        == block.block_header.beacon.checkpoint
                        || old(self).epoch_to_block_hash@.contains_key(epoch)
                &&& forall|epoch: Epoch, other: hash::Hash|
                    final(self).epoch_to_block_hash@.contains_key(epoch) ==> (
                    #[trigger] final(self).epoch_to_block_hash@[epoch]@.contains(other) <==> (epoch
                        == block.block_header.beacon.checkpoint && other == answered) || (
                    old(self).epoch_to_block_hash@.contains_key(epoch)
                        && old(self).epoch_to_block_hash@[epoch]@.contains(other)))
                &&& final(self).chain_info == old(self).chain_info
                &&& final(self).current_epoch == old(self).current_epoch
                &&& final(self).transactions_pool == old(self).transactions_pool
                &&& final(self).block_candidate == old(self).block_candidate
            },
            result matches Err(error) ==> {
                &&& error == ChainManagerError::BlockAlreadyExists
                &&& exists|hash: hash::Hash| #[trigger]
                    call_ensures(hash_of, (&block,), hash) && old(self).blocks@.contains_key(hash)
                &&& *final(self) == *old(self)
            },
    {
        let hash = hash_of(&block);
        proof {
            assert forall|f: spec_fn(BlockView) -> hash::Hash| #[trigger]
                old(self)@.keyed_by(f) && (forall|hash: hash::Hash| #[trigger]
                    call_ensures(hash_of, (&block,), hash) ==> hash == f(block@)) implies old(
                self,
            )@.after_block(hash, block@).keyed_by(f) by {
                crate::laws::law_blocks_stay_under_their_hash(old(self)@, f, block@);
            }
        }
        self.add_block(hash, block)
    }

    /// Gets the block with a given hash.
    pub fn try_to_get_block(&mut self, hash: hash::Hash) -> (result: Result<
        Block,
        ChainManagerError,
    >)
        ensures
            match result {
                Ok(block) => old(self)@.block_with(hash) == Some(block@),
                Err(error) => old(self)@.block_with(hash) is None
                    && error == ChainManagerError::BlockDoesNotExist,
            },
            result is Ok <==> old(self).blocks@.contains_key(hash),
            result matches Ok(block) ==> {
                &&& block.block_header == old(self).blocks@[hash].block_header
                &&& block.proof == old(self).blocks@[hash].proof
                &&& block.txns@ == old(self).blocks@[hash].txns@
            },
            *final(self) == *old(self),
    {
        match self.blocks.get(&hash) {
            Some(block) => Ok(block.clone()),
            None => Err(ChainManagerError::BlockDoesNotExist),
        }
    }

    /// Takes the announcements of known items out of a list of announcements. An item is known
    /// where there is a block with its hash, whatever kind the announcement says it is.
    pub fn discard_existing_inventory_entries(
        &mut self,
        inv_entries: Vec<InventoryEntry>,
    ) -> (result: InventoryEntriesResult)
        ensures
            result matches Ok(missing) && missing@ == old(self)@.missing(inv_entries@),
            result matches Ok(missing) && missing@ == inv_entries@.filter(
                |entry: InventoryEntry|
                    match entry {
                        InventoryEntry::Error(hash) => !old(self).blocks@.contains_key(hash),
                        InventoryEntry::Tx(hash) => !old(self).blocks@.contains_key(hash),
                        InventoryEntry::Block(hash) => !old(self).blocks@.contains_key(hash),
                        InventoryEntry::DataRequest(hash) => !old(self).blocks@.contains_key(hash),
                        InventoryEntry::DataResult(hash) => !old(self).blocks@.contains_key(hash),
                    },
            ),
            *final(self) == *old(self),
    {
        let mut missing: Vec<InventoryEntry> = Vec::new();
        let mut i: usize = 0;
        assert(inv_entries@.take(0).filter(
            |entry: InventoryEntry| !self@.knows(entry.spec_hash()),
        ) =~= Seq::empty());
        while i < inv_entries.len()
            invariant
                i <= inv_entries.len(),
                *self == *old(self),
                missing@ == self@.missing(inv_entries@.take(i as int)),
            decreases inv_entries.len() - i,
        {
            let entry = inv_entries[i];
            proof {
                assert(inv_entries@.take(i + 1).drop_last() =~= inv_entries@.take(i as int));
                reveal(Seq::filter);
            }
            if !self.blocks.contains_key(&entry.hash()) {
                missing.push(entry);
            }
            i += 1;
        }
        assert(inv_entries@.take(i as int) =~= inv_entries@);
        proof {
            let by_model = |entry: InventoryEntry| !self@.knows(entry.spec_hash());
            let by_kind = |entry: InventoryEntry|
                match entry {
                    InventoryEntry::Error(hash) => !self.blocks@.contains_key(hash),
                    InventoryEntry::Tx(hash) => !self.blocks@.contains_key(hash),
                    InventoryEntry::Block(hash) => !self.blocks@.contains_key(hash),
                    InventoryEntry::DataRequest(hash) => !self.blocks@.contains_key(hash),
                    InventoryEntry::DataResult(hash) => !self.blocks@.contains_key(hash),
                };
            assert(by_model =~= by_kind);
        }
        Ok(missing)
    }

    /// The waiting transactions and the sum of their fees.
    pub fn collect_transactions(&self) -> (collected: (Vec<Transaction>, u64))
        ensures
            collected.0@ == self@.pool,
            collected.1 == self@.transaction_fees(),
            collected.0@ == self.transactions_pool.transactions@,
            collected.1 == collected.0@.len(),
    {
        let mut transaction_fees: u64 = 0;
        let mut transactions: Vec<Transaction> = Vec::new();
        let mut i: usize = 0;
        while i < self.transactions_pool.transactions.len()
            invariant
                i <= self.transactions_pool.transactions.len(),
                transaction_fees == i,
                transactions@ == self.transactions_pool@.take(i as int),
            decreases self.transactions_pool.transactions.len() - i,
        {
            transaction_fees += 1;
            transactions.push(self.transactions_pool.transactions[i]);
            i += 1;
            assert(transactions@ =~= self.transactions_pool@.take(i as int));
        }
        assert(self.transactions_pool@.take(i as int) =~= self.transactions_pool@);
        (transactions, transaction_fees)
    }

    /// Builds a block out of all the waiting transactions. `merkle_tree_root` gives the root of the
    /// Merkle tree of a list of transactions.
    pub fn build_block<M>(&self, msg: &BuildBlock, merkle_tree_root: M) -> (block: Block) where
        M: Fn(&Vec<Transaction>) -> hash::Hash,

        requires
            forall|txns: &Vec<Transaction>|
                txns@ == self@.pool ==> #[trigger] call_requires(merkle_tree_root, (txns,)),
        ensures
            call_ensures(
                merkle_tree_root,
                (&block.txns,),
                block.block_header.hash_merkle_root,
            ),
            block@ == assembled(*msg, block.block_header.hash_merkle_root, self@.pool),
            block.block_header.version == 0,
            block.block_header.beacon == msg.beacon,
            block.proof == msg.leadership_proof,
            block.txns@ == self.transactions_pool.transactions@,
    {
        let (transactions, _) = self.collect_transactions();
        let hash_merkle_root = merkle_tree_root(&transactions);
        assemble_block(msg, hash_merkle_root, transactions)
    }

    /// What the block that answers a request is worth to its author: the reward of its epoch, which
    /// `block_reward` gives, and the fees of the waiting transactions.
    pub fn block_value<R>(&self, msg: &BuildBlock, block_reward: R) -> (value: u64) where
        R: Fn(Epoch) -> u64,

        requires
            call_requires(block_reward, (msg.beacon.checkpoint,)),
            forall|reward: u64| #[trigger]
                call_ensures(block_reward, (msg.beacon.checkpoint,), reward) ==> reward
                    + self@.transaction_fees() <= u64::MAX,
        ensures
            exists|reward: u64| #[trigger]
                call_ensures(block_reward, (msg.beacon.checkpoint,), reward) && value == reward
                    + self@.transaction_fees(),
            exists|reward: u64| #[trigger]
                call_ensures(block_reward, (msg.beacon.checkpoint,), reward) && value == reward
                    + self.transactions_pool.transactions@.len(),
    {
        let (_, transaction_fees) = self.collect_transactions();
        let epoch: Epoch = msg.beacon.checkpoint;
        let reward: u64 = block_reward(epoch);
        reward + transaction_fees
    }

    /// The request that puts the blockchain information into the storage under a key, or none where
    /// there is no such information yet.
    pub fn persist_chain_info(&self, key: &[u8]) -> (request: Option<Put>)
        ensures
            match request {
                Some(put) => self@.chain_info == Some(put.value@) && put.key@ == key@,
                None => self@.chain_info is None,
            },
            request is Some <==> self.chain_info is Some,
            request matches Some(put) ==> self.chain_info matches Some(info) && put.value@
                == info.encoded@ && put.key@ == key@,
    {
        match &self.chain_info {
            Some(chain_info) => Some(
                Put { key: slice_to_vec(key), value: slice_to_vec(chain_info.encoded.as_slice()) },
            ),
            None => None,
        }
    }

    /// The request that puts an item into the inventory.
    pub fn persist_item(&self, item: InventoryItem) -> (request: AddItem)
        ensures
            request == (AddItem { item }),
    {
        AddItem { item }
    }

    /// The request that has every session announce a block.
    pub fn broadcast_block(&mut self, hash: hash::Hash) -> (request: Broadcast<AnnounceItems>)
        ensures
            request.command.items@ == seq![InventoryEntry::Block(hash)],
            *final(self) == *old(self),
    {
        let items = vec![InventoryEntry::Block(hash)];
        Broadcast { command: AnnounceItems { items } }
    }
}

/// Why an item is not in the inventory.
#[derive(Clone, Copy, Debug, PartialEq, Eq)]
pub enum PersistItemError {
    /// The inventory could not be reached.
    Communication,
    /// The inventory could not keep the item.
    Inventory,
}

/// Whether the blockchain information is in the storage, after the storage answered. The manager
/// carries on in either case.
pub fn chain_info_persisted(answer: Answer) -> (persisted: bool)
    ensures
        persisted == (answer is Done),
{
    match answer {
        Answer::Done => true,
        Answer::Refused | Answer::Undelivered => false,
    }
}

/// Whether an item is in the inventory, after the inventory answered.
pub fn item_persisted(answer: Answer) -> (result: Result<(), PersistItemError>)
    ensures
        result == (match answer {
            Answer::Done => Ok(()),
            Answer::Refused => Err(PersistItemError::Inventory),
            Answer::Undelivered => Err(PersistItemError::Communication),
        }),
{
    match answer {
        Answer::Undelivered => Err(PersistItemError::Communication),
        Answer::Refused => Err(PersistItemError::Inventory),
        Answer::Done => Ok(()),
    }
}

/// The block that answers a request to build one.
pub open spec fn assembled(
    msg: BuildBlock,
    hash_merkle_root: hash::Hash,
    txns: Seq<Transaction>,
) -> BlockView {
    BlockView {
        block_header: BlockHeader { version: 0, beacon: msg.beacon, hash_merkle_root },
        proof: msg.leadership_proof,
        txns,
    }
}

/// Puts a block together out of its parts.
pub fn assemble_block(
    msg: &BuildBlock,
    hash_merkle_root: hash::Hash,
    transactions: Vec<Transaction>,
) -> (block: Block)
    ensures
        block@ == assembled(*msg, hash_merkle_root, transactions@),
        block.txns == transactions,
        block.block_header.version == 0,
        block.block_header.beacon == msg.beacon,
        block.block_header.hash_merkle_root == hash_merkle_root,
        block.proof == msg.leadership_proof,
{
    let beacon = msg.beacon;
    let block_header = BlockHeader { version: 0, beacon, hash_merkle_root };
    let proof_of_leadership = msg.leadership_proof;
    Block { block_header, proof: proof_of_leadership, txns: transactions }
}

} // verus!
