//! What holds of the chain manager over several operations.
use vstd::prelude::*;

use crate::chain::{
    Block, BlockView, ChainInfo, Epoch, InventoryEntry, Transaction, TransactionsPool,
};
use crate::chain_manager::{ChainManager, ChainManagerView};
use crate::error::{ChainManagerError, StorageError};
use crate::hash;
use crate::messages::BuildBlock;

verus! {

/// A manager that knows nothing has maps that agree.
pub proof fn law_agreement_at_start()
    ensures
        ChainManagerView::initial().wf(),
{
}

/// A block that comes in, new or known, leaves the two maps of the manager in agreement.
pub proof fn law_agreement_is_kept(manager: ChainManagerView, hash: hash::Hash, block: BlockView)
    requires
        manager.wf(),
    ensures
        manager.after_block(hash, block).wf(),
{
    let after = manager.after_block(hash, block);
    assert forall|epoch: Epoch, other: hash::Hash| #[trigger]
        after.hashes_at(epoch).contains(other) <==> after.knows(other)
            && after.blocks[other].epoch() == epoch by {
        assert(manager.hashes_at(epoch).contains(other) <==> manager.knows(other)
            && manager.blocks[other].epoch() == epoch);
    }
    assert forall|epoch: Epoch| #[trigger] after.epochs.contains_key(epoch) implies exists|
        other: hash::Hash,
    | after.epochs[epoch].contains(other) by {
        if !manager.knows(hash) && epoch == block.epoch() {
            assert(after.epochs[epoch].contains(hash));
        } else {
            assert(manager.epochs.contains_key(epoch));
        }
    }
}

/// However many blocks come in, the two maps of the manager stay in agreement.
pub proof fn law_agreement_is_kept_by_all(
    manager: ChainManagerView,
    arrivals: Seq<(hash::Hash, BlockView)>,
)
    requires
        manager.wf(),
    ensures
        manager.after_blocks(arrivals).wf(),
    decreases arrivals.len(),
{
    if arrivals.len() > 0 {
        law_agreement_is_kept_by_all(manager, arrivals.drop_last());
        let (hash, block) = arrivals.last();
        law_agreement_is_kept(manager.after_blocks(arrivals.drop_last()), hash, block);
    }
}

/// A block that was accepted is given back when it is asked for.
pub proof fn law_accepted_block_is_given_back(
    manager: ChainManagerView,
    hash: hash::Hash,
    block: BlockView,
)
    requires
        manager.answer_to_block(hash) is Ok,
    ensures
        manager.after_block(hash, block).block_with(hash) == Some(block),
{
}

/// Once a block has come in, every block with the same hash is refused and changes nothing.
pub proof fn law_repeated_block_is_refused(
    manager: ChainManagerView,
    hash: hash::Hash,
    block: BlockView,
    repeated: BlockView,
)
    ensures
        manager.after_block(hash, block).answer_to_block(hash) == Err::<
            hash::Hash,
            ChainManagerError,
        >(ChainManagerError::BlockAlreadyExists),
        manager.after_block(hash, block).after_block(hash, repeated) == manager.after_block(
            hash,
            block,
        ),
{
}

/// A block that comes in replaces no known block, and makes no hash known but its own.
pub proof fn law_other_blocks_are_untouched(
    manager: ChainManagerView,
    hash: hash::Hash,
    block: BlockView,
    other: hash::Hash,
)
    requires
        other != hash || manager.knows(other),
    ensures
        manager.after_block(hash, block).block_with(other) == manager.block_with(other),
{
}

/// A block that comes in changes nothing but the known blocks and the lists of the epochs.
pub proof fn law_rest_is_untouched(manager: ChainManagerView, hash: hash::Hash, block: BlockView)
    ensures
        ({
            let after = manager.after_block(hash, block);
            after == (ChainManagerView { epochs: after.epochs, blocks: after.blocks, ..manager })
        }),
{
}

/// An accepted block is added to the list of its epoch, and to no other list.
pub proof fn law_accepted_block_is_listed(
    manager: ChainManagerView,
    hash: hash::Hash,
    block: BlockView,
    epoch: Epoch,
)
    requires
        manager.answer_to_block(hash) is Ok,
    ensures
        manager.after_block(hash, block).hashes_at(epoch) == (if epoch == block.epoch() {
            manager.hashes_at(epoch).insert(hash)
        } else {
            manager.hashes_at(epoch)
        }),
{
}

/// A hash that is listed for an epoch can be asked for, and gives a block of that epoch.
pub proof fn law_listed_block_can_be_asked_for(
    manager: ChainManagerView,
    hash: hash::Hash,
    epoch: Epoch,
)
    requires
        manager.wf(),
        manager.hashes_at(epoch).contains(hash),
    ensures
        manager.block_with(hash) matches Some(block) && block.epoch() == epoch,
{
}

/// A known block is listed for its epoch.
pub proof fn law_known_block_is_listed(manager: ChainManagerView, hash: hash::Hash)
    requires
        manager.wf(),
    ensures
        manager.block_with(hash) matches Some(block) ==> manager.hashes_at(block.epoch()).contains(
            hash,
        ),
{
    if manager.knows(hash) {
        assert(manager.hashes_at(manager.blocks[hash].epoch()).contains(hash));
    }
}

/// A hash is listed for at most one epoch.
pub proof fn law_hash_has_one_epoch(
    manager: ChainManagerView,
    hash: hash::Hash,
    one: Epoch,
    another: Epoch,
)
    requires
        manager.wf(),
        manager.hashes_at(one).contains(hash),
        manager.hashes_at(another).contains(hash),
    ensures
        one == another,
{
}

/// The list of an epoch is finite, and no longer than the list of all known blocks.
pub proof fn law_epoch_is_part_of_the_chain(manager: ChainManagerView, epoch: Epoch)
    requires
        manager.wf(),
    ensures
        manager.hashes_at(epoch).finite(),
        manager.hashes_at(epoch).len() <= manager.blocks.len(),
{
    assert forall|hash: hash::Hash| manager.hashes_at(epoch).contains(
        hash,
    ) implies manager.blocks.dom().contains(hash) by {
        assert(manager.knows(hash));
    }
    vstd::set_lib::lemma_len_subset(manager.hashes_at(epoch), manager.blocks.dom());
}

/// An accepted block makes the number of known blocks, and that of its epoch, one larger. A refused
/// block leaves them as they are.
pub proof fn law_blocks_are_counted(manager: ChainManagerView, hash: hash::Hash, block: BlockView)
    requires
        manager.wf(),
    ensures
        ({
            let after = manager.after_block(hash, block);
            let more: nat = if manager.answer_to_block(hash) is Ok {
                1
            } else {
                0
            };
            &&& after.blocks.len() == manager.blocks.len() + more
            &&& after.hashes_at(block.epoch()).len() == manager.hashes_at(block.epoch()).len()
                + more
        }),
{
    law_epoch_is_part_of_the_chain(manager, block.epoch());
    assert(manager.hashes_at(block.epoch()).contains(hash) ==> manager.knows(hash));
}

/// Two blocks with different hashes may come in in either order.
pub proof fn law_order_does_not_matter(
    manager: ChainManagerView,
    hash_a: hash::Hash,
    block_a: BlockView,
    hash_b: hash::Hash,
    block_b: BlockView,
)
    requires
        hash_a != hash_b,
    ensures
        manager.after_block(hash_a, block_a).after_block(hash_b, block_b) == manager.after_block(
            hash_b,
            block_b,
        ).after_block(hash_a, block_a),
{
    let ab = manager.after_block(hash_a, block_a).after_block(hash_b, block_b);
    let ba = manager.after_block(hash_b, block_b).after_block(hash_a, block_a);
    assert(ab.blocks =~= ba.blocks);
    assert forall|epoch: Epoch| ab.hashes_at(epoch) == ba.hashes_at(epoch) by {
        assert(ab.hashes_at(epoch) =~= ba.hashes_at(epoch));
    }
    assert forall|epoch: Epoch| ab.epochs.contains_key(epoch) implies ab.epochs[epoch]
        == ba.epochs[epoch] by {
        assert(ab.hashes_at(epoch) == ba.hashes_at(epoch));
    }
    assert(ab.epochs =~= ba.epochs);
}

/// The first block that comes in under a hash stays the block with that hash.
pub proof fn law_first_block_stays(
    manager: ChainManagerView,
    arrivals: Seq<(hash::Hash, BlockView)>,
    first: int,
)
    requires
        0 <= first < arrivals.len(),
        !manager.knows(arrivals[first].0),
        forall|i: int| 0 <= i < first ==> (#[trigger] arrivals[i]).0 != arrivals[first].0,
    ensures
        manager.after_blocks(arrivals).block_with(arrivals[first].0) == Some(arrivals[first].1),
    decreases arrivals.len(),
{
    let rest = arrivals.drop_last();
    if first == arrivals.len() - 1 {
        law_only_arrivals_become_known(manager, rest, arrivals[first].0);
    } else {
        law_first_block_stays(manager, rest, first);
    }
}

/// After a list of blocks came in, a hash is known exactly where it was known before or came in
/// with a block, and a block that was known before is still the one with its hash.
pub proof fn law_only_arrivals_become_known(
    manager: ChainManagerView,
    arrivals: Seq<(hash::Hash, BlockView)>,
    hash: hash::Hash,
)
    ensures
        manager.after_blocks(arrivals).knows(hash) <==> manager.knows(hash) || exists|i: int|
            0 <= i < arrivals.len() && (#[trigger] arrivals[i]).0 == hash,
        manager.knows(hash) ==> manager.after_blocks(arrivals).block_with(hash)
            == manager.block_with(hash),
    decreases arrivals.len(),
{
    if arrivals.len() > 0 {
        let rest = arrivals.drop_last();
        law_only_arrivals_become_known(manager, rest, hash);
        assert(arrivals[arrivals.len() - 1] == arrivals.last());
        assert forall|i: int| 0 <= i < rest.len() implies rest[i] == #[trigger] arrivals[i] by {}
        if exists|i: int| 0 <= i < arrivals.len() && (#[trigger] arrivals[i]).0 == hash {
            let i = choose|i: int| 0 <= i < arrivals.len() && (#[trigger] arrivals[i]).0 == hash;
            if i < rest.len() {
                assert(rest[i].0 == hash);
            }
        }
    }
}

/// Whatever the hash function is: where each known block is known under its own hash, and a block
/// comes in under its own hash, each known block is still known under its own hash.
pub proof fn law_blocks_stay_under_their_hash(
    manager: ChainManagerView,
    hash_of: spec_fn(BlockView) -> hash::Hash,
    block: BlockView,
)
    requires
        manager.keyed_by(hash_of),
    ensures
        manager.after_block(hash_of(block), block).keyed_by(hash_of),
{
    let after = manager.after_block(hash_of(block), block);
    assert forall|hash: hash::Hash| #[trigger] after.knows(hash) implies hash_of(
        after.blocks[hash],
    ) == hash by {
        if manager.knows(hash) {
            assert(after.blocks[hash] == manager.blocks[hash]);
        }
    }
}

/// An announcement is left over exactly where it was in the list and its item is not known.
pub proof fn law_unknown_items_are_left(
    manager: ChainManagerView,
    entries: Seq<InventoryEntry>,
    entry: InventoryEntry,
)
    ensures
        manager.missing(entries).contains(entry) <==> entries.contains(entry) && !manager.knows(
            entry.spec_hash(),
        ),
{
    let unknown = |e: InventoryEntry| !manager.knows(e.spec_hash());
    if manager.missing(entries).contains(entry) {
        entries.lemma_filter_contains_rev(unknown, entry);
        let i = choose|i: int|
            0 <= i < manager.missing(entries).len() && manager.missing(entries)[i] == entry;
        entries.lemma_filter_pred(unknown, i);
    }
    if entries.contains(entry) && !manager.knows(entry.spec_hash()) {
        let i = choose|i: int| 0 <= i < entries.len() && entries[i] == entry;
        entries.lemma_filter_contains(unknown, i);
    }
}

/// Nothing is left of a list of announcements exactly where all its items are known.
pub proof fn law_known_items_leave_nothing(
    manager: ChainManagerView,
    entries: Seq<InventoryEntry>,
)
    ensures
        manager.missing(entries) == Seq::<InventoryEntry>::empty() <==> forall|i: int|
            0 <= i < entries.len() ==> manager.knows((#[trigger] entries[i]).spec_hash()),
{
    let missing = manager.missing(entries);
    assert forall|entry: InventoryEntry| #[trigger] missing.contains(entry) == (entries.contains(
        entry,
    ) && !manager.knows(entry.spec_hash())) by {
        law_unknown_items_are_left(manager, entries, entry);
    }
    if missing.len() == 0 {
        assert(missing =~= Seq::empty());
        assert forall|i: int| 0 <= i < entries.len() implies manager.knows(
            (#[trigger] entries[i]).spec_hash(),
        ) by {
            assert(!missing.contains(entries[i]));
        }
    } else {
        assert(missing.contains(missing[0]));
        let i = choose|i: int| 0 <= i < entries.len() && entries[i] == missing[0];
        assert(!manager.knows(entries[i].spec_hash()));
    }
}

/// All of a list of announcements is left exactly where none of its items is known.
pub proof fn law_unknown_items_leave_the_list(
    manager: ChainManagerView,
    entries: Seq<InventoryEntry>,
)
    ensures
        manager.missing(entries) == entries <==> forall|i: int|
            0 <= i < entries.len() ==> !manager.knows((#[trigger] entries[i]).spec_hash()),
    decreases entries.len(),
{
    reveal(Seq::filter);
    let unknown = |e: InventoryEntry| !manager.knows(e.spec_hash());
    if manager.missing(entries) == entries {
        assert forall|i: int| 0 <= i < entries.len() implies !manager.knows(
            (#[trigger] entries[i]).spec_hash(),
        ) by {
            entries.lemma_filter_pred(unknown, i);
        }
    }
    if entries.len() > 0 && (forall|i: int|
        0 <= i < entries.len() ==> !manager.knows((#[trigger] entries[i]).spec_hash())) {
        let rest = entries.drop_last();
        assert forall|i: int| 0 <= i < rest.len() implies !manager.knows(
            (#[trigger] rest[i]).spec_hash(),
        ) by {
            assert(rest[i] == entries[i]);
        }
        law_unknown_items_leave_the_list(manager, rest);
        assert(entries[entries.len() - 1] == entries.last());
        assert(manager.missing(entries) =~= rest.push(entries.last()));
        assert(rest.push(entries.last()) =~= entries);
    }
}

/// To take the known items out of what is left changes nothing.
pub proof fn law_discarding_twice_is_discarding_once(
    manager: ChainManagerView,
    entries: Seq<InventoryEntry>,
)
    ensures
        manager.missing(manager.missing(entries)) == manager.missing(entries),
{
    let missing = manager.missing(entries);
    assert forall|i: int| 0 <= i < missing.len() implies !manager.knows(
        (#[trigger] missing[i]).spec_hash(),
    ) by {
        entries.lemma_filter_pred(|e: InventoryEntry| !manager.knows(e.spec_hash()), i);
    }
    law_unknown_items_leave_the_list(manager, missing);
}

/// Two lists of announcements may be gone through together or one after the other.
pub proof fn law_discarding_goes_list_by_list(
    manager: ChainManagerView,
    first: Seq<InventoryEntry>,
    second: Seq<InventoryEntry>,
)
    ensures
        manager.missing(first + second) == manager.missing(first) + manager.missing(second),
{
    Seq::filter_distributes_over_add(
        first,
        second,
        |e: InventoryEntry| !manager.knows(e.spec_hash()),
    );
}

/// Only hashes count: announcements of the same hashes in the same order, of whatever kinds, leave
/// the same hashes.
pub proof fn law_kinds_do_not_matter(
    manager: ChainManagerView,
    one: Seq<InventoryEntry>,
    another: Seq<InventoryEntry>,
)
    requires
        one.map_values(|e: InventoryEntry| e.spec_hash()) == another.map_values(
            |e: InventoryEntry| e.spec_hash(),
        ),
    ensures
        manager.missing(one).map_values(|e: InventoryEntry| e.spec_hash()) == manager.missing(
            another,
        ).map_values(|e: InventoryEntry| e.spec_hash()),
    decreases one.len(),
{
    let hash_of = |e: InventoryEntry| e.spec_hash();
    reveal(Seq::filter);
    assert(one.len() == one.map_values(hash_of).len());
    assert(another.len() == another.map_values(hash_of).len());
    if one.len() > 0 {
        assert(one.map_values(hash_of).last() == one.last().spec_hash());
        assert(another.map_values(hash_of).last() == another.last().spec_hash());
        assert(one.drop_last().map_values(hash_of) =~= one.map_values(hash_of).drop_last());
        assert(another.drop_last().map_values(hash_of) =~= another.map_values(hash_of).drop_last());
        law_kinds_do_not_matter(manager, one.drop_last(), another.drop_last());
        assert(manager.missing(one).map_values(hash_of) =~= manager.missing(another).map_values(
            hash_of,
        )) by {
            let a = manager.missing(one.drop_last());
            let b = manager.missing(another.drop_last());
            assert(a.push(one.last()).map_values(hash_of) =~= a.map_values(hash_of).push(
                one.last().spec_hash(),
            ));
            assert(b.push(another.last()).map_values(hash_of) =~= b.map_values(hash_of).push(
                another.last().spec_hash(),
            ));
        }
    } else {
        assert(manager.missing(one).map_values(hash_of) =~= manager.missing(another).map_values(
            hash_of,
        ));
    }
}

/// A block that comes in takes the announcements of its hash out of what is left, and no others.
pub proof fn law_arrived_block_is_no_longer_missing(
    manager: ChainManagerView,
    hash: hash::Hash,
    block: BlockView,
    entries: Seq<InventoryEntry>,
)
    ensures
        manager.after_block(hash, block).missing(entries) == manager.missing(entries).filter(
            |e: InventoryEntry| e.spec_hash() != hash,
        ),
    decreases entries.len(),
{
    reveal(Seq::filter);
    let after = manager.after_block(hash, block);
    let other = |e: InventoryEntry| e.spec_hash() != hash;
    if entries.len() > 0 {
        let rest = entries.drop_last();
        let last = entries.last();
        law_arrived_block_is_no_longer_missing(manager, hash, block, rest);
        let kept = manager.missing(rest);
        assert(kept.push(last).drop_last() =~= kept);
        assert(after.knows(last.spec_hash()) == (manager.knows(last.spec_hash())
            || last.spec_hash() == hash));
    }
}

/// A node that is told of a block asks for it exactly where it does not know the block.
pub proof fn law_announced_block_is_asked_for_once(manager: ChainManagerView, hash: hash::Hash)
    ensures
        manager.missing(seq![InventoryEntry::Block(hash)]) == (if manager.knows(hash) {
            Seq::empty()
        } else {
            seq![InventoryEntry::Block(hash)]
        }),
{
    let announced = seq![InventoryEntry::Block(hash)];
    assert(announced[0].spec_hash() == hash);
    law_known_items_leave_nothing(manager, announced);
    law_unknown_items_leave_the_list(manager, announced);
}

/// The model of a block keeps all of it: two blocks have the same model exactly where they have the
/// same header, the same proof and the same transactions.
pub proof fn law_block_model_keeps_everything(one: Block, another: Block)
    ensures
        one@ == another@ <==> one.block_header == another.block_header && one.proof == another.proof
            && one.txns@ == another.txns@,
        one@.block_header == one.block_header,
        one@.proof == one.proof,
        one@.txns == one.txns@,
        one@.epoch() == one.block_header.beacon.checkpoint,
{
}

/// The model of a manager keeps all of it: what the model holds is what the fields hold.
pub proof fn law_manager_model_keeps_everything(
    manager: ChainManager,
    hash: hash::Hash,
    epoch: Epoch,
)
    ensures
        manager@.blocks.contains_key(hash) <==> manager.blocks@.contains_key(hash),
        manager.blocks@.contains_key(hash) ==> {
            let (model, block) = (manager@.blocks[hash], manager.blocks@[hash]);
            &&& model.block_header == block.block_header
            &&& model.proof == block.proof
            &&& model.txns == block.txns@
        },
        manager@.epochs.contains_key(epoch) <==> manager.epoch_to_block_hash@.contains_key(epoch),
        manager.epoch_to_block_hash@.contains_key(epoch) ==> manager@.epochs[epoch]
            == manager.epoch_to_block_hash@[epoch]@,
        manager@.current_epoch == manager.current_epoch,
        manager@.pool == manager.transactions_pool.transactions@,
        manager@.chain_info is Some <==> manager.chain_info is Some,
        manager.chain_info matches Some(info) ==> manager@.chain_info == Some(info.encoded@),
        manager@.block_candidate is Some <==> manager.block_candidate is Some,
        manager.block_candidate matches Some(block) ==> (manager@.block_candidate matches Some(model)
            && model.block_header == block.block_header && model.proof == block.proof && model.txns
            == block.txns@),
{
}

/// The models of a pool and of chain information are their contents.
pub proof fn law_contents_are_the_model(pool: TransactionsPool, info: ChainInfo)
    ensures
        pool@ == pool.transactions@,
        info@ == info.encoded@,
{
}

/// A manager that knows nothing holds nothing.
pub proof fn law_start_is_empty(hash: hash::Hash, epoch: Epoch)
    ensures
        !ChainManagerView::initial().blocks.contains_key(hash),
        !ChainManagerView::initial().epochs.contains_key(epoch),
        ChainManagerView::initial().pool.len() == 0,
        ChainManagerView::initial().chain_info is None,
        ChainManagerView::initial().current_epoch is None,
        ChainManagerView::initial().block_candidate is None,
{
}

/// The block that answers a request stands at the requested point of the chain, carries the proof of
/// the request with its signature and influence, and holds the given transactions under the given
/// root.
pub proof fn law_built_block_answers_the_request(
    msg: BuildBlock,
    root: hash::Hash,
    txns: Seq<Transaction>,
)
    ensures
        ({
            let block = crate::chain_manager::assembled(msg, root, txns);
            &&& block.block_header.beacon.checkpoint == msg.beacon.checkpoint
            &&& block.block_header.beacon.hash_prev_block == msg.beacon.hash_prev_block
            &&& block.proof.block_sig == msg.leadership_proof.block_sig
            &&& block.proof.influence == msg.leadership_proof.influence
            &&& block.block_header.hash_merkle_root == root
            &&& block.block_header.version == 0
            &&& block.txns == txns
        }),
{
}

/// Two built blocks are the same only where their requests, roots and transactions are the same.
pub proof fn law_built_block_tells_its_request(
    one: BuildBlock,
    another: BuildBlock,
    root_one: hash::Hash,
    root_another: hash::Hash,
    txns_one: Seq<Transaction>,
    txns_another: Seq<Transaction>,
)
    ensures
        crate::chain_manager::assembled(one, root_one, txns_one)
            == crate::chain_manager::assembled(another, root_another, txns_another) <==> {
            &&& one.beacon == another.beacon
            &&& one.leadership_proof == another.leadership_proof
            &&& root_one == root_another
            &&& txns_one == txns_another
        },
{
}

/// A built block that is taken in is listed for the epoch of the request and given back with the
/// proof of the request.
pub proof fn law_built_block_is_taken_in_at_its_epoch(
    manager: ChainManagerView,
    hash: hash::Hash,
    msg: BuildBlock,
    root: hash::Hash,
)
    requires
        !manager.blocks.contains_key(hash),
    ensures
        ({
            let block = crate::chain_manager::assembled(msg, root, manager.pool);
            let after = manager.after_block(hash, block);
            &&& after.epochs.contains_key(msg.beacon.checkpoint)
            &&& after.epochs[msg.beacon.checkpoint].contains(hash)
            &&& after.blocks.contains_key(hash)
            &&& after.blocks[hash].proof == msg.leadership_proof
            &&& after.blocks[hash].block_header.beacon == msg.beacon
            &&& after.blocks[hash].txns == manager.pool
        }),
{
}

/// A block is accepted exactly where its hash is new. The answer then is that very hash, and the
/// block is known under the answer. Otherwise the answer is that the block exists already.
pub proof fn law_answer_is_the_hash_of_the_block(
    manager: ChainManagerView,
    hash: hash::Hash,
    block: BlockView,
)
    ensures
        manager.answer_to_block(hash) is Ok <==> !manager.blocks.contains_key(hash),
        manager.answer_to_block(hash) matches Ok(answered) ==> {
            &&& answered == hash
            &&& manager.after_block(hash, block).blocks.contains_key(answered)
            &&& manager.after_block(hash, block).blocks[answered] == block
            &&& manager.after_block(hash, block).block_with(answered) == Some(block)
        },
        manager.answer_to_block(hash) matches Err(error) ==> error
            == ChainManagerError::BlockAlreadyExists,
{
}

/// Different blocks that are both accepted by one manager get different answers where their hashes
/// differ.
pub proof fn law_answers_tell_blocks_apart(
    manager: ChainManagerView,
    one: hash::Hash,
    another: hash::Hash,
)
    requires
        !manager.blocks.contains_key(one),
        !manager.blocks.contains_key(another),
    ensures
        manager.answer_to_block(one) == manager.answer_to_block(another) <==> one == another,
{
}

/// What comes in with a block, entry by entry: a hash is known after exactly where it was known
/// before or is the hash of the block; known blocks keep their contents; a hash is listed for an
/// epoch after exactly where it was before, or where the block is new and of that epoch.
pub proof fn law_block_comes_in(
    manager: ChainManagerView,
    hash: hash::Hash,
    block: BlockView,
    other: hash::Hash,
    epoch: Epoch,
)
    ensures
        ({
            let after = manager.after_block(hash, block);
            let new = !manager.blocks.contains_key(hash);
            let own_epoch = epoch == block.block_header.beacon.checkpoint;
            &&& after.blocks.contains_key(other) <==> manager.blocks.contains_key(other) || other
                == hash
            &&& manager.blocks.contains_key(other) ==> after.blocks[other] == manager.blocks[other]
            &&& new ==> after.blocks[hash] == block
            &&& after.epochs.contains_key(epoch) <==> manager.epochs.contains_key(epoch) || (new
                && own_epoch)
            &&& after.epochs.contains_key(epoch) ==> (after.epochs[epoch].contains(other) <==> (
            manager.epochs.contains_key(epoch) && manager.epochs[epoch].contains(other)) || (new
                && own_epoch && other == hash))
            &&& after.pool == manager.pool
            &&& after.chain_info == manager.chain_info
            &&& after.current_epoch == manager.current_epoch
            &&& after.block_candidate == manager.block_candidate
        }),
{
}

/// To look a hash or an epoch up is to look into the maps.
pub proof fn law_lookups_read_the_maps(
    manager: ChainManagerView,
    hash: hash::Hash,
    epoch: Epoch,
)
    ensures
        manager.knows(hash) <==> manager.blocks.contains_key(hash),
        manager.block_with(hash) is Some <==> manager.blocks.contains_key(hash),
        manager.block_with(hash) matches Some(block) ==> block == manager.blocks[hash],
        manager.hashes_at(epoch).contains(hash) <==> manager.epochs.contains_key(epoch)
            && manager.epochs[epoch].contains(hash),
{
}

/// What it means that the two maps of a manager agree, entry by entry: a known block is listed for
/// the epoch in its header, a listed hash is that of a known block of the epoch, and no epoch has an
/// empty list.
pub proof fn law_agreement_entry_by_entry(
    manager: ChainManagerView,
    hash: hash::Hash,
    epoch: Epoch,
)
    requires
        manager.wf(),
    ensures
        manager.epochs.contains_key(epoch) && manager.epochs[epoch].contains(hash) <==> (
        manager.blocks.contains_key(hash) && manager.blocks[hash].block_header.beacon.checkpoint
            == epoch),
        manager.epochs.contains_key(epoch) ==> exists|listed: hash::Hash|
            #![trigger manager.epochs[epoch].contains(listed)]
            manager.epochs[epoch].contains(listed),
        manager.blocks.dom().finite(),
{
    assert(manager.hashes_at(epoch).contains(hash) <==> manager.knows(hash)
        && manager.blocks[hash].epoch() == epoch);
}

/// Whatever the hash function is, blocks that are known under their own hashes stay so, entry by
/// entry, when a block comes in under its own hash.
pub proof fn law_every_block_stays_under_its_hash(
    manager: ChainManagerView,
    hash_of: spec_fn(BlockView) -> hash::Hash,
    block: BlockView,
    hash: hash::Hash,
)
    requires
        forall|known: hash::Hash| #[trigger]
            manager.blocks.contains_key(known) ==> hash_of(manager.blocks[known]) == known,
        manager.after_block(hash_of(block), block).blocks.contains_key(hash),
    ensures
        hash_of(manager.after_block(hash_of(block), block).blocks[hash]) == hash,
{
    assert(manager.blocks.contains_key(hash) ==> hash_of(manager.blocks[hash]) == hash);
}

/// That blocks are known under their own hashes says of each of them that its hash is its key.
pub proof fn law_known_under_its_own_hash(
    manager: ChainManagerView,
    hash_of: spec_fn(BlockView) -> hash::Hash,
    hash: hash::Hash,
)
    requires
        manager.keyed_by(hash_of),
        manager.blocks.contains_key(hash),
    ensures
        hash_of(manager.blocks[hash]) == hash,
{
    assert(manager.knows(hash));
}

/// An empty pool pays nothing, and one more transaction pays exactly one unit more.
pub proof fn law_each_transaction_pays_one_unit(
    manager: ChainManagerView,
    more: ChainManagerView,
    transaction: Transaction,
)
    ensures
        manager.pool.len() == 0 ==> manager.transaction_fees() == 0,
        more.pool == manager.pool.push(transaction) ==> more.transaction_fees()
            == manager.transaction_fees() + 1,
        manager.transaction_fees() == manager.pool.len(),
{
}

/// The fees of two pools together are the sum of their fees.
pub proof fn law_fees_add_up(
    one: ChainManagerView,
    another: ChainManagerView,
    both: ChainManagerView,
)
    requires
        both.pool == one.pool + another.pool,
    ensures
        both.transaction_fees() == one.transaction_fees() + another.transaction_fees(),
{
}

/// The hash of an announcement is the one that it carries, whatever its kind.
pub proof fn law_announcement_carries_its_hash(hash: hash::Hash)
    ensures
        InventoryEntry::Error(hash).spec_hash() == hash,
        InventoryEntry::Tx(hash).spec_hash() == hash,
        InventoryEntry::Block(hash).spec_hash() == hash,
        InventoryEntry::DataRequest(hash).spec_hash() == hash,
        InventoryEntry::DataResult(hash).spec_hash() == hash,
{
}

/// An announcement of a known hash is taken out of a list, and one of an unknown hash is left, at
/// whatever place it stands and whatever its kind; the other announcements are not concerned.
pub proof fn law_each_announcement_stands_for_itself(
    manager: ChainManagerView,
    before: Seq<InventoryEntry>,
    entry: InventoryEntry,
    after: Seq<InventoryEntry>,
    hash: hash::Hash,
)
    requires
        entry == InventoryEntry::Error(hash) || entry == InventoryEntry::Tx(hash) || entry
            == InventoryEntry::Block(hash) || entry == InventoryEntry::DataRequest(hash) || entry
            == InventoryEntry::DataResult(hash),
    ensures
        manager.missing(before + seq![entry] + after) == manager.missing(before) + (
        if manager.blocks.contains_key(hash) {
            Seq::empty()
        } else {
            seq![entry]
        }) + manager.missing(after),
        manager.missing(Seq::empty()) == Seq::<InventoryEntry>::empty(),
{
    reveal_with_fuel(Seq::filter, 2);
    let unknown = |e: InventoryEntry| !manager.knows(e.spec_hash());
    Seq::filter_distributes_over_add(before + seq![entry], after, unknown);
    Seq::filter_distributes_over_add(before, seq![entry], unknown);
    assert(seq![entry].drop_last() =~= Seq::empty());
    assert(manager.missing(seq![entry]) =~= if manager.blocks.contains_key(hash) {
        Seq::empty()
    } else {
        seq![entry]
    });
    assert(manager.missing(Seq::empty()) =~= Seq::empty());
}

/// A failure of the storage becomes the error that carries it.
pub proof fn law_storage_failure_is_carried(failure: StorageError)
    ensures
        <ChainManagerError as vstd::std_specs::convert::FromSpec<StorageError>>::from_spec(failure)
            == ChainManagerError::StorageError(failure),
{
}

/// A hash holds its digest, and its key is made of the two halves of the digest.
pub proof fn law_key_is_made_of_the_digest(digest: [u8; 32])
    ensures
        hash::Hash::SHA256(digest).bytes() == digest@,
        vstd::bytes::spec_u128_to_le_bytes(hash::Hash::SHA256(digest).spec_key().0)
            == digest@.subrange(0, 16),
        vstd::bytes::spec_u128_to_le_bytes(hash::Hash::SHA256(digest).spec_key().1)
            == digest@.subrange(16, 32),
{
    vstd::bytes::lemma_auto_spec_u128_to_from_le_bytes();
}

/// Keys are ordered as the numbers whose high part is the first number of the key and whose low part
/// is the second.
pub proof fn law_keys_are_ordered_as_numbers(a: hash::HashKey, b: hash::HashKey)
    ensures
        hash::key_before(a, b) <==> a.0 * 0x1_0000_0000_0000_0000_0000_0000_0000_0000 + a.1 < b.0
            * 0x1_0000_0000_0000_0000_0000_0000_0000_0000 + b.1,
{
}

} // verus!
