use witnet_chain::chain::{
    Block, BlockHeader, CheckpointBeacon, InventoryEntry, LeadershipProof, Secp256k1Signature,
    Signature, Transaction,
};
use witnet_chain::chain_manager::ChainManager;
use witnet_chain::error::ChainManagerError;
use witnet_chain::hash;

fn build_hardcoded_block(checkpoint: u32, influence: u64) -> Block {
    let signed_beacon_hash = [4; 32];
    // Currently, every hash is valid
    // Fake signature which will be accepted anyway
    let signature = Signature::Secp256k1(Secp256k1Signature {
        r: signed_beacon_hash,
        s: signed_beacon_hash,
        v: 0,
    });
    let proof = LeadershipProof {
        block_sig: Some(signature),
        influence,
    };

    Block {
        block_header: BlockHeader {
            version: 1,
            beacon: CheckpointBeacon {
                checkpoint,
                hash_prev_block: hash::Hash::SHA256([111; 32]),
            },
            hash_merkle_root: hash::Hash::SHA256([222; 32]),
        },
        proof,
        txns: vec![Transaction],
    }
}

// Tells apart the blocks that these tests build, which differ in their epoch and influence.
fn block_hash(block: &Block) -> hash::Hash {
    let mut digest = [0u8; 32];
    digest[..4].copy_from_slice(&block.block_header.beacon.checkpoint.to_le_bytes());
    digest[24..].copy_from_slice(&block.proof.influence.to_le_bytes());
    hash::Hash::SHA256(digest)
}

#[test]
fn add_block() {
    let mut bm = ChainManager::default();

    // Build hardcoded block
    let checkpoint = 2;
    let block_a = build_hardcoded_block(checkpoint, 99999);

    // Add block to ChainManager
    let hash_a = bm.process_new_block(block_a.clone(), block_hash).unwrap();

    // Check the block is added into the blocks map
    assert_eq!(bm.blocks.len(), 1);
    assert_eq!(bm.blocks.get(&hash_a).unwrap(), &block_a);

    // Check the block is added into the epoch-to-hash map
    assert_eq!(bm.epoch_to_block_hash.get(&checkpoint).unwrap().len(), 1);
    assert_eq!(
        bm.epoch_to_block_hash
            .get(&checkpoint)
            .unwrap()
            .to_vec()
            .iter()
            .next()
            .unwrap(),
        &hash_a
    );
}

#[test]
fn add_same_block_twice() {
    let mut bm = ChainManager::default();

    // Build hardcoded block
    let block = build_hardcoded_block(2, 99999);

    // Only the first block will be inserted
    assert!(bm.process_new_block(block.clone(), block_hash).is_ok());
    assert!(bm.process_new_block(block, block_hash).is_err());
    assert_eq!(bm.blocks.len(), 1);
}

#[test]
fn add_blocks_same_epoch() {
    let mut bm = ChainManager::default();

    // Build hardcoded blocks
    let checkpoint = 2;
    let block_a = build_hardcoded_block(checkpoint, 99999);
    let block_b = build_hardcoded_block(checkpoint, 12345);

    // Add blocks to the ChainManager
    let hash_a = bm.process_new_block(block_a, block_hash).unwrap();
    let hash_b = bm.process_new_block(block_b, block_hash).unwrap();
    assert_ne!(hash_a, hash_b);

    // Check that both blocks are stored in the same epoch
    assert_eq!(bm.epoch_to_block_hash.get(&checkpoint).unwrap().len(), 2);
    assert!(bm
        .epoch_to_block_hash
        .get(&checkpoint)
        .unwrap()
        .contains(&hash_a));
    assert!(bm
        .epoch_to_block_hash
        .get(&checkpoint)
        .unwrap()
        .contains(&hash_b));
}

#[test]
fn get_existing_block() {
    // Create empty ChainManager
    let mut bm = ChainManager::default();

    // Create a hardcoded block
    let block_a = build_hardcoded_block(2, 99999);

    // Add the block to the ChainManager
    let hash_a = bm.process_new_block(block_a.clone(), block_hash).unwrap();

    // Try to get the block from the ChainManager
    let stored_block = bm.try_to_get_block(hash_a).unwrap();

    assert_eq!(stored_block, block_a);
}

#[test]
fn get_non_existent_block() {
    // Create empty ChainManager
    let mut bm = ChainManager::default();

    // Try to get a block with an invented hash
    let result = bm.try_to_get_block(hash::Hash::SHA256([1; 32]));

    // Check that an error was obtained
    assert!(result.is_err());
}

#[test]
fn discard_all() {
    // Create empty ChainManager
    let mut bm = ChainManager::default();

    // Build blocks
    let block_a = build_hardcoded_block(2, 99999);
    let block_b = build_hardcoded_block(1, 10000);
    let block_c = build_hardcoded_block(3, 72138);

    // Add blocks to the ChainManager
    let hash_a = bm.process_new_block(block_a.clone(), block_hash).unwrap();
    let hash_b = bm.process_new_block(block_b.clone(), block_hash).unwrap();
    let hash_c = bm.process_new_block(block_c.clone(), block_hash).unwrap();

    // Build vector of inventory entries from hashes
    let mut inv_entries = Vec::new();
    inv_entries.push(InventoryEntry::Block(hash_a));
    inv_entries.push(InventoryEntry::Block(hash_b));
    inv_entries.push(InventoryEntry::Block(hash_c));

    // Filter inventory entries
    let missing_inv_entries = bm.discard_existing_inventory_entries(inv_entries).unwrap();

    // Check there is no missing inventory entry
    assert!(missing_inv_entries.is_empty());
}

#[test]
fn discard_some() {
    // Create empty ChainManager
    let mut bm = ChainManager::default();

    // Build blocks
    let block_a = build_hardcoded_block(2, 99999);
    let block_b = build_hardcoded_block(1, 10000);
    let block_c = build_hardcoded_block(3, 72138);

    // Add blocks to the ChainManager
    let hash_a = bm.process_new_block(block_a.clone(), block_hash).unwrap();
    let hash_b = bm.process_new_block(block_b.clone(), block_hash).unwrap();
    let hash_c = bm.process_new_block(block_c.clone(), block_hash).unwrap();

    // Missing inventory vector
    let missing_inv_entries = InventoryEntry::Block(hash::Hash::SHA256([1; 32]));

    // Build vector of inventory vectors from hashes
    let mut inv_entries = Vec::new();
    inv_entries.push(InventoryEntry::Block(hash_a));
    inv_entries.push(InventoryEntry::Block(hash_b));
    inv_entries.push(InventoryEntry::Block(hash_c));
    inv_entries.push(missing_inv_entries.clone());

    // Filter inventory vectors
    let expected_missing_inv_entries = bm.discard_existing_inventory_entries(inv_entries).unwrap();

    // Check the expected missing inventory vectors
    assert_eq!(vec![missing_inv_entries], expected_missing_inv_entries);
}

#[test]
fn discard_none() {
    // Create empty ChainManager
    let mut bm = ChainManager::default();

    // Build blocks
    let block_a = build_hardcoded_block(2, 99999);
    let block_b = build_hardcoded_block(1, 10000);
    let block_c = build_hardcoded_block(3, 72138);

    // Add blocks to the ChainManager
    bm.process_new_block(block_a.clone(), block_hash).unwrap();
    bm.process_new_block(block_b.clone(), block_hash).unwrap();
    bm.process_new_block(block_c.clone(), block_hash).unwrap();

    // Missing inventory vector
    let missing_inv_entries_1 = InventoryEntry::Block(hash::Hash::SHA256([1; 32]));
    let missing_inv_entries_2 = InventoryEntry::Block(hash::Hash::SHA256([2; 32]));
    let missing_inv_entries_3 = InventoryEntry::Block(hash::Hash::SHA256([3; 32]));

    // Build vector of missing inventory vectors from hashes
    let mut inv_entries = Vec::new();
    inv_entries.push(missing_inv_entries_1);
    inv_entries.push(missing_inv_entries_2);
    inv_entries.push(missing_inv_entries_3);

    // Filter inventory vectors
    let missing_inv_entries = bm
        .discard_existing_inventory_entries(inv_entries.clone())
        .unwrap();

    // Check there is no missing inventory vector
    assert_eq!(missing_inv_entries, inv_entries);
}

#[test]
fn a_fresh_manager_knows_nothing() {
    let bm = ChainManager::default();

    assert!(bm.chain_info.is_none());
    assert!(bm.epoch_to_block_hash.is_empty());
    assert_eq!(bm.blocks.len(), 0);
    assert!(bm.current_epoch.is_none());
    assert!(bm.transactions_pool.transactions.is_empty());
    assert!(bm.block_candidate.is_none());
}

#[test]
fn errors_say_what_went_wrong() {
    let mut bm = ChainManager::default();
    let block = build_hardcoded_block(2, 99999);
    let hash = bm.process_new_block(block.clone(), block_hash).unwrap();

    let refused = bm.process_new_block(block, block_hash);
    assert!(matches!(refused, Err(ChainManagerError::BlockAlreadyExists)));

    let absent = bm.try_to_get_block(hash::Hash::SHA256([9; 32]));
    assert!(matches!(absent, Err(ChainManagerError::BlockDoesNotExist)));

    assert!(bm.try_to_get_block(hash).is_ok());
}

#[test]
fn the_first_block_with_a_hash_stays() {
    let mut bm = ChainManager::default();
    let hash = hash::Hash::SHA256([7; 32]);
    let first = build_hardcoded_block(2, 1);
    let second = build_hardcoded_block(5, 2);

    assert_eq!(bm.add_block(hash, first.clone()).unwrap(), hash);
    let refused = bm.add_block(hash, second);

    assert!(matches!(refused, Err(ChainManagerError::BlockAlreadyExists)));
    assert_eq!(bm.try_to_get_block(hash).unwrap(), first);
    assert_eq!(bm.epoch_to_block_hash.get(&2).unwrap().to_vec(), vec![hash]);
    assert!(bm.epoch_to_block_hash.get(&5).is_none());
}

#[test]
fn other_blocks_are_untouched() {
    let mut bm = ChainManager::default();
    let block_a = build_hardcoded_block(2, 1);
    let block_b = build_hardcoded_block(3, 2);
    let hash_a = bm.process_new_block(block_a.clone(), block_hash).unwrap();
    let hash_b = bm.process_new_block(block_b.clone(), block_hash).unwrap();

    assert_eq!(bm.blocks.len(), 2);
    assert_eq!(bm.try_to_get_block(hash_a).unwrap(), block_a);
    assert_eq!(bm.try_to_get_block(hash_b).unwrap(), block_b);
    assert_eq!(bm.epoch_to_block_hash.len(), 2);
    assert_eq!(bm.epoch_to_block_hash.get(&2).unwrap().to_vec(), vec![hash_a]);
    assert_eq!(bm.epoch_to_block_hash.get(&3).unwrap().to_vec(), vec![hash_b]);
}

#[test]
fn order_of_blocks_does_not_matter() {
    let block_a = build_hardcoded_block(2, 1);
    let block_b = build_hardcoded_block(2, 2);
    let mut one = ChainManager::default();
    let mut other = ChainManager::default();

    let hash_a = one.process_new_block(block_a.clone(), block_hash).unwrap();
    let hash_b = one.process_new_block(block_b.clone(), block_hash).unwrap();
    other.process_new_block(block_b.clone(), block_hash).unwrap();
    other.process_new_block(block_a.clone(), block_hash).unwrap();

    assert_eq!(one.blocks.len(), other.blocks.len());
    assert_eq!(one.try_to_get_block(hash_a).unwrap(), block_a);
    assert_eq!(other.try_to_get_block(hash_a).unwrap(), block_a);
    assert_eq!(one.try_to_get_block(hash_b).unwrap(), block_b);
    assert_eq!(other.try_to_get_block(hash_b).unwrap(), block_b);
    assert_eq!(
        one.epoch_to_block_hash.get(&2).unwrap().to_vec(),
        other.epoch_to_block_hash.get(&2).unwrap().to_vec()
    );
}

#[test]
fn entries_of_every_kind_are_discarded_by_hash() {
    let mut bm = ChainManager::default();
    let known = bm
        .process_new_block(build_hardcoded_block(2, 99999), block_hash)
        .unwrap();
    let unknown = hash::Hash::SHA256([1; 32]);

    let missing = bm
        .discard_existing_inventory_entries(vec![
            InventoryEntry::Error(unknown),
            InventoryEntry::Error(known),
            InventoryEntry::Tx(known),
            InventoryEntry::Tx(unknown),
            InventoryEntry::Block(known),
            InventoryEntry::Block(unknown),
            InventoryEntry::DataRequest(unknown),
            InventoryEntry::DataRequest(known),
            InventoryEntry::DataResult(known),
            InventoryEntry::DataResult(unknown),
        ])
        .unwrap();

    let expected = vec![
        InventoryEntry::Error(unknown),
        InventoryEntry::Tx(unknown),
        InventoryEntry::Block(unknown),
        InventoryEntry::DataRequest(unknown),
        InventoryEntry::DataResult(unknown),
    ];
    assert_eq!(missing, expected);

    // A second pass finds nothing more to discard
    let again = bm.discard_existing_inventory_entries(missing).unwrap();
    assert_eq!(again, expected);
}

#[test]
fn discarding_goes_list_by_list() {
    let mut bm = ChainManager::default();
    let known = bm
        .process_new_block(build_hardcoded_block(2, 99999), block_hash)
        .unwrap();
    let first = vec![
        InventoryEntry::Block(hash::Hash::SHA256([1; 32])),
        InventoryEntry::Block(known),
    ];
    let second = vec![
        InventoryEntry::Block(known),
        InventoryEntry::Tx(hash::Hash::SHA256([2; 32])),
    ];

    let mut both = first.clone();
    both.extend(second.clone());
    let together = bm.discard_existing_inventory_entries(both).unwrap();
    let mut apart = bm.discard_existing_inventory_entries(first).unwrap();
    apart.extend(bm.discard_existing_inventory_entries(second).unwrap());

    assert_eq!(together, apart);
    assert_eq!(together.len(), 2);
}

#[test]
fn an_empty_list_stays_empty() {
    let mut bm = ChainManager::default();
    assert!(bm.discard_existing_inventory_entries(vec![]).unwrap().is_empty());
}

#[test]
fn an_announced_block_is_asked_for_once() {
    let mut sender = ChainManager::default();
    let mut receiver = ChainManager::default();
    let block = build_hardcoded_block(2, 99999);
    let hash = sender.process_new_block(block.clone(), block_hash).unwrap();

    let announced = sender.broadcast_block(hash).command.items;
    assert_eq!(announced, vec![InventoryEntry::Block(hash)]);

    let asked_for = receiver
        .discard_existing_inventory_entries(announced.clone())
        .unwrap();
    assert_eq!(asked_for, announced);

    receiver.process_new_block(block, block_hash).unwrap();
    let asked_for = receiver.discard_existing_inventory_entries(announced).unwrap();
    assert!(asked_for.is_empty());
}
