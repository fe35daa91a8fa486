use witnet_chain::chain::{
    Block, ChainInfo, CheckpointBeacon, InventoryItem, LeadershipProof, Transaction,
};
use witnet_chain::chain_manager::{
    assemble_block, chain_info_persisted, item_persisted, ChainManager, PersistItemError,
};
use witnet_chain::error::{ChainManagerError, StorageError};
use witnet_chain::hash;
use witnet_chain::messages::{AddItem, Answer, BuildBlock, Put};

fn request(checkpoint: u32) -> BuildBlock {
    BuildBlock {
        beacon: CheckpointBeacon {
            checkpoint,
            hash_prev_block: hash::Hash::SHA256([111; 32]),
        },
        leadership_proof: LeadershipProof {
            block_sig: None,
            influence: 42,
        },
    }
}

// Stands in for a Merkle root: the number of the transactions, in every byte.
fn count_root(txns: &Vec<Transaction>) -> hash::Hash {
    hash::Hash::SHA256([txns.len() as u8; 32])
}

fn manager_with_transactions(n: usize) -> ChainManager {
    let mut bm = ChainManager::default();
    for _ in 0..n {
        bm.transactions_pool.transactions.push(Transaction);
    }
    bm
}

#[test]
fn a_block_takes_the_whole_pool() {
    let bm = manager_with_transactions(3);
    let block = bm.build_block(&request(7), count_root);

    assert_eq!(block.block_header.version, 0);
    assert_eq!(block.block_header.beacon, request(7).beacon);
    assert_eq!(block.block_header.hash_merkle_root, hash::Hash::SHA256([3; 32]));
    assert_eq!(block.proof, request(7).leadership_proof);
    assert_eq!(block.txns, vec![Transaction, Transaction, Transaction]);

    // The pool keeps its transactions
    assert_eq!(bm.transactions_pool.transactions.len(), 3);
}

#[test]
fn a_block_may_be_empty() {
    let bm = ChainManager::default();
    let block = bm.build_block(&request(0), count_root);

    assert_eq!(block.block_header.hash_merkle_root, hash::Hash::SHA256([0; 32]));
    assert!(block.txns.is_empty());
}

#[test]
fn a_built_block_can_be_taken_in() {
    let mut bm = manager_with_transactions(1);
    let block = bm.build_block(&request(7), count_root);
    let hash = bm
        .process_new_block(block.clone(), |b: &Block| b.block_header.hash_merkle_root)
        .unwrap();

    assert_eq!(hash, hash::Hash::SHA256([1; 32]));
    assert_eq!(bm.try_to_get_block(hash).unwrap(), block);
    assert_eq!(bm.epoch_to_block_hash.get(&7).unwrap().to_vec(), vec![hash]);
}

#[test]
fn a_block_is_put_together_from_its_parts() {
    let block = assemble_block(&request(9), hash::Hash::SHA256([5; 32]), vec![Transaction]);

    assert_eq!(block.block_header.version, 0);
    assert_eq!(block.block_header.beacon.checkpoint, 9);
    assert_eq!(block.block_header.hash_merkle_root, hash::Hash::SHA256([5; 32]));
    assert_eq!(block.proof.influence, 42);
    assert_eq!(block.txns, vec![Transaction]);
}

#[test]
fn each_transaction_pays_one_unit() {
    let (transactions, fees) = manager_with_transactions(4).collect_transactions();
    assert_eq!(transactions.len(), 4);
    assert_eq!(fees, 4);
}

#[test]
fn a_block_is_worth_its_reward_and_fees() {
    let bm = manager_with_transactions(4);
    assert_eq!(bm.block_value(&request(7), |epoch: u32| epoch as u64 * 100), 704);
    assert_eq!(bm.block_value(&request(7), |_: u32| u64::MAX - 4), u64::MAX);
}

#[test]
fn chain_info_is_put_under_its_key() {
    let mut bm = ChainManager::default();
    assert_eq!(bm.persist_chain_info(b"chain"), None);

    bm.chain_info = Some(ChainInfo {
        encoded: vec![1, 2, 3],
    });
    assert_eq!(
        bm.persist_chain_info(b"chain"),
        Some(Put {
            key: b"chain".to_vec(),
            value: vec![1, 2, 3],
        })
    );
}

#[test]
fn an_item_is_added_as_it_is() {
    let bm = manager_with_transactions(2);
    let block = bm.build_block(&request(7), count_root);
    let add = bm.persist_item(InventoryItem::Block(block.clone()));
    assert_eq!(
        add,
        AddItem {
            item: InventoryItem::Block(block),
        }
    );
}

#[test]
fn only_a_done_request_persists_chain_info() {
    assert!(chain_info_persisted(Answer::Done));
    assert!(!chain_info_persisted(Answer::Refused));
    assert!(!chain_info_persisted(Answer::Undelivered));
}

#[test]
fn a_failed_item_says_why() {
    assert_eq!(item_persisted(Answer::Done), Ok(()));
    assert_eq!(
        item_persisted(Answer::Refused),
        Err(PersistItemError::Inventory)
    );
    assert_eq!(
        item_persisted(Answer::Undelivered),
        Err(PersistItemError::Communication)
    );
}

#[test]
fn a_storage_failure_becomes_an_error_of_the_manager() {
    let error = ChainManagerError::from(StorageError {
        reason: "disk full".to_string(),
    });
    match error {
        ChainManagerError::StorageError(inner) => assert_eq!(inner.reason, "disk full"),
        _ => panic!("another error"),
    }
}
