//! What a wallet keeps in memory.
use std::collections::HashMap;
use std::fmt::Debug;
use std::sync::Arc;
use vstd::prelude::*;

use crate::chain::CheckpointBeacon;
use crate::hash;

verus! {

/// The types of the values that a wallet's state carries and does not look into.
pub trait WalletTypes {
    /// An address of the wallet.
    type Address: Debug;

    /// A balance, as a snapshot holds it.
    type BalanceInfo: Clone + Debug;

    /// A movement of the balance.
    type BalanceMovement: Debug;

    /// The beacon of an indexed block.
    type Beacon: Clone + Debug;

    /// The constants that relate epochs to time.
    type EpochConstants: Debug;

    /// An extended secret key.
    type ExtendedSK: Debug;

    /// The hash of a public key.
    type PublicKeyHash: Debug;

    /// The unspent transaction outputs of the wallet.
    type UtxoSet: Clone + Debug;

    /// The balance of the wallet.
    type WalletBalance: Debug;
}

/// Wallet state snapshot after indexing a block.
#[derive(Debug)]
#[verifier::reject_recursive_types(W)]
pub struct StateSnapshot<W: WalletTypes> {
    /// Current wallet balance (including pending movements).
    pub balance: W::BalanceInfo,
    /// Block beacon.
    pub beacon: W::Beacon,
    /// Next transaction identifier of the wallet.
    pub transaction_next_id: u32,
    /// Current UTXO set (including pending movements).
    pub utxo_set: W::UtxoSet,
}

impl<W: WalletTypes> Clone for StateSnapshot<W> {
    fn clone(&self) -> (copy: Self)
        ensures
            cloned(self.balance, copy.balance),
            cloned(self.beacon, copy.beacon),
            copy.transaction_next_id == self.transaction_next_id,
            cloned(self.utxo_set, copy.utxo_set),
    {
        StateSnapshot {
            balance: self.balance.clone(),
            beacon: self.beacon.clone(),
            transaction_next_id: self.transaction_next_id,
            utxo_set: self.utxo_set.clone(),
        }
    }
}

/// A single wallet state. It includes:
///  - fields required to operate wallet accounts (e.g. derive addresses)
///  - on-memory state after indexing pending block transactions
#[derive(Debug)]
#[verifier::reject_recursive_types(W)]
pub struct State<W: WalletTypes> {
    /// Current account index.
    pub account: u32,
    /// Available account indices.
    pub available_accounts: Vec<u32>,
    /// Current wallet balance (including pending movements).
    pub balance: W::WalletBalance,
    /// Wallet caption.
    pub caption: Option<String>,
    /// List of already existing DB balance movements that need to be updated upon superblock
    /// confirmation.
    pub db_movements_to_update: HashMap<String, Vec<W::BalanceMovement>>,
    /// Epoch constants.
    pub epoch_constants: W::EpochConstants,
    /// Keychains used to derive addresses.
    pub keychains: [W::ExtendedSK; 2],
    /// Beacon of last block confirmed by superblock (or during sync process).
    pub last_confirmed: CheckpointBeacon,
    /// Beacon of the last block received during synchronization.
    pub last_sync: CheckpointBeacon,
    /// List of local pending balance movements derived from transaction submissions by wallet
    /// clients (they have not yet been indexed in blocks).
    pub local_movements: HashMap<hash::Hash, W::BalanceMovement>,
    /// Wallet name.
    pub name: Option<String>,
    /// Next external index used to derive addresses.
    pub next_external_index: u32,
    /// Next internal index used to derive addresses.
    pub next_internal_index: u32,
    /// List of pending address infos indexed by block hash, waiting to be confirmed with a
    /// superblock.
    ///  This is a hashmap from pending_block_hash to Vec<addresses>.
    pub pending_addresses_by_block: HashMap<String, Vec<Arc<W::Address>>>,
    /// List of pending address infos indexed by key path, waiting to be confirmed with a
    /// superblock.
    pub pending_addresses_by_path: HashMap<String, Arc<W::Address>>,
    /// List of pending blocks with state snapshots waiting to be confirmed.
    ///  This is a hashmap from pending_block_hash to StateSnapshot.
    pub pending_blocks: HashMap<String, StateSnapshot<W>>,
    /// List of pending dr movements, waiting to be confirmed with a superblock.
    /// This is a hashmap from dr_pointer to (pending_block_hash, index).
    pub pending_dr_movements: HashMap<String, (hash::Hash, usize)>,
    /// List of pending balance movements, waiting to be confirmed with a superblock.
    ///  This is a hashmap from pending_block_hash to (Vec<BalanceMovement).
    pub pending_movements: HashMap<String, Vec<W::BalanceMovement>>,
    /// Next transaction identifier of the wallet.
    pub transaction_next_id: u32,
    /// Current UTXO set (including pending movements).
    pub utxo_set: W::UtxoSet,
    /// Transient internal addresses.
    pub transient_internal_addresses: HashMap<W::PublicKeyHash, W::Address>,
    /// Transient external addresses.
    pub transient_external_addresses: HashMap<W::PublicKeyHash, W::Address>,
}

} // verus!
