//! What the chain manager and its neighbours tell each other.
use vstd::prelude::*;

use crate::chain::{CheckpointBeacon, InventoryEntry, InventoryItem, LeadershipProof};
use crate::error::ChainManagerError;

verus! {

/// Asks the chain manager to build a block.
#[derive(Debug)]
pub struct BuildBlock {
    /// The point of the chain at which the block is to stand.
    pub beacon: CheckpointBeacon,
    /// The proof that this node may propose the block.
    pub leadership_proof: LeadershipProof,
}

/// Asks the storage to keep a value under a key.
#[derive(Debug, PartialEq, Eq)]
pub struct Put {
    /// The key.
    pub key: Vec<u8>,
    /// The value, in its encoded form.
    pub value: Vec<u8>,
}

/// Asks the inventory to keep an item.
#[derive(Debug, PartialEq, Eq)]
pub struct AddItem {
    /// The item.
    pub item: InventoryItem,
}

/// Asks a session to announce items to its peer.
#[derive(Debug, PartialEq, Eq)]
pub struct AnnounceItems {
    /// The announcements, in order.
    pub items: Vec<InventoryEntry>,
}

/// Asks for a command to be given to every session that both sides have agreed on.
#[derive(Debug, PartialEq, Eq)]
pub struct Broadcast<T> {
    /// The command.
    pub command: T,
}

/// The announcements that are left when those of known items are taken out.
pub type InventoryEntriesResult = Result<Vec<InventoryEntry>, ChainManagerError>;

/// How a neighbour answered a request.
#[derive(Clone, Copy, Debug, PartialEq, Eq)]
pub enum Answer {
    /// It did what was asked.
    Done,
    /// It could not do what was asked.
    Refused,
    /// The request did not reach it, or its answer did not come back.
    Undelivered,
}

} // verus!
