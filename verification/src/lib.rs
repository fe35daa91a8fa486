//! Chain management for a Witnet node.
//!
//! The chain manager keeps the blocks that a node knows, by their hash and by their epoch. It takes
//! in new blocks, hands known ones out, sorts out which announced items are still missing, and
//! builds blocks out of the waiting transactions. What it wants from other parts of the node, such
//! as the storage, it returns as a request; sending the request is left to the caller.
//!
//! How a block is hashed, how the Merkle root of its transactions is computed and what an epoch is
//! worth is decided elsewhere: the operations that need such a function take it as an argument, and
//! hold for every function that they are given.
pub mod chain;
pub mod chain_manager;
pub mod error;
pub mod hash;
pub mod hash_index;
pub mod laws;
pub mod messages;
pub mod wallet_state;
