//! Errors of the chain manager.
use vstd::prelude::*;

verus! {

/// A failure of the storage.
#[derive(Debug)]
pub struct StorageError {
    /// What went wrong.
    pub reason: String,
}

/// Possible errors when interacting with the chain manager.
#[derive(Debug)]
pub enum ChainManagerError {
    /// A block being processed was already known to this node.
    BlockAlreadyExists,
    /// A block does not exist.
    BlockDoesNotExist,
    /// The storage failed.
    StorageError(StorageError),
}

impl From<StorageError> for ChainManagerError {
    fn from(x: StorageError) -> (error: Self)
        ensures
            error == ChainManagerError::StorageError(x),
    {
        ChainManagerError::StorageError(x)
    }
}

impl vstd::std_specs::convert::FromSpecImpl<StorageError> for ChainManagerError {
    open spec fn obeys_from_spec() -> bool {
        true
    }

    open spec fn from_spec(x: StorageError) -> ChainManagerError {
        ChainManagerError::StorageError(x)
    }
}

} // verus!
