use vstd::prelude::*;

verus! {

/// Why a storage operation was refused.
///
/// `NotFound` and `NoActiveWorkspace` are ordinary negative results; callers
/// treat them as "absent", never as a crash. `InvalidInput` rejects a request
/// whose resolved name is unusable. `StorageIo` marks a failure of the
/// underlying durable storage and is fatal only for the triggering operation.
#[derive(Clone, Copy, Debug, PartialEq, Eq, Structural)]
pub enum StoreError {
    /// The named workspace, key, asset or blob does not exist.
    NotFound,
    /// The request resolved to an empty or otherwise unusable name.
    InvalidInput,
    /// A key-value or asset operation arrived while no workspace was active.
    NoActiveWorkspace,
    /// The underlying durable storage refused the operation.
    StorageIo,
}

} // verus!
