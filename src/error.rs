//! The errors of the claim-and-lifecycle engine.
use vstd::prelude::*;
use crate::store::StoreError;

verus! {

#[derive(Debug)]
pub enum Error {
    /// The spawned task body could not be awaited: it panicked or was
    /// cancelled.
    JoinError(tokio::task::JoinError),
    /// The store failed.
    StoreError(StoreError),
    /// A claimed record was not in the state its phase requires.
    TaskStateError,
}

} // verus!
