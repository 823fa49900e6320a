//! What the library takes from the async runtime and the clock.
use vstd::prelude::*;

verus! {

#[verifier::external_type_specification]
#[verifier::external_body]
#[verifier::reject_recursive_types(T)]
pub struct ExJoinHandle<T>(tokio::task::JoinHandle<T>);

#[verifier::external_type_specification]
#[verifier::external_body]
pub struct ExJoinError(tokio::task::JoinError);

/// Relies on tokio's `JoinHandle::abort`: asks the runtime to cancel the
/// spawned task; nothing is promised of when or whether it stops.
pub assume_specification<T>[ tokio::task::JoinHandle::<T>::abort ](handle: &tokio::task::JoinHandle<T>);

/// Relies on tokio's `JoinHandle::is_finished`: a poll that does not block.
pub assume_specification<T>[ tokio::task::JoinHandle::<T>::is_finished ](
    handle: &tokio::task::JoinHandle<T>,
) -> bool;

/// Relies on chrono's `Utc::now` and `DateTime::timestamp`: the current UTC
/// time in whole seconds since the Unix epoch. Nothing is promised of it.
#[verifier::external_body]
pub(crate) fn now_timestamp() -> i64 {
    chrono::Utc::now().timestamp()
}

} // verus!
