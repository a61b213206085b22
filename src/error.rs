use vstd::prelude::*;

verus! {

/// The kinds of failure that a store operation reports to its caller.
#[derive(Debug, Clone, Copy, PartialEq, Eq, Structural)]
pub enum StoreError {
    /// The resource does not exist, or exists but belongs to another principal.
    NotFound,
    /// A uniqueness constraint would be violated.
    Conflict,
    /// The payload is missing a required field or holds a value outside a closed set.
    ValidationFailure,
    /// A failure that is safe to retry (connection, timeout, aborted transaction).
    TransientStorageFailure,
    /// Any other storage failure; surfaced as an internal error.
    StorageFault,
}

} // verus!
