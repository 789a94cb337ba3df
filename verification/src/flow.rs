//! Handler outcomes, queue errors, and the rule that ends a `process`
//! transaction.

use vstd::prelude::*;
use crate::Status;

verus! {

/// Verdict a handler returns about one claimed item.
#[derive(Debug, PartialEq, Eq)]
pub enum ProcessFlow {
    /// The item was handled; mark it `Done` and commit.
    Success,
    /// The handler deliberately declined to finish the item now; the
    /// claim is rolled back so the row stays `Ready`, and `process`
    /// still reports overall success.
    Requeue,
    /// The item can never be handled; mark it `Failed`, record the
    /// message on the row, and commit.
    Fail(String),
}

/// Errors surfaced by the queue operations.
#[derive(Debug, PartialEq, Eq)]
pub enum QueueError {
    /// No `Ready` row was available at claim time. A normal empty-result
    /// signal, not an exceptional condition.
    EmptyQueue,
    /// The handler failed for a local, transient reason; the claim was
    /// rolled back and the row is `Ready` again.
    Handler,
    /// The payload could not be encoded at enqueue time.
    Serialization(String),
    /// A store-level transaction or query failure, surfaced verbatim.
    Store(String),
}

impl QueueError {
    /// A short description of the error, for logs and messages; for the
    /// store-boundary errors it is the detail they were built with.
    pub fn message(&self) -> (m: &str)
        ensures
            self is EmptyQueue ==> m@ == "no ready item in the queue"@,
            self is Handler ==> m@ == "the handler failed to process the item"@,
            *self matches QueueError::Serialization(d) ==> m@ == d@,
            *self matches QueueError::Store(d) ==> m@ == d@,
    {
        match self {
            QueueError::EmptyQueue => "no ready item in the queue",
            QueueError::Handler => "the handler failed to process the item",
            QueueError::Serialization(d) => d.as_str(),
            QueueError::Store(d) => d.as_str(),
        }
    }
}

/// How a `process` transaction must end after the handler returned:
/// either durably settle the claimed row, or abandon the claim.
#[derive(Debug, PartialEq, Eq)]
pub enum Resolution {
    /// Update the claimed row to the given status (with the error text
    /// for `Failed`) and commit the transaction.
    Settle(Status, Option<String>),
    /// Roll the transaction back; the uncommitted claim vanishes and the
    /// row is `Ready` again.
    Abandon,
}

/// The transaction-ending action for each handler outcome: `Success` and
/// `Fail` settle the row under a terminal status, `Requeue` and a
/// handler-local error abandon the claim.
pub open spec fn spec_resolution(outcome: Result<ProcessFlow, ()>) -> Resolution {
    match outcome {
        Ok(ProcessFlow::Success) => Resolution::Settle(Status::Done, None),
        Ok(ProcessFlow::Fail(m)) => Resolution::Settle(Status::Failed, Some(m)),
        Ok(ProcessFlow::Requeue) => Resolution::Abandon,
        Err(_) => Resolution::Abandon,
    }
}

/// Decides how a `process` transaction ends, from the handler's outcome
/// alone. A transaction driver performs the returned action against the
/// store, then reports `Ok` for any handler outcome and the handler's
/// own failure otherwise.
pub fn resolution_of(outcome: Result<ProcessFlow, ()>) -> (r: Resolution)
    ensures
        r == spec_resolution(outcome),
{
    match outcome {
        Ok(ProcessFlow::Success) => Resolution::Settle(Status::Done, None),
        Ok(ProcessFlow::Fail(m)) => Resolution::Settle(Status::Failed, Some(m)),
        Ok(ProcessFlow::Requeue) => Resolution::Abandon,
        Err(()) => Resolution::Abandon,
    }
}

} // verus!
