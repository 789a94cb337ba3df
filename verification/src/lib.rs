//! A FIFO work queue over a transactional row store.
//!
//! The queue keeps one row per enqueued unit of work. `enqueue` appends a
//! row in `Ready` state and hands back its id; `process` claims the oldest
//! `Ready` row, runs a caller-supplied handler on its payload, and settles
//! the row according to what the handler decided. `Done` and `Failed` are
//! terminal; an abandoned claim reverts the row to `Ready`.

use vstd::prelude::*;

mod flow;
mod laws;
mod payload;
mod queue;

pub use flow::{ProcessFlow, QueueError, Resolution};
pub use flow::{resolution_of, spec_resolution};
pub use queue::{Queue, QueueItem};
pub use queue::{
    first_ready, has_id, has_ready, index_of_id, is_first_ready, lemma_first_ready_agrees,
    lemma_has_ready_first, lemma_index_of_id_agrees, process_result, rows_after_claim,
    rows_after_enqueue, rows_after_process, rows_after_settle, rows_wf, settle_outcome,
};
pub use laws::{
    lemma_abandon_keeps_row_ready, lemma_concurrent_claims_distinct, lemma_enqueue_id_fresh,
    lemma_fail_records_error, lemma_process_fifo_ascending, lemma_process_touches_one_row,
    lemma_terminal_row_untouched,
};

verus! {

/// Processing state of one queue row.
#[derive(Clone, Copy, PartialEq, Eq, Structural, Debug)]
pub enum Status {
    /// Eligible for claiming; the initial state, and the state a row
    /// reverts to when a claim is abandoned.
    Ready,
    /// Claimed by an in-flight `process` transaction.
    InProgress,
    /// Handled successfully; terminal.
    Done,
    /// Handled with a permanent failure; terminal.
    Failed,
}

/// The small-integer encoding of a status in the backing table's
/// `status` column.
pub open spec fn status_code(s: Status) -> u8 {
    match s {
        Status::Ready => 0,
        Status::InProgress => 1,
        Status::Done => 2,
        Status::Failed => 3,
    }
}

/// Encodes a status as the integer stored in the `status` column.
pub fn status_to_code(s: Status) -> (c: u8)
    ensures
        c == status_code(s),
{
    match s {
        Status::Ready => 0,
        Status::InProgress => 1,
        Status::Done => 2,
        Status::Failed => 3,
    }
}

/// Decodes a `status` column value; codes outside the encoding yield `None`.
pub fn status_from_code(c: u8) -> (s: Option<Status>)
    ensures
        match s {
            Some(st) => status_code(st) == c,
            None => forall|st: Status| status_code(st) != c,
        },
{
    match c {
        0 => Some(Status::Ready),
        1 => Some(Status::InProgress),
        2 => Some(Status::Done),
        3 => Some(Status::Failed),
        _ => None,
    }
}

} // verus!
