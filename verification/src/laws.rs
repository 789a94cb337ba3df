//! Laws relating the queue operations, stated over the same spec-level
//! transitions the operations' contracts use.

use vstd::prelude::*;
use serde_json::Value;
use crate::flow::{ProcessFlow, QueueError};
use crate::queue::{
    first_ready, has_ready, is_first_ready, lemma_has_ready_first, process_result, rows_after_claim,
    rows_after_enqueue, rows_after_process, rows_wf, QueueItem,
};

verus! {

/// Ids are handed out in strictly increasing insertion order: an
/// enqueue appends its row at the end of the table, under an id greater
/// than every id already present, and leaves every older row untouched.
pub proof fn lemma_enqueue_id_fresh(rows: Seq<QueueItem>, next_id: u64, payload: Value)
    requires
        rows_wf(rows, next_id),
        next_id < u64::MAX,
    ensures
        rows_wf(rows_after_enqueue(rows, next_id, payload), (next_id + 1) as u64),
        rows_after_enqueue(rows, next_id, payload).len() == rows.len() + 1,
        rows_after_enqueue(rows, next_id, payload)[rows.len() as int].id == next_id,
        forall|i: int| 0 <= i < rows.len() ==> (#[trigger] rows[i].id) < next_id,
        forall|i: int|
            0 <= i < rows.len() ==> #[trigger] rows_after_enqueue(rows, next_id, payload)[i]
                == rows[i],
{
}

/// Once a claimed row is settled under a non-`Ready` status, the next
/// oldest `Ready` row sits strictly later in the table, so it carries a
/// strictly greater id.
proof fn lemma_first_ready_moves_up(rows: Seq<QueueItem>, next_id: u64, v: QueueItem, r2: int)
    requires
        rows_wf(rows, next_id),
        has_ready(rows),
        !(v.status is Ready),
        first_ready(rows) < r2 < rows.len(),
        rows[r2].status is Ready,
    ensures
        ({
            let rows2 = rows.update(first_ready(rows), v);
            &&& has_ready(rows2)
            &&& first_ready(rows) < first_ready(rows2)
            &&& rows[first_ready(rows)].id < rows2[first_ready(rows2)].id
        }),
{
    let i1 = first_ready(rows);
    lemma_has_ready_first(rows);
    let rows2 = rows.update(i1, v);
    assert(rows2[r2].status is Ready);
    assert(has_ready(rows2));
    lemma_has_ready_first(rows2);
    let i2 = first_ready(rows2);
    if i2 < i1 {
        assert(rows[i2].status is Ready);
    }
    if i2 == i1 {
        assert(rows2[i1] == v);
    }
    assert(rows[i1].id < rows[i2].id);
}

/// FIFO order of service: on a table holding two `Ready` rows, a
/// `process` whose handler returns `Success` settles the oldest `Ready`
/// row `Done`, and the row the next `process` will claim carries a
/// strictly greater id — items are served in ascending id order.
pub proof fn lemma_process_fifo_ascending(rows: Seq<QueueItem>, next_id: u64, r1: int, r2: int)
    requires
        rows_wf(rows, next_id),
        0 <= r1 < r2 < rows.len(),
        rows[r1].status is Ready,
        rows[r2].status is Ready,
    ensures
        ({
            let rows2 = rows_after_process(rows, Ok(ProcessFlow::Success));
            &&& has_ready(rows)
            &&& rows2[first_ready(rows)].status is Done
            &&& has_ready(rows2)
            &&& rows[first_ready(rows)].id < rows2[first_ready(rows2)].id
        }),
{
    assert(has_ready(rows));
    lemma_has_ready_first(rows);
    let i1 = first_ready(rows);
    if r1 < i1 {
        assert(!(rows[r1].status is Ready));
    }
    let v = (QueueItem {
        id: rows[i1].id,
        status: crate::Status::Done,
        payload: rows[i1].payload,
        error: None,
    });
    lemma_first_ready_moves_up(rows, next_id, v, r2);
}

/// Competing consumers take distinct rows: two claims made in turn, as
/// the skip-locked selections of two racing `process` transactions
/// interleave, claim different rows — the second skips the row the
/// first holds (now `InProgress`) and takes the next-oldest `Ready`
/// row, whose id is strictly greater.
pub proof fn lemma_concurrent_claims_distinct(rows: Seq<QueueItem>, next_id: u64, r1: int, r2: int)
    requires
        rows_wf(rows, next_id),
        0 <= r1 < r2 < rows.len(),
        rows[r1].status is Ready,
        rows[r2].status is Ready,
    ensures
        ({
            let mid = rows_after_claim(rows);
            &&& has_ready(rows)
            &&& has_ready(mid)
            &&& first_ready(mid) != first_ready(rows)
            &&& rows[first_ready(rows)].id < mid[first_ready(mid)].id
        }),
{
    assert(has_ready(rows));
    lemma_has_ready_first(rows);
    let i1 = first_ready(rows);
    if r1 < i1 {
        assert(!(rows[r1].status is Ready));
    }
    let v = (QueueItem {
        id: rows[i1].id,
        status: crate::Status::InProgress,
        payload: rows[i1].payload,
        error: rows[i1].error,
    });
    lemma_first_ready_moves_up(rows, next_id, v, r2);
}

/// `Done` and `Failed` are terminal: a claim never touches such a row.
pub proof fn lemma_terminal_row_untouched(rows: Seq<QueueItem>, i: int)
    requires
        0 <= i < rows.len(),
        rows[i].status is Done || rows[i].status is Failed,
    ensures
        rows_after_claim(rows).len() == rows.len(),
        rows_after_claim(rows)[i] == rows[i],
{
    if has_ready(rows) {
        lemma_has_ready_first(rows);
        assert(first_ready(rows) != i);
    }
}

/// A `Fail` outcome settles the claimed row `Failed` with the message
/// recorded on it, and the row is terminal: no subsequent claim takes
/// it again.
pub proof fn lemma_fail_records_error(rows: Seq<QueueItem>, next_id: u64, m: String)
    requires
        rows_wf(rows, next_id),
        has_ready(rows),
    ensures
        ({
            let rows2 = rows_after_process(rows, Ok(ProcessFlow::Fail(m)));
            &&& rows2.len() == rows.len()
            &&& rows2[first_ready(rows)].status is Failed
            &&& rows2[first_ready(rows)].error == Some(m)
            &&& rows_after_claim(rows2)[first_ready(rows)] == rows2[first_ready(rows)]
        }),
{
    lemma_has_ready_first(rows);
    let i1 = first_ready(rows);
    let rows2 = rows_after_process(rows, Ok(ProcessFlow::Fail(m)));
    lemma_terminal_row_untouched(rows2, i1);
}

/// One `process` call durably changes at most the single row it
/// claimed: whatever the handler's outcome, every other row is exactly
/// as it was; on the rolling-back outcomes, and on a queue with no
/// `Ready` row, no row changes at all.
pub proof fn lemma_process_touches_one_row(
    rows: Seq<QueueItem>,
    next_id: u64,
    outcome: Result<ProcessFlow, ()>,
)
    requires
        rows_wf(rows, next_id),
    ensures
        rows_after_process(rows, outcome).len() == rows.len(),
        forall|j: int|
            0 <= j < rows.len() && j != first_ready(rows)
                ==> #[trigger] rows_after_process(rows, outcome)[j] == rows[j],
        outcome matches Ok(ProcessFlow::Requeue) ==> rows_after_process(rows, outcome) == rows,
        outcome is Err ==> rows_after_process(rows, outcome) == rows,
        !has_ready(rows) ==> rows_after_process(rows, outcome) == rows,
{
    if has_ready(rows) {
        lemma_has_ready_first(rows);
    }
}

/// A `Requeue` outcome and a handler-local error both roll the claim
/// back: the table is exactly as it was, so a subsequent `process`
/// claims the very same row; only the caller-visible result differs —
/// `Ok` for the deliberate `Requeue`, the propagated handler failure
/// otherwise.
pub proof fn lemma_abandon_keeps_row_ready(rows: Seq<QueueItem>, next_id: u64)
    requires
        rows_wf(rows, next_id),
        has_ready(rows),
    ensures
        rows_after_process(rows, Ok(ProcessFlow::Requeue)) == rows,
        rows_after_process(rows, Err(())) == rows,
        is_first_ready(rows_after_process(rows, Ok(ProcessFlow::Requeue)), first_ready(rows)),
        process_result(Ok(ProcessFlow::Requeue)) == Ok::<(), QueueError>(()),
        process_result(Err(())) == Err::<(), QueueError>(QueueError::Handler),
{
    lemma_has_ready_first(rows);
}

} // verus!
