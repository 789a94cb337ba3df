//! The queue table and its operations.
//!
//! `Queue` is the library's model of the backing table: one row per
//! enqueued unit of work, ordered by strictly increasing ids. `enqueue`
//! appends a `Ready` row; `claim` marks the oldest `Ready` row
//! `InProgress` (the uncommitted update a `process` transaction makes
//! after its skip-locked selection); `settle` ends a claim, either
//! durably (`Done`/`Failed`, a commit) or by reverting the row to
//! `Ready` (a rollback); `process` composes the three around a handler.

use vstd::prelude::*;
use serde_json::Value;
use crate::Status;
use crate::flow::{ProcessFlow, QueueError};
use crate::payload::clone_value;

verus! {

/// One row of the queue table.
pub struct QueueItem {
    /// Store-assigned, strictly increasing; defines FIFO order.
    pub id: u64,
    /// Drives eligibility for claiming.
    pub status: Status,
    /// Opaque structured value, set at enqueue time, never mutated.
    pub payload: Value,
    /// Failure message; present exactly when the row is `Failed`.
    pub error: Option<String>,
}

/// The queue table, plus the store's id counter.
pub struct Queue {
    rows: Vec<QueueItem>,
    next_id: u64,
}

/// There is a `Ready` row.
pub open spec fn has_ready(rows: Seq<QueueItem>) -> bool {
    exists|i: int| 0 <= i < rows.len() && (#[trigger] rows[i].status) is Ready
}

/// `i` is the position of the oldest `Ready` row.
pub open spec fn is_first_ready(rows: Seq<QueueItem>, i: int) -> bool {
    &&& 0 <= i < rows.len()
    &&& rows[i].status is Ready
    &&& forall|j: int| 0 <= j < i ==> !((#[trigger] rows[j].status) is Ready)
}

/// The position of the oldest `Ready` row; meaningful when
/// `has_ready(rows)` holds.
pub open spec fn first_ready(rows: Seq<QueueItem>) -> int {
    choose|i: int| is_first_ready(rows, i)
}

/// There is a row with this id.
pub open spec fn has_id(rows: Seq<QueueItem>, id: u64) -> bool {
    exists|i: int| 0 <= i < rows.len() && (#[trigger] rows[i].id) == id
}

/// The position of the row with this id; meaningful when
/// `has_id(rows, id)` holds.
pub open spec fn index_of_id(rows: Seq<QueueItem>, id: u64) -> int {
    choose|i: int| 0 <= i < rows.len() && (#[trigger] rows[i].id) == id
}

/// Well-formedness of the table: ids strictly increase with position
/// (so they are unique and FIFO order is position order), every id was
/// assigned below the counter, and a row carries an error message
/// exactly when it is `Failed`.
pub open spec fn rows_wf(rows: Seq<QueueItem>, next_id: u64) -> bool {
    &&& forall|i: int, j: int|
        0 <= i < j < rows.len() ==> #[trigger] rows[i].id < #[trigger] rows[j].id
    &&& forall|i: int| 0 <= i < rows.len() ==> (#[trigger] rows[i].id) < next_id
    &&& 1 <= next_id
    &&& forall|i: int|
        0 <= i < rows.len() ==> ((#[trigger] rows[i].status) is Failed <==> rows[i].error is Some)
}

/// The table after an `enqueue`: a fresh `Ready` row, carrying the next
/// id and the given payload, appended at the end.
pub open spec fn rows_after_enqueue(rows: Seq<QueueItem>, next_id: u64, payload: Value) -> Seq<
    QueueItem,
> {
    rows.push(
        (QueueItem { id: next_id, status: Status::Ready, payload: payload, error: None }),
    )
}

/// The table after a claim: the oldest `Ready` row marked `InProgress`,
/// everything else untouched; without a `Ready` row, unchanged.
pub open spec fn rows_after_claim(rows: Seq<QueueItem>) -> Seq<QueueItem> {
    if has_ready(rows) {
        rows.update(
            first_ready(rows),
            (QueueItem {
                id: rows[first_ready(rows)].id,
                status: Status::InProgress,
                payload: rows[first_ready(rows)].payload,
                error: rows[first_ready(rows)].error,
            }),
        )
    } else {
        rows
    }
}

/// The table after the claim at position `i` ends under what the handler
/// returned: `Success` and `Fail` settle the row durably, while
/// `Requeue` puts it back to `Ready`, as a rollback does.
pub open spec fn rows_after_settle(rows: Seq<QueueItem>, i: int, flow: ProcessFlow) -> Seq<
    QueueItem,
> {
    match flow {
        ProcessFlow::Success => rows.update(
            i,
            (QueueItem { id: rows[i].id, status: Status::Done, payload: rows[i].payload, error: None }),
        ),
        ProcessFlow::Fail(m) => rows.update(
            i,
            (QueueItem {
                id: rows[i].id,
                status: Status::Failed,
                payload: rows[i].payload,
                error: Some(m),
            }),
        ),
        ProcessFlow::Requeue => rows.update(
            i,
            (QueueItem { id: rows[i].id, status: Status::Ready, payload: rows[i].payload, error: None }),
        ),
    }
}

/// The table after one whole `process` call whose handler returned
/// `outcome`: the oldest `Ready` row ends `Done` on `Success`, `Failed`
/// with the message on `Fail`, and stays as it was on `Requeue` or a
/// handler-local error (the transaction rolled back); without a `Ready`
/// row the table is unchanged.
pub open spec fn rows_after_process(rows: Seq<QueueItem>, outcome: Result<ProcessFlow, ()>) -> Seq<
    QueueItem,
> {
    if has_ready(rows) {
        match outcome {
            Ok(ProcessFlow::Success) => rows_after_settle(rows, first_ready(rows), ProcessFlow::Success),
            Ok(ProcessFlow::Fail(m)) => rows_after_settle(rows, first_ready(rows), ProcessFlow::Fail(m)),
            Ok(ProcessFlow::Requeue) => rows,
            Err(_) => rows,
        }
    } else {
        rows
    }
}

/// The outcome under which a claim is settled: the handler's own on
/// success, and `Requeue` (a rollback) when the handler itself failed.
pub open spec fn settle_outcome(outcome: Result<ProcessFlow, ()>) -> ProcessFlow {
    match outcome {
        Ok(flow) => flow,
        Err(_) => ProcessFlow::Requeue,
    }
}

/// The caller-visible result of one whole `process` call on a queue
/// that had a `Ready` row: `Ok` for every handler outcome, the
/// handler's own failure propagated otherwise.
pub open spec fn process_result(outcome: Result<ProcessFlow, ()>) -> Result<(), QueueError> {
    match outcome {
        Ok(_) => Ok(()),
        Err(_) => Err(QueueError::Handler),
    }
}

impl View for Queue {
    type V = Seq<QueueItem>;

    closed spec fn view(&self) -> Seq<QueueItem> {
        self.rows@
    }
}

impl Queue {
    /// The id the store will assign to the next enqueued row.
    pub closed spec fn spec_next_id(self) -> u64 {
        self.next_id
    }

    /// Well-formedness of the queue; established by `new` and preserved
    /// by every operation.
    pub open spec fn wf(self) -> bool {
        rows_wf(self@, self.spec_next_id())
    }

    /// An empty queue whose store will assign ids from 1 up.
    pub fn new() -> (q: Queue)
        ensures
            q.wf(),
            q@ == Seq::<QueueItem>::empty(),
            q.spec_next_id() == 1,
    {
        Queue { rows: Vec::new(), next_id: 1 }
    }

    /// Enqueues a new item: appends a row holding the payload, in
    /// `Ready` state, under a fresh id greater than every id already in
    /// the table, and returns that id.
    pub fn enqueue(&mut self, payload: Value) -> (id: u64)
        requires
            old(self).wf(),
            old(self).spec_next_id() < u64::MAX,
        ensures
            final(self).wf(),
            id == old(self).spec_next_id(),
            final(self).spec_next_id() == id + 1,
            final(self)@ == rows_after_enqueue(old(self)@, id, payload),
    {
        let id = self.next_id;
        self.rows.push(QueueItem { id, status: Status::Ready, payload, error: None });
        self.next_id = id + 1;
        id
    }

    /// Claims the oldest `Ready` row: marks it `InProgress` and returns
    /// its id and a copy of its payload. Models the skip-locked
    /// selection plus the uncommitted status update of a `process`
    /// transaction: rows other claimants hold are already `InProgress`
    /// and are skipped, never blocked on. Without a `Ready` row, fails
    /// with `EmptyQueue` at once and changes nothing.
    pub fn claim(&mut self) -> (r: Result<(u64, Value), QueueError>)
        requires
            old(self).wf(),
        ensures
            final(self).wf(),
            final(self).spec_next_id() == old(self).spec_next_id(),
            final(self)@ == rows_after_claim(old(self)@),
            match r {
                Ok(c) => {
                    &&& has_ready(old(self)@)
                    &&& c.0 == old(self)@[first_ready(old(self)@)].id
                    &&& c.1 == old(self)@[first_ready(old(self)@)].payload
                },
                Err(e) => e == QueueError::EmptyQueue && !has_ready(old(self)@),
            },
    {
        match find_first_ready(&self.rows) {
            None => Err(QueueError::EmptyQueue),
            Some(k) => {
                proof {
                    lemma_first_ready_agrees(self.rows@, k as int);
                }
                let row = self.rows.remove(k);
                let id = row.id;
                let payload_copy = clone_value(&row.payload);
                let updated = QueueItem {
                    id: row.id,
                    status: Status::InProgress,
                    payload: row.payload,
                    error: row.error,
                };
                proof {
                    lemma_remove_insert_is_update(old(self)@, k as int, updated);
                    lemma_update_preserves_wf(
                        old(self)@,
                        old(self).spec_next_id(),
                        k as int,
                        updated,
                    );
                }
                self.rows.insert(k, updated);
                Ok((id, payload_copy))
            },
        }
    }

    /// Settles the claim on the row with the given id: `Success` and
    /// `Fail` commit the row into its terminal status (`Fail` recording
    /// the message), `Requeue` rolls the claim back, reverting the row
    /// to `Ready`.
    pub fn settle(&mut self, id: u64, flow: ProcessFlow)
        requires
            old(self).wf(),
            has_id(old(self)@, id),
            old(self)@[index_of_id(old(self)@, id)].status is InProgress,
        ensures
            final(self).wf(),
            final(self).spec_next_id() == old(self).spec_next_id(),
            final(self)@ == rows_after_settle(old(self)@, index_of_id(old(self)@, id), flow),
    {
        match find_index_of(&self.rows, id) {
            None => {
                proof {
                    let w = choose|i: int|
                        0 <= i < old(self)@.len() && (#[trigger] old(self)@[i].id) == id;
                    assert(old(self)@[w].id == id);
                    assert(false);
                }
            },
            Some(k) => {
                proof {
                    lemma_index_of_id_agrees(old(self)@, old(self).spec_next_id(), k as int);
                }
                let row = self.rows.remove(k);
                let updated = match flow {
                    ProcessFlow::Success => QueueItem {
                        id: row.id,
                        status: Status::Done,
                        payload: row.payload,
                        error: None,
                    },
                    ProcessFlow::Fail(m) => QueueItem {
                        id: row.id,
                        status: Status::Failed,
                        payload: row.payload,
                        error: Some(m),
                    },
                    ProcessFlow::Requeue => QueueItem {
                        id: row.id,
                        status: Status::Ready,
                        payload: row.payload,
                        error: None,
                    },
                };
                proof {
                    lemma_remove_insert_is_update(old(self)@, k as int, updated);
                    lemma_update_preserves_wf(
                        old(self)@,
                        old(self).spec_next_id(),
                        k as int,
                        updated,
                    );
                }
                self.rows.insert(k, updated);
            },
        }
    }

    /// The number of rows in the table. Rows are never deleted, so this
    /// only grows.
    pub fn len(&self) -> (n: usize)
        ensures
            n == self@.len(),
    {
        self.rows.len()
    }

    /// The status of the row with the given id, or `None` for an id no
    /// row carries.
    pub fn status_of(&self, id: u64) -> (s: Option<Status>)
        requires
            self.wf(),
        ensures
            match s {
                Some(st) => has_id(self@, id) && st == self@[index_of_id(self@, id)].status,
                None => !has_id(self@, id),
            },
    {
        match find_index_of(&self.rows, id) {
            None => None,
            Some(k) => {
                proof {
                    lemma_index_of_id_agrees(self@, self.spec_next_id(), k as int);
                }
                Some(self.rows[k].status)
            },
        }
    }

    /// The recorded failure message of the row with the given id:
    /// present exactly when that row is `Failed`.
    pub fn error_of(&self, id: u64) -> (e: Option<&String>)
        requires
            self.wf(),
        ensures
            match e {
                Some(m) => has_id(self@, id) && self@[index_of_id(self@, id)].error == Some(*m),
                None => !has_id(self@, id) || self@[index_of_id(self@, id)].error is None,
            },
    {
        match find_index_of(&self.rows, id) {
            None => None,
            Some(k) => {
                proof {
                    lemma_index_of_id_agrees(self@, self.spec_next_id(), k as int);
                }
                match &self.rows[k].error {
                    Some(m) => Some(m),
                    None => None,
                }
            },
        }
    }

    /// A copy of the payload of the row with the given id, exactly as
    /// it was enqueued; `None` for an id no row carries.
    pub fn payload_of(&self, id: u64) -> (p: Option<Value>)
        requires
            self.wf(),
        ensures
            match p {
                Some(v) => has_id(self@, id) && v == self@[index_of_id(self@, id)].payload,
                None => !has_id(self@, id),
            },
    {
        match find_index_of(&self.rows, id) {
            None => None,
            Some(k) => {
                proof {
                    lemma_index_of_id_agrees(self@, self.spec_next_id(), k as int);
                }
                Some(clone_value(&self.rows[k].payload))
            },
        }
    }

    /// Processes the next item: claims the oldest `Ready` row, runs the
    /// handler on its payload, and ends the transaction on the
    /// handler's outcome. `Success` commits the row `Done`; `Fail`
    /// commits it `Failed` with the message recorded; `Requeue` rolls
    /// back, leaving the row `Ready`, yet still returns `Ok`; a
    /// handler-local error also rolls back but is propagated to the
    /// caller. Exactly one row changes durably per `Ok` on a non-empty
    /// queue, none otherwise. Without a `Ready` row, fails with
    /// `EmptyQueue` at once and changes nothing.
    pub fn process<F: FnOnce(Value) -> Result<ProcessFlow, ()>>(&mut self, f: F) -> (r: Result<
        (),
        QueueError,
    >)
        requires
            old(self).wf(),
            has_ready(old(self)@) ==> call_requires(
                f,
                (old(self)@[first_ready(old(self)@)].payload,),
            ),
        ensures
            final(self).wf(),
            final(self).spec_next_id() == old(self).spec_next_id(),
            !has_ready(old(self)@) ==> r == Err::<(), QueueError>(QueueError::EmptyQueue)
                && final(self)@ == old(self)@,
            has_ready(old(self)@) ==> exists|outcome: Result<ProcessFlow, ()>|
                {
                    &&& #[trigger] call_ensures(
                        f,
                        (old(self)@[first_ready(old(self)@)].payload,),
                        outcome,
                    )
                    &&& final(self)@ == rows_after_process(old(self)@, outcome)
                    &&& r == process_result(outcome)
                },
    {
        match self.claim() {
            Err(e) => Err(e),
            Ok((id, payload)) => {
                let outcome = f(payload);
                let ghost o = outcome;
                proof {
                    lemma_claim_then_settle(old(self)@, old(self).spec_next_id(), o);
                }
                match outcome {
                    Ok(flow) => {
                        self.settle(id, flow);
                        Ok(())
                    },
                    Err(()) => {
                        self.settle(id, ProcessFlow::Requeue);
                        Err(QueueError::Handler)
                    },
                }
            },
        }
    }
}

/// Claiming the oldest `Ready` row and then settling that claim under
/// the handler's outcome amounts to the one-transaction `process`
/// transition on the original table.
proof fn lemma_claim_then_settle(rows: Seq<QueueItem>, next_id: u64, outcome: Result<ProcessFlow, ()>)
    requires
        rows_wf(rows, next_id),
        has_ready(rows),
    ensures
        ({
            let i = first_ready(rows);
            let mid = rows_after_claim(rows);
            &&& is_first_ready(rows, i)
            &&& rows_wf(mid, next_id)
            &&& mid.len() == rows.len()
            &&& mid[i].id == rows[i].id
            &&& mid[i].status is InProgress
            &&& has_id(mid, rows[i].id)
            &&& index_of_id(mid, rows[i].id) == i
            &&& rows_after_settle(mid, i, settle_outcome(outcome)) == rows_after_process(
                rows,
                outcome,
            )
        }),
{
    let i = first_ready(rows);
    lemma_has_ready_first(rows);
    let mid = rows_after_claim(rows);
    let ip = (QueueItem {
        id: rows[i].id,
        status: Status::InProgress,
        payload: rows[i].payload,
        error: rows[i].error,
    });
    lemma_update_preserves_wf(rows, next_id, i, ip);
    lemma_index_of_id_agrees(mid, next_id, i);
    assert(rows[i].error is None);
    match settle_outcome(outcome) {
        ProcessFlow::Success => {
            assert(rows_after_settle(mid, i, ProcessFlow::Success) =~= rows_after_settle(
                rows,
                i,
                ProcessFlow::Success,
            ));
        },
        ProcessFlow::Fail(m) => {
            assert(rows_after_settle(mid, i, ProcessFlow::Fail(m)) =~= rows_after_settle(
                rows,
                i,
                ProcessFlow::Fail(m),
            ));
        },
        ProcessFlow::Requeue => {
            assert(rows[i] == (QueueItem {
                id: rows[i].id,
                status: Status::Ready,
                payload: rows[i].payload,
                error: None,
            }));
            assert(rows_after_settle(mid, i, ProcessFlow::Requeue) =~= rows);
        },
    }
}

/// A table with a `Ready` row has an oldest one, and `first_ready`
/// denotes it.
pub proof fn lemma_has_ready_first(rows: Seq<QueueItem>)
    requires
        has_ready(rows),
    ensures
        is_first_ready(rows, first_ready(rows)),
{
    let r = choose|k: int| 0 <= k < rows.len() && (#[trigger] rows[k].status) is Ready;
    lemma_some_first_ready(rows, r);
}

/// Below any `Ready` position there is a first one.
proof fn lemma_some_first_ready(rows: Seq<QueueItem>, r: int)
    requires
        0 <= r < rows.len(),
        rows[r].status is Ready,
    ensures
        exists|k: int| is_first_ready(rows, k),
    decreases r,
{
    if forall|j: int| 0 <= j < r ==> !((#[trigger] rows[j].status) is Ready) {
        assert(is_first_ready(rows, r));
    } else {
        let j = choose|j: int| 0 <= j < r && (#[trigger] rows[j].status) is Ready;
        lemma_some_first_ready(rows, j);
    }
}

/// A position satisfying `is_first_ready` is the one `first_ready`
/// denotes, and witnesses `has_ready`.
pub proof fn lemma_first_ready_agrees(rows: Seq<QueueItem>, k: int)
    requires
        is_first_ready(rows, k),
    ensures
        has_ready(rows),
        first_ready(rows) == k,
{
    assert(has_ready(rows)) by {
        assert(0 <= k < rows.len() && rows[k].status is Ready);
    }
    let c = choose|i: int| is_first_ready(rows, i);
    assert(is_first_ready(rows, c)) by {
        assert(is_first_ready(rows, k));
    }
    if c < k {
        assert(!(rows[c].status is Ready));
    }
    if k < c {
        assert(!(rows[k].status is Ready));
    }
}

/// Ids are unique in a table whose ids strictly increase with position,
/// so the position holding a given id is the one `index_of_id` denotes.
pub proof fn lemma_index_of_id_agrees(rows: Seq<QueueItem>, next_id: u64, k: int)
    requires
        rows_wf(rows, next_id),
        0 <= k < rows.len(),
    ensures
        has_id(rows, rows[k].id),
        index_of_id(rows, rows[k].id) == k,
{
    let id = rows[k].id;
    assert(has_id(rows, id)) by {
        assert(0 <= k < rows.len() && rows[k].id == id);
    }
    let c = choose|i: int| 0 <= i < rows.len() && (#[trigger] rows[i].id) == id;
    if c < k {
        assert(rows[c].id < rows[k].id);
    }
    if k < c {
        assert(rows[k].id < rows[c].id);
    }
}

/// Removing a row and putting another back at the same position is a
/// point update of the table.
proof fn lemma_remove_insert_is_update(rows: Seq<QueueItem>, i: int, v: QueueItem)
    requires
        0 <= i < rows.len(),
    ensures
        rows.remove(i).insert(i, v) == rows.update(i, v),
{
    assert(rows.remove(i).insert(i, v) =~= rows.update(i, v));
}

/// A point update that keeps a row's id and keeps the error-status tie
/// preserves well-formedness.
proof fn lemma_update_preserves_wf(rows: Seq<QueueItem>, next_id: u64, i: int, v: QueueItem)
    requires
        rows_wf(rows, next_id),
        0 <= i < rows.len(),
        v.id == rows[i].id,
        v.status is Failed <==> v.error is Some,
    ensures
        rows_wf(rows.update(i, v), next_id),
{
}

/// Finds the position of the oldest `Ready` row, scanning in id order.
fn find_first_ready(rows: &Vec<QueueItem>) -> (r: Option<usize>)
    ensures
        match r {
            Some(k) => is_first_ready(rows@, k as int),
            None => !has_ready(rows@),
        },
{
    let n = rows.len();
    let mut k: usize = 0;
    while k < n
        invariant
            n == rows@.len(),
            k <= n,
            forall|j: int| 0 <= j < k ==> !((#[trigger] rows@[j].status) is Ready),
        decreases n - k,
    {
        if rows[k].status == Status::Ready {
            return Some(k);
        }
        k = k + 1;
    }
    None
}

/// Finds the position of the row with the given id, if any.
fn find_index_of(rows: &Vec<QueueItem>, id: u64) -> (r: Option<usize>)
    ensures
        match r {
            Some(k) => 0 <= k < rows@.len() && rows@[k as int].id == id,
            None => !has_id(rows@, id),
        },
{
    let n = rows.len();
    let mut k: usize = 0;
    while k < n
        invariant
            n == rows@.len(),
            k <= n,
            forall|j: int| 0 <= j < k ==> (#[trigger] rows@[j].id) != id,
        decreases n - k,
    {
        if rows[k].id == id {
            return Some(k);
        }
        k = k + 1;
    }
    None
}

} // verus!
