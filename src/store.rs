//! An in-memory store of task records with transactions and row locks.
//!
//! Claiming is a compare-and-swap on row locks: a claim only ever considers
//! rows that no open transaction holds, so two claims never wait on each
//! other and never receive the same row.
use vstd::prelude::*;
use crate::task::{Task, TaskState, TaskType};

verus! {

/// Why a store operation failed.
#[derive(Clone, Copy, Debug, PartialEq, Eq, Structural)]
pub enum StoreError {
    /// Every pooled connection is held by an open transaction.
    PoolTimedOut,
    /// The transaction was never begun or has already ended.
    TransactionClosed,
    /// The row is locked by another open transaction.
    RowLocked,
    /// A record with this id already exists.
    DuplicateId,
    /// Every transaction id has been handed out.
    TransactionIdsExhausted,
}

/// A stored record: `task.task_state` is the committed state; `pending` is
/// the state that the holding transaction has written and not yet committed.
#[derive(Clone, Copy, Debug)]
pub struct Row {
    pub task: Task,
    pub pending: TaskState,
    pub holder: Option<u64>,
}

pub struct TaskStore {
    rows: Vec<Row>,
    open: Vec<u64>,
    next_txn: u64,
    capacity: usize,
}

/// What a store holds: its rows in insertion order, the open transactions,
/// the next transaction id, and how many transactions may be open at once.
pub struct StoreView {
    pub rows: Seq<Row>,
    pub open: Seq<u64>,
    pub next_txn: u64,
    pub capacity: usize,
}

/// A row that a claim at time `now` may lock.
pub open spec fn claimable(r: Row, now: i64) -> bool {
    r.task.is_due(now) && r.holder.is_none()
}

/// Whether a task matches a filter on type and state (`None` matches all).
pub open spec fn matches_filter(t: Task, task_type: Option<TaskType>, task_state: Option<TaskState>) -> bool {
    (task_type.is_none() || task_type == Some(t.task_type))
    && (task_state.is_none() || task_state == Some(t.task_state))
}

/// The row after its holder's commit: the pending state becomes the
/// committed one and the lock is released.
pub open spec fn committed_row(r: Row, txn: u64) -> Row {
    if r.holder == Some(txn) {
        Row { task: Task { task_state: r.pending, ..r.task }, pending: r.pending, holder: None }
    } else {
        r
    }
}

/// The row after its holder's rollback: the pending write is dropped and
/// the lock is released.
pub open spec fn rolled_back_row(r: Row, txn: u64) -> Row {
    if r.holder == Some(txn) {
        Row { task: r.task, pending: r.task.task_state, holder: None }
    } else {
        r
    }
}

/// The tasks of `rows` that match the filter, in order.
pub open spec fn filtered(rows: Seq<Row>, task_type: Option<TaskType>, task_state: Option<TaskState>) -> Seq<Task> {
    rows.map_values(|row: Row| row.task).filter(|t: Task| matches_filter(t, task_type, task_state))
}

impl StoreView {
    pub open spec fn wf(self) -> bool {
        &&& forall|i: int, j: int|
            0 <= i < self.rows.len() && 0 <= j < self.rows.len() && i != j
                ==> self.rows[i].task.id != self.rows[j].task.id
        &&& self.open.no_duplicates()
        &&& forall|k: int| 0 <= k < self.open.len() ==> self.open[k] < self.next_txn
        &&& forall|i: int| 0 <= i < self.rows.len() && self.rows[i].holder is Some
                ==> self.open.contains(self.rows[i].holder->0)
    }

    pub open spec fn is_open(self, txn: u64) -> bool {
        self.open.contains(txn)
    }

    /// `self` is `pre` with `txn` no longer open and nothing else changed
    /// but the rows.
    pub open spec fn closed_from(self, pre: StoreView, txn: u64) -> bool {
        &&& !self.is_open(txn)
        &&& forall|t: u64| t != txn ==> self.is_open(t) == pre.is_open(t)
        &&& self.open.len() == pre.open.len() - 1
        &&& self.next_txn == pre.next_txn
        &&& self.capacity == pre.capacity
    }

    /// `self` is `pre` after `txn` committed.
    pub open spec fn committed_from(self, pre: StoreView, txn: u64) -> bool {
        &&& self.closed_from(pre, txn)
        &&& self.rows == pre.rows.map_values(|row: Row| committed_row(row, txn))
    }

    /// `self` is `pre` after `txn` rolled back.
    pub open spec fn rolled_back_from(self, pre: StoreView, txn: u64) -> bool {
        &&& self.closed_from(pre, txn)
        &&& self.rows == pre.rows.map_values(|row: Row| rolled_back_row(row, txn))
    }

    pub open spec fn has_id(self, id: u128) -> bool {
        exists|i: int| 0 <= i < self.rows.len() && self.rows[i].task.id == id
    }

    pub open spec fn has_claimable(self, now: i64) -> bool {
        exists|i: int| 0 <= i < self.rows.len() && claimable(self.rows[i], now)
    }

    /// Row `i` is the one a claim at `now` takes: claimable, due no later
    /// than any other claimable row, and the first of those due as early.
    pub open spec fn selects(self, now: i64, i: int) -> bool {
        &&& 0 <= i < self.rows.len()
        &&& claimable(self.rows[i], now)
        &&& forall|j: int| 0 <= j < self.rows.len() && claimable(self.rows[j], now)
                ==> self.rows[i].task.sched_datetime <= self.rows[j].task.sched_datetime
        &&& forall|j: int| 0 <= j < i && claimable(self.rows[j], now)
                ==> self.rows[j].task.sched_datetime > self.rows[i].task.sched_datetime
    }

    /// The store after `txn` locks row `i`.
    pub open spec fn lock_row(self, i: int, txn: u64) -> StoreView {
        StoreView {
            rows: self.rows.update(
                i,
                Row { task: self.rows[i].task, pending: self.rows[i].task.task_state, holder: Some(txn) },
            ),
            ..self
        }
    }

    /// The store after `txn` writes `state` to row `i`, locking it.
    pub open spec fn write_row(self, i: int, txn: u64, state: TaskState) -> StoreView {
        StoreView {
            rows: self.rows.update(i, Row { task: self.rows[i].task, pending: state, holder: Some(txn) }),
            ..self
        }
    }

    /// The state of task `id` as transaction `txn` sees it: its own pending
    /// write where it holds the row, the committed state otherwise.
    pub open spec fn seen_by(self, txn: u64, id: u128) -> Option<TaskState> {
        if self.has_id(id) {
            let i = choose|i: int| 0 <= i < self.rows.len() && self.rows[i].task.id == id;
            if self.rows[i].holder == Some(txn) {
                Some(self.rows[i].pending)
            } else {
                Some(self.rows[i].task.task_state)
            }
        } else {
            None
        }
    }

    /// The committed record of task `id`.
    pub open spec fn record(self, id: u128) -> Option<Task> {
        if self.has_id(id) {
            let i = choose|i: int| 0 <= i < self.rows.len() && self.rows[i].task.id == id;
            Some(self.rows[i].task)
        } else {
            None
        }
    }
}

impl View for TaskStore {
    type V = StoreView;

    closed spec fn view(&self) -> StoreView {
        StoreView { rows: self.rows@, open: self.open@, next_txn: self.next_txn, capacity: self.capacity }
    }
}

impl StoreView {
    /// With distinct ids, the row that carries `id` is the one that
    /// `seen_by` and `record` read.
    pub proof fn lemma_row_of_id(self, i: int)
        requires
            self.wf(),
            0 <= i < self.rows.len(),
        ensures
            self.has_id(self.rows[i].task.id),
            (choose|k: int| 0 <= k < self.rows.len() && self.rows[k].task.id == self.rows[i].task.id) == i,
            self.record(self.rows[i].task.id) == Some(self.rows[i].task),
    {
        let id = self.rows[i].task.id;
        assert(0 <= i < self.rows.len() && self.rows[i].task.id == id);
        let k = choose|k: int| 0 <= k < self.rows.len() && self.rows[k].task.id == id;
        assert(k == i);
    }
}

/// A rollback changes no committed record: every task reads as before.
pub proof fn lemma_rollback_keeps_records(pre: StoreView, txn: u64, post: StoreView, id: u128)
    requires
        pre.wf(),
        post.rolled_back_from(pre, txn),
    ensures
        post.record(id) == pre.record(id),
        post.has_id(id) == pre.has_id(id),
{
    assert forall|k: int| 0 <= k < post.rows.len() implies post.rows[k].task == pre.rows[k].task by {
        assert(post.rows[k] == rolled_back_row(pre.rows[k], txn));
    }
    if pre.has_id(id) {
        let i = choose|i: int| 0 <= i < pre.rows.len() && pre.rows[i].task.id == id;
        pre.lemma_row_of_id(i);
        assert(0 <= i < post.rows.len() && post.rows[i].task.id == id);
        let k = choose|k: int| 0 <= k < post.rows.len() && post.rows[k].task.id == id;
        assert(pre.rows[k].task.id == id);
    }
    if post.has_id(id) {
        let k = choose|k: int| 0 <= k < post.rows.len() && post.rows[k].task.id == id;
        assert(0 <= k < pre.rows.len() && pre.rows[k].task.id == id);
    }
}

impl TaskStore {
    /// An empty store whose pool serves `capacity` transactions at once.
    pub fn new(capacity: usize) -> (r: TaskStore)
        ensures
            r@.wf(),
            r@.rows.len() == 0,
            r@.open.len() == 0,
            r@.next_txn == 0,
            r@.capacity == capacity,
    {
        TaskStore { rows: Vec::new(), open: Vec::new(), next_txn: 0, capacity }
    }

    /// Changes how many transactions may be open at once; open ones stay.
    pub fn set_pool_capacity(&mut self, capacity: usize)
        ensures
            final(self)@ == (StoreView { capacity, ..old(self)@ }),
    {
        self.capacity = capacity;
    }

    pub fn open_transactions(&self) -> (r: usize)
        ensures
            r == self@.open.len(),
    {
        self.open.len()
    }

    fn find(&self, id: u128) -> (r: Option<usize>)
        requires
            self@.wf(),
        ensures
            match r {
                Some(i) => i < self@.rows.len() && self@.rows[i as int].task.id == id,
                None => !self@.has_id(id),
            },
    {
        let mut i: usize = 0;
        while i < self.rows.len()
            invariant
                i <= self.rows@.len(),
                forall|j: int| 0 <= j < i ==> self.rows@[j].task.id != id,
            decreases self.rows@.len() - i,
        {
            if self.rows[i].task.id == id {
                return Some(i);
            }
            i += 1;
        }
        None
    }
}

impl TaskStore {
    /// Opens a transaction on a pooled connection.
    pub fn begin(&mut self) -> (r: Result<u64, StoreError>)
        requires
            old(self)@.wf(),
        ensures
            final(self)@.wf(),
            old(self)@.open.len() >= old(self)@.capacity ==> r == Err::<u64, StoreError>(StoreError::PoolTimedOut)
                && final(self)@ == old(self)@,
            old(self)@.open.len() < old(self)@.capacity && old(self)@.next_txn == u64::MAX
                ==> r == Err::<u64, StoreError>(StoreError::TransactionIdsExhausted) && final(self)@ == old(self)@,
            old(self)@.open.len() < old(self)@.capacity && old(self)@.next_txn < u64::MAX ==> {
                &&& r == Ok::<u64, StoreError>(old(self)@.next_txn)
                &&& final(self)@ == (StoreView {
                    open: old(self)@.open.push(old(self)@.next_txn),
                    next_txn: (old(self)@.next_txn + 1) as u64,
                    ..old(self)@
                })
                &&& !old(self)@.is_open(old(self)@.next_txn)
                &&& forall|i: int| 0 <= i < old(self)@.rows.len() ==> old(self)@.rows[i].holder != Some(old(self)@.next_txn)
            },
    {
        if self.open.len() >= self.capacity {
            return Err(StoreError::PoolTimedOut);
        }
        if self.next_txn == u64::MAX {
            return Err(StoreError::TransactionIdsExhausted);
        }
        let txn = self.next_txn;
        proof {
            assert(!self@.open.contains(txn));
        }
        self.open.push(txn);
        self.next_txn = txn + 1;
        proof {
            assert forall|i: int| 0 <= i < self@.rows.len() && self@.rows[i].holder is Some implies
                self@.open.contains(self@.rows[i].holder->0) by {
                let h = self@.rows[i].holder->0;
                let k = choose|k: int| 0 <= k < old(self)@.open.len() && old(self)@.open[k] == h;
                assert(self@.open[k] == h);
            }
        }
        Ok(txn)
    }

    /// Locks the row that a claim at `now` selects for `txn` and returns its
    /// task: the earliest due Open task that no transaction holds.
    pub fn claim_one(&mut self, txn: u64, now: i64) -> (r: Result<Option<Task>, StoreError>)
        requires
            old(self)@.wf(),
        ensures
            final(self)@.wf(),
            !old(self)@.is_open(txn) ==> r == Err::<Option<Task>, StoreError>(StoreError::TransactionClosed)
                && final(self)@ == old(self)@,
            old(self)@.is_open(txn) && !old(self)@.has_claimable(now)
                ==> r == Ok::<Option<Task>, StoreError>(None) && final(self)@ == old(self)@,
            old(self)@.is_open(txn) && old(self)@.has_claimable(now) ==> exists|i: int| {
                &&& old(self)@.selects(now, i)
                &&& r == Ok::<Option<Task>, StoreError>(Some(old(self)@.rows[i].task))
                &&& final(self)@ == old(self)@.lock_row(i, txn)
            },
    {
        if !self.is_open(txn) {
            return Err(StoreError::TransactionClosed);
        }
        let mut best: Option<usize> = None;
        let mut i: usize = 0;
        while i < self.rows.len()
            invariant
                i <= self.rows@.len(),
                best is None ==> forall|j: int| 0 <= j < i ==> !claimable(self.rows@[j], now),
                best is Some ==> {
                    let b = best->0 as int;
                    &&& b < i
                    &&& claimable(self.rows@[b], now)
                    &&& forall|j: int| 0 <= j < i && claimable(self.rows@[j], now)
                        ==> self.rows@[b].task.sched_datetime <= self.rows@[j].task.sched_datetime
                    &&& forall|j: int| 0 <= j < b && claimable(self.rows@[j], now)
                        ==> self.rows@[j].task.sched_datetime > self.rows@[b].task.sched_datetime
                },
            decreases self.rows@.len() - i,
        {
            let row = self.rows[i];
            if row.task.task_state == TaskState::Open && row.task.sched_datetime <= now && row.holder.is_none() {
                match best {
                    None => {
                        best = Some(i);
                    },
                    Some(b) => {
                        if row.task.sched_datetime < self.rows[b].task.sched_datetime {
                            best = Some(i);
                        }
                    },
                }
            }
            i += 1;
        }
        match best {
            None => Ok(None),
            Some(b) => {
                let row = self.rows[b];
                self.rows.set(b, Row { task: row.task, pending: row.task.task_state, holder: Some(txn) });
                proof {
                    assert(old(self)@.selects(now, b as int));
                    assert(self@ == old(self)@.lock_row(b as int, txn));
                }
                Ok(Some(row.task))
            },
        }
    }

    fn is_open(&self, txn: u64) -> (r: bool)
        ensures
            r == self@.is_open(txn),
    {
        let mut k: usize = 0;
        while k < self.open.len()
            invariant
                k <= self.open@.len(),
                forall|j: int| 0 <= j < k ==> self.open@[j] != txn,
            decreases self.open@.len() - k,
        {
            if self.open[k] == txn {
                return true;
            }
            k += 1;
        }
        false
    }

    /// The state of task `id` as `txn` sees it.
    pub fn seen_state(&self, txn: u64, id: u128) -> (r: Option<TaskState>)
        requires
            self@.wf(),
        ensures
            r == self@.seen_by(txn, id),
    {
        match self.find(id) {
            Some(i) => {
                proof { self@.lemma_row_of_id(i as int); }
                let row = self.rows[i];
                if row.holder == Some(txn) {
                    Some(row.pending)
                } else {
                    Some(row.task.task_state)
                }
            },
            None => None,
        }
    }
}

impl TaskStore {
    /// Writes `state` to task `id` inside `txn`, locking its row; returns
    /// how many rows it wrote (none where no such task exists).
    pub fn update_state(&mut self, txn: u64, id: u128, state: TaskState) -> (r: Result<usize, StoreError>)
        requires
            old(self)@.wf(),
        ensures
            final(self)@.wf(),
            !old(self)@.is_open(txn) ==> r == Err::<usize, StoreError>(StoreError::TransactionClosed)
                && final(self)@ == old(self)@,
            old(self)@.is_open(txn) && !old(self)@.has_id(id) ==> r == Ok::<usize, StoreError>(0)
                && final(self)@ == old(self)@,
            old(self)@.is_open(txn) ==> forall|i: int| 0 <= i < old(self)@.rows.len() && old(self)@.rows[i].task.id == id ==> {
                let h = old(self)@.rows[i].holder;
                &&& h is Some && h != Some(txn) ==> r == Err::<usize, StoreError>(StoreError::RowLocked)
                    && final(self)@ == old(self)@
                &&& (h is None || h == Some(txn)) ==> r == Ok::<usize, StoreError>(1)
                    && final(self)@ == old(self)@.write_row(i, txn, state)
            },
    {
        if !self.is_open(txn) {
            return Err(StoreError::TransactionClosed);
        }
        match self.find(id) {
            None => Ok(0),
            Some(i) => {
                let row = self.rows[i];
                match row.holder {
                    Some(h) => {
                        if h != txn {
                            return Err(StoreError::RowLocked);
                        }
                    },
                    None => {},
                }
                self.rows.set(i, Row { task: row.task, pending: state, holder: Some(txn) });
                proof {
                    assert(self@ == old(self)@.write_row(i as int, txn, state));
                }
                Ok(1)
            },
        }
    }

    /// Ends `txn`: where `keep`, its pending writes become committed; else
    /// they are dropped. Either way its locks are released.
    fn end(&mut self, txn: u64, keep: bool) -> (r: Result<(), StoreError>)
        requires
            old(self)@.wf(),
        ensures
            final(self)@.wf(),
            !old(self)@.is_open(txn) ==> r == Err::<(), StoreError>(StoreError::TransactionClosed)
                && final(self)@ == old(self)@,
            old(self)@.is_open(txn) ==> r is Ok && final(self)@.closed_from(old(self)@, txn) && final(self)@.rows == if keep {
                old(self)@.rows.map_values(|row: Row| committed_row(row, txn))
            } else {
                old(self)@.rows.map_values(|row: Row| rolled_back_row(row, txn))
            },
    {
        let mut k: usize = 0;
        while k < self.open.len()
            invariant
                k <= self.open@.len(),
                self@ == old(self)@,
                forall|j: int| 0 <= j < k ==> self.open@[j] != txn,
            ensures
                k <= self.open@.len(),
                self@ == old(self)@,
                forall|j: int| 0 <= j < k ==> self.open@[j] != txn,
                k < self.open@.len() ==> self.open@[k as int] == txn,
            decreases self.open@.len() - k,
        {
            if self.open[k] == txn {
                break;
            }
            k += 1;
        }
        if k == self.open.len() {
            return Err(StoreError::TransactionClosed);
        }
        let ghost before = self@;
        let mut i: usize = 0;
        while i < self.rows.len()
            invariant
                i <= self.rows@.len(),
                self.rows@.len() == before.rows.len(),
                self.open@ == before.open,
                self.next_txn == before.next_txn,
                self.capacity == before.capacity,
                forall|j: int| i <= j < self.rows@.len() ==> self.rows@[j] == before.rows[j],
                forall|j: int| 0 <= j < i ==> self.rows@[j] == if keep {
                    committed_row(before.rows[j], txn)
                } else {
                    rolled_back_row(before.rows[j], txn)
                },
            decreases self.rows@.len() - i,
        {
            let row = self.rows[i];
            if row.holder == Some(txn) {
                let task = if keep { Task { task_state: row.pending, ..row.task } } else { row.task };
                self.rows.set(i, Row { task, pending: task.task_state, holder: None });
            }
            i += 1;
        }
        self.open.remove(k);
        proof {
            let after = self@;
            if keep {
                assert(after.rows == before.rows.map_values(|row: Row| committed_row(row, txn)));
            } else {
                assert(after.rows == before.rows.map_values(|row: Row| rolled_back_row(row, txn)));
            }
            assert(before.open[k as int] == txn);
            assert(after.open == before.open.remove(k as int));
            assert forall|t: u64| t != txn implies after.is_open(t) == before.is_open(t) by {
                if before.is_open(t) {
                    let j = choose|j: int| 0 <= j < before.open.len() && before.open[j] == t;
                    assert(j != k);
                    if j < k {
                        assert(after.open[j] == t);
                    } else {
                        assert(after.open[j - 1] == t);
                    }
                }
                if after.is_open(t) {
                    let j = choose|j: int| 0 <= j < after.open.len() && after.open[j] == t;
                    if j < k {
                        assert(before.open[j] == t);
                    } else {
                        assert(before.open[j + 1] == t);
                    }
                }
            }
            assert(!after.is_open(txn)) by {
                if after.is_open(txn) {
                    let j = choose|j: int| 0 <= j < after.open.len() && after.open[j] == txn;
                    if j < k {
                        assert(before.open[j] == txn);
                    } else {
                        assert(before.open[j + 1] == txn);
                    }
                }
            }
            assert forall|a: int, b: int| 0 <= a < after.open.len() && 0 <= b < after.open.len() && a != b
                implies after.open[a] != after.open[b] by {
                let a2 = if a < k { a } else { a + 1 };
                let b2 = if b < k { b } else { b + 1 };
                assert(after.open[a] == before.open[a2]);
                assert(after.open[b] == before.open[b2]);
            }
            assert forall|j: int| 0 <= j < after.open.len() implies after.open[j] < after.next_txn by {
                let j2 = if j < k { j } else { j + 1 };
                assert(after.open[j] == before.open[j2]);
            }
            assert forall|j: int| 0 <= j < after.rows.len() && after.rows[j].holder is Some implies
                after.open.contains(after.rows[j].holder->0) by {
                let h = after.rows[j].holder->0;
                assert(before.rows[j].holder == Some(h) && h != txn);
                assert(before.is_open(h));
            }
            assert forall|a: int, b: int| 0 <= a < after.rows.len() && 0 <= b < after.rows.len() && a != b
                implies after.rows[a].task.id != after.rows[b].task.id by {
                assert(after.rows[a].task.id == before.rows[a].task.id);
                assert(after.rows[b].task.id == before.rows[b].task.id);
            }
        }
        Ok(())
    }

    /// Commits `txn`: its pending writes become the committed states, and
    /// its locks and its connection are released.
    pub fn commit(&mut self, txn: u64) -> (r: Result<(), StoreError>)
        requires
            old(self)@.wf(),
        ensures
            final(self)@.wf(),
            !old(self)@.is_open(txn) ==> r == Err::<(), StoreError>(StoreError::TransactionClosed)
                && final(self)@ == old(self)@,
            old(self)@.is_open(txn) ==> r is Ok && final(self)@.closed_from(old(self)@, txn)
                && final(self)@.rows == old(self)@.rows.map_values(|row: Row| committed_row(row, txn)),
    {
        self.end(txn, true)
    }

    /// Rolls `txn` back: its pending writes are dropped, and its locks and
    /// its connection are released.
    pub fn rollback(&mut self, txn: u64) -> (r: Result<(), StoreError>)
        requires
            old(self)@.wf(),
        ensures
            final(self)@.wf(),
            !old(self)@.is_open(txn) ==> r == Err::<(), StoreError>(StoreError::TransactionClosed)
                && final(self)@ == old(self)@,
            old(self)@.is_open(txn) ==> r is Ok && final(self)@.closed_from(old(self)@, txn)
                && final(self)@.rows == old(self)@.rows.map_values(|row: Row| rolled_back_row(row, txn)),
    {
        self.end(txn, false)
    }
}

impl Task {
    /// Adds this record; fails where a record with its id exists.
    pub fn insert(&self, store: &mut TaskStore) -> (r: Result<(), StoreError>)
        requires
            old(store)@.wf(),
        ensures
            final(store)@.wf(),
            old(store)@.has_id(self.id) ==> r == Err::<(), StoreError>(StoreError::DuplicateId)
                && final(store)@ == old(store)@,
            !old(store)@.has_id(self.id) ==> r is Ok && final(store)@ == (StoreView {
                rows: old(store)@.rows.push(Row { task: *self, pending: self.task_state, holder: None }),
                ..old(store)@
            }),
    {
        match store.find(self.id) {
            Some(_) => Err(StoreError::DuplicateId),
            None => {
                store.rows.push(Row { task: *self, pending: self.task_state, holder: None });
                assert(store@.rows.last().task.id == self.id);
                Ok(())
            },
        }
    }

    /// The committed record with this id, if any.
    pub fn get(id: u128, store: &TaskStore) -> (r: Result<Option<Task>, StoreError>)
        requires
            store@.wf(),
        ensures
            r == Ok::<Option<Task>, StoreError>(store@.record(id)),
    {
        match store.find(id) {
            Some(i) => {
                proof { store@.lemma_row_of_id(i as int); }
                Ok(Some(store.rows[i].task))
            },
            None => Ok(None),
        }
    }

    /// The committed records that match the filter on type and state
    /// (`None` matches every value), in insertion order.
    pub fn get_filtered(
        task_type: Option<TaskType>,
        task_state: Option<TaskState>,
        store: &TaskStore,
    ) -> (r: Result<Vec<Task>, StoreError>)
        ensures
            r is Ok && r->Ok_0@ == filtered(store@.rows, task_type, task_state),
    {
        let mut out: Vec<Task> = Vec::new();
        let mut i: usize = 0;
        while i < store.rows.len()
            invariant
                i <= store.rows@.len(),
                out@ == filtered(store@.rows.take(i as int), task_type, task_state),
            decreases store.rows@.len() - i,
        {
            let t = store.rows[i].task;
            let type_ok = match task_type {
                Some(k) => k == t.task_type,
                None => true,
            };
            let state_ok = match task_state {
                Some(s) => s == t.task_state,
                None => true,
            };
            proof {
                let pre = store@.rows.take(i as int);
                let next = store@.rows.take(i as int + 1);
                assert(next == pre.push(store@.rows[i as int]));
                let tasks = next.map_values(|row: Row| row.task);
                assert(tasks.drop_last() == pre.map_values(|row: Row| row.task));
                assert(tasks.last() == t);
                reveal(Seq::filter);
            }
            if type_ok && state_ok {
                out.push(t);
            }
            i += 1;
        }
        assert(store@.rows.take(i as int) == store@.rows);
        Ok(out)
    }

    /// Removes the record with this id, whatever transaction holds it; where
    /// there is none, nothing changes.
    pub fn delete(id: u128, store: &mut TaskStore) -> (r: Result<(), StoreError>)
        requires
            old(store)@.wf(),
        ensures
            final(store)@.wf(),
            r is Ok,
            !final(store)@.has_id(id),
            old(store)@.has_id(id) ==> exists|i: int| 0 <= i < old(store)@.rows.len() && old(store)@.rows[i].task.id == id
                && final(store)@ == (StoreView { rows: old(store)@.rows.remove(i), ..old(store)@ }),
            !old(store)@.has_id(id) ==> final(store)@ == old(store)@,
    {
        match store.find(id) {
            Some(i) => {
                let ghost before = store@;
                store.rows.remove(i);
                proof {
                    assert forall|a: int, b: int|
                        0 <= a < store@.rows.len() && 0 <= b < store@.rows.len() && a != b implies
                        store@.rows[a].task.id != store@.rows[b].task.id by {
                        let a2 = if a < i { a } else { a + 1 };
                        let b2 = if b < i { b } else { b + 1 };
                        assert(store@.rows[a] == before.rows[a2]);
                        assert(store@.rows[b] == before.rows[b2]);
                    }
                    assert forall|k: int| 0 <= k < store@.rows.len() implies store@.rows[k].task.id != id by {
                        let k2 = if k < i { k } else { k + 1 };
                        assert(store@.rows[k] == before.rows[k2]);
                    }
                    assert forall|k: int| 0 <= k < store@.rows.len() && store@.rows[k].holder is Some implies
                        store@.open.contains(store@.rows[k].holder->0) by {
                        let k2 = if k < i { k } else { k + 1 };
                        assert(store@.rows[k] == before.rows[k2]);
                    }
                }
                Ok(())
            },
            None => Ok(()),
        }
    }
}

} // verus!
