//! Claimed tasks as values typed by their lifecycle phase.
//!
//! A `WorkerTask<OpenTask>` comes only from a claim; `start` turns it into a
//! `WorkerTask<RunningTask<T>>`, which `finish` or `abort` ends. Each phase
//! owns the transaction of its claim until it commits or rolls it back, so
//! no operation of a phase can reach a state that the lifecycle has no edge to.
use vstd::prelude::*;
use crate::error::Error;
use crate::store::{StoreError, StoreView, TaskStore};
use crate::task::{Task, TaskState, TaskType};

verus! {

/// A phase of a claimed task.
pub trait WorkerTaskState: Sized {
    /// Whether a record in state `s` may be taken into this phase.
    spec fn admits(s: TaskState) -> bool;

    fn validate_state(task_state: TaskState) -> (r: Result<(), Error>)
        ensures
            r is Ok <==> Self::admits(task_state),
            r is Err ==> r == Err::<(), Error>(Error::TaskStateError);
}

/// Claimed and locked, not started.
pub struct OpenTask {
    transaction: u64,
}

/// Started: the task body runs behind `handle`.
#[verifier::reject_recursive_types(T)]
pub struct RunningTask<T> {
    transaction: u64,
    handle: tokio::task::JoinHandle<Result<T, Error>>,
}

/// Cancelled and recorded as Aborted.
pub struct AbortedTask;

/// Run to its end and recorded as Successful or Failed.
pub struct FinishedTask<T>(Result<T, Error>);

impl WorkerTaskState for OpenTask {
    open spec fn admits(s: TaskState) -> bool {
        s == TaskState::Open
    }

    fn validate_state(task_state: TaskState) -> (r: Result<(), Error>) {
        match task_state {
            TaskState::Open => Ok(()),
            _ => Err(Error::TaskStateError),
        }
    }
}

impl<T> WorkerTaskState for RunningTask<T> {
    open spec fn admits(s: TaskState) -> bool {
        false
    }

    fn validate_state(task_state: TaskState) -> (r: Result<(), Error>) {
        Err(Error::TaskStateError)
    }
}

impl WorkerTaskState for AbortedTask {
    open spec fn admits(s: TaskState) -> bool {
        false
    }

    fn validate_state(task_state: TaskState) -> (r: Result<(), Error>) {
        Err(Error::TaskStateError)
    }
}

impl<T> WorkerTaskState for FinishedTask<T> {
    open spec fn admits(s: TaskState) -> bool {
        false
    }

    fn validate_state(task_state: TaskState) -> (r: Result<(), Error>) {
        Err(Error::TaskStateError)
    }
}

/// A claimed task in phase `S`.
pub struct WorkerTask<S: WorkerTaskState> {
    id: u128,
    task_type: TaskType,
    task_state: S,
    sched_datetime: i64,
}

/// The state that a task body's outcome is recorded as.
pub open spec fn outcome_state<T>(outcome: Result<T, Error>) -> TaskState {
    if outcome is Ok {
        TaskState::Successful
    } else {
        TaskState::Failed
    }
}

/// `post` is `pre` after `txn` wrote `state` to task `id` and committed:
/// the write lands on the row that carries `id`, if one is left.
pub open spec fn wrote_and_committed(pre: StoreView, txn: u64, id: u128, state: TaskState, post: StoreView) -> bool {
    if pre.has_id(id) {
        exists|i: int| 0 <= i < pre.rows.len() && pre.rows[i].task.id == id
            && post.committed_from(pre.write_row(i, txn, state), txn)
    } else {
        post.committed_from(pre, txn)
    }
}

/// Task `id` is held by another transaction than `txn`.
pub open spec fn locked_by_other(pre: StoreView, txn: u64, id: u128) -> bool {
    exists|i: int| 0 <= i < pre.rows.len() && pre.rows[i].task.id == id
        && pre.rows[i].holder is Some && pre.rows[i].holder != Some(txn)
}

impl<S: WorkerTaskState> WorkerTask<S> {
    pub closed spec fn task_id(&self) -> u128 {
        self.id
    }

    pub closed spec fn kind(&self) -> TaskType {
        self.task_type
    }

    pub closed spec fn due(&self) -> i64 {
        self.sched_datetime
    }

    pub fn id(&self) -> (r: u128)
        ensures
            r == self.task_id(),
    {
        self.id
    }

    pub fn task_type(&self) -> (r: TaskType)
        ensures
            r == self.kind(),
    {
        self.task_type
    }

    pub fn sched_datetime(&self) -> (r: i64)
        ensures
            r == self.due(),
    {
        self.sched_datetime
    }
}

impl WorkerTask<OpenTask> {
    pub closed spec fn txn(&self) -> u64 {
        self.task_state.transaction
    }

    pub fn transaction(&self) -> (r: u64)
        ensures
            r == self.txn(),
    {
        self.task_state.transaction
    }

    /// Wraps a claimed record; fails where it is not Open.
    pub fn from_task(task: Task, transaction: u64) -> (r: Result<Self, Error>)
        ensures
            task.task_state == TaskState::Open <==> r is Ok,
            r is Err ==> r == Err::<Self, Error>(Error::TaskStateError),
            r is Ok ==> {
                let w = r->Ok_0;
                &&& w.task_id() == task.id
                &&& w.kind() == task.task_type
                &&& w.due() == task.sched_datetime
                &&& w.txn() == transaction
            },
    {
        match OpenTask::validate_state(task.task_state) {
            Ok(()) => Ok(WorkerTask {
                id: task.id,
                task_type: task.task_type,
                task_state: OpenTask { transaction },
                sched_datetime: task.sched_datetime,
            }),
            Err(e) => Err(e),
        }
    }
}

/// What a claim at `now` does to store `pre`, giving `post` and `r`: where
/// the pool has a connection it opens a transaction; where a task is
/// claimable it locks the one that the claim selects and hands it out,
/// holding the transaction open; else it rolls back and gives nothing.
pub open spec fn claim_outcome(
    pre: StoreView,
    now: i64,
    post: StoreView,
    r: Result<Option<WorkerTask<OpenTask>>, Error>,
) -> bool {
    if pre.open.len() >= pre.capacity {
        r == Err::<Option<WorkerTask<OpenTask>>, Error>(Error::StoreError(StoreError::PoolTimedOut)) && post == pre
    } else if pre.next_txn == u64::MAX {
        r == Err::<Option<WorkerTask<OpenTask>>, Error>(Error::StoreError(StoreError::TransactionIdsExhausted))
            && post == pre
    } else if !pre.has_claimable(now) {
        &&& r == Ok::<Option<WorkerTask<OpenTask>>, Error>(None)
        &&& post.rows == pre.rows
        &&& post.next_txn == pre.next_txn + 1
        &&& post.capacity == pre.capacity
        &&& post.open.len() == pre.open.len()
        &&& forall|t: u64| post.is_open(t) == pre.is_open(t)
    } else {
        let txn = pre.next_txn;
        exists|i: int| {
            &&& pre.selects(now, i)
            &&& r is Ok && r->Ok_0 is Some
            &&& r->Ok_0->Some_0.task_id() == pre.rows[i].task.id
            &&& r->Ok_0->Some_0.kind() == pre.rows[i].task.task_type
            &&& r->Ok_0->Some_0.due() == pre.rows[i].task.sched_datetime
            &&& r->Ok_0->Some_0.txn() == txn
            &&& post == (StoreView { open: pre.open.push(txn), next_txn: (txn + 1) as u64, ..pre }).lock_row(i, txn)
        }
    }
}

impl WorkerTask<OpenTask> {
    /// Claims the earliest due Open task at time `now` in a transaction of
    /// its own, which the returned value holds.
    pub fn get_open_task_at(store: &mut TaskStore, now: i64) -> (r: Result<Option<Self>, Error>)
        requires
            old(store)@.wf(),
        ensures
            final(store)@.wf(),
            claim_outcome(old(store)@, now, final(store)@, r),
    {
        let txn = match store.begin() {
            Ok(t) => t,
            Err(e) => return Err(Error::StoreError(e)),
        };
        let ghost begun = store@;
        proof {
            assert(begun.open[begun.open.len() - 1] == txn);
            assert(begun.rows == old(store)@.rows);
        }
        match store.claim_one(txn, now) {
            Err(e) => {
                let _ = store.rollback(txn);
                Err(Error::StoreError(e))
            },
            Ok(None) => {
                let _ = store.rollback(txn);
                proof {
                    assert(store@.rows =~= old(store)@.rows);
                    assert forall|t: u64| store@.is_open(t) == old(store)@.is_open(t) by {
                        if t != txn {
                            assert(begun.is_open(t) == old(store)@.is_open(t)) by {
                                if old(store)@.is_open(t) {
                                    let j = choose|j: int| 0 <= j < old(store)@.open.len() && old(store)@.open[j] == t;
                                    assert(begun.open[j] == t);
                                }
                                if begun.is_open(t) {
                                    let j = choose|j: int| 0 <= j < begun.open.len() && begun.open[j] == t;
                                    assert(j < old(store)@.open.len());
                                }
                            }
                        }
                    }
                }
                Ok(None)
            },
            Ok(Some(task)) => {
                proof {
                    let i = choose|i: int| {
                        &&& begun.selects(now, i)
                        &&& store@ == begun.lock_row(i, txn)
                        &&& task == begun.rows[i].task
                    };
                    assert(old(store)@.selects(now, i));
                }
                match Self::from_task(task, txn) {
                    Ok(w) => Ok(Some(w)),
                    Err(e) => {
                        let _ = store.rollback(txn);
                        Err(e)
                    },
                }
            },
        }
    }

    /// Claims the earliest task that is due now, by the system clock.
    pub fn get_open_task(store: &mut TaskStore) -> (r: Result<Option<Self>, Error>)
        requires
            old(store)@.wf(),
        ensures
            final(store)@.wf(),
            exists|now: i64| claim_outcome(old(store)@, now, final(store)@, r),
    {
        let now = crate::runtime::now_timestamp();
        Self::get_open_task_at(store, now)
    }
}

/// After a write of `state` to task `id` and a commit, the committed record
/// of `id` holds `state` and is otherwise as it was.
pub proof fn lemma_committed_write(pre: StoreView, txn: u64, id: u128, state: TaskState, post: StoreView)
    requires
        pre.wf(),
        pre.has_id(id),
        wrote_and_committed(pre, txn, id, state, post),
    ensures
        post.record(id) == Some(Task { task_state: state, ..pre.record(id)->0 }),
{
    let i = choose|i: int| 0 <= i < pre.rows.len() && pre.rows[i].task.id == id
        && post.committed_from(pre.write_row(i, txn, state), txn);
    pre.lemma_row_of_id(i);
    let mid = pre.write_row(i, txn, state);
    assert(post.rows[i] == crate::store::committed_row(mid.rows[i], txn));
    assert forall|k: int| 0 <= k < post.rows.len() implies post.rows[k].task.id == pre.rows[k].task.id by {
        assert(post.rows[k] == crate::store::committed_row(mid.rows[k], txn));
    }
    assert(0 <= i < post.rows.len() && post.rows[i].task.id == id);
    let k = choose|k: int| 0 <= k < post.rows.len() && post.rows[k].task.id == id;
    assert(k == i);
}

impl WorkerTask<OpenTask> {
    /// Records the task as Running inside its claim's transaction, then
    /// spawns its body with `spawn`. Where the transaction does not see the
    /// task as Open it fails with `TaskStateError`; every failure rolls the
    /// transaction back.
    pub fn start<T, F>(self, store: &mut TaskStore, spawn: F) -> (r: Result<WorkerTask<RunningTask<T>>, Error>)
        where
            F: FnOnce(u128, TaskType) -> tokio::task::JoinHandle<Result<T, Error>>,
        requires
            old(store)@.wf(),
            spawn.requires((self.task_id(), self.kind())),
        ensures
            final(store)@.wf(),
            !old(store)@.is_open(self.txn()) ==> final(store)@ == old(store)@ && r == if old(store)@.seen_by(
                self.txn(),
                self.task_id(),
            ) == Some(TaskState::Open) {
                Err::<WorkerTask<RunningTask<T>>, Error>(Error::StoreError(StoreError::TransactionClosed))
            } else {
                Err::<WorkerTask<RunningTask<T>>, Error>(Error::TaskStateError)
            },
            old(store)@.is_open(self.txn()) && old(store)@.seen_by(self.txn(), self.task_id()) != Some(TaskState::Open)
                ==> r == Err::<WorkerTask<RunningTask<T>>, Error>(Error::TaskStateError)
                && final(store)@.rolled_back_from(old(store)@, self.txn()),
            old(store)@.is_open(self.txn()) && old(store)@.seen_by(self.txn(), self.task_id()) == Some(TaskState::Open)
                && locked_by_other(old(store)@, self.txn(), self.task_id())
                ==> r == Err::<WorkerTask<RunningTask<T>>, Error>(Error::StoreError(StoreError::RowLocked))
                && final(store)@.rolled_back_from(old(store)@, self.txn()),
            old(store)@.is_open(self.txn()) && old(store)@.seen_by(self.txn(), self.task_id()) == Some(TaskState::Open)
                && !locked_by_other(old(store)@, self.txn(), self.task_id()) ==> {
                &&& r is Ok
                &&& exists|i: int| 0 <= i < old(store)@.rows.len() && old(store)@.rows[i].task.id == self.task_id()
                    && final(store)@ == old(store)@.write_row(i, self.txn(), TaskState::Running)
            },
            r is Ok ==> {
                let w = r->Ok_0;
                &&& w.task_id() == self.task_id()
                &&& w.kind() == self.kind()
                &&& w.due() == self.due()
                &&& w.txn() == self.txn()
            },
    {
        let WorkerTask { id, task_type, task_state, sched_datetime } = self;
        let transaction = task_state.transaction;
        match store.seen_state(transaction, id) {
            Some(TaskState::Open) => {},
            _ => {
                let _ = store.rollback(transaction);
                return Err(Error::TaskStateError);
            },
        }
        match store.update_state(transaction, id, TaskState::Running) {
            Err(e) => {
                let _ = store.rollback(transaction);
                return Err(Error::StoreError(e));
            },
            Ok(_) => {},
        }
        let handle = spawn(id, task_type);
        Ok(WorkerTask { id, task_type, task_state: RunningTask { transaction, handle }, sched_datetime })
    }
}

impl<T> WorkerTask<RunningTask<T>> {
    pub closed spec fn txn(&self) -> u64 {
        self.task_state.transaction
    }

    /// Whether the task body has ended; does not wait.
    pub fn is_finished(&self) -> bool {
        self.task_state.handle.is_finished()
    }

    /// The handle of the spawned body, for awaiting its outcome.
    pub fn handle_mut(&mut self) -> (r: &mut tokio::task::JoinHandle<Result<T, Error>>)
        ensures
            final(self).task_id() == old(self).task_id(),
            final(self).kind() == old(self).kind(),
            final(self).due() == old(self).due(),
            final(self).txn() == old(self).txn(),
    {
        &mut self.task_state.handle
    }

    /// Asks the runtime to cancel the body, records the task as Aborted and
    /// commits; where the write fails the transaction is rolled back.
    pub fn abort(self, store: &mut TaskStore) -> (r: Result<WorkerTask<AbortedTask>, Error>)
        requires
            old(store)@.wf(),
        ensures
            final(store)@.wf(),
            !old(store)@.is_open(self.txn())
                ==> r == Err::<WorkerTask<AbortedTask>, Error>(Error::StoreError(StoreError::TransactionClosed))
                && final(store)@ == old(store)@,
            old(store)@.is_open(self.txn()) && locked_by_other(old(store)@, self.txn(), self.task_id())
                ==> r == Err::<WorkerTask<AbortedTask>, Error>(Error::StoreError(StoreError::RowLocked))
                && final(store)@.rolled_back_from(old(store)@, self.txn()),
            old(store)@.is_open(self.txn()) && !locked_by_other(old(store)@, self.txn(), self.task_id()) ==> {
                &&& r is Ok
                &&& wrote_and_committed(old(store)@, self.txn(), self.task_id(), TaskState::Aborted, final(store)@)
            },
            r is Ok && old(store)@.has_id(self.task_id()) ==> final(store)@.record(self.task_id())
                == Some(Task { task_state: TaskState::Aborted, ..old(store)@.record(self.task_id())->0 }),
            r is Ok ==> {
                let w = r->Ok_0;
                &&& w.task_id() == self.task_id()
                &&& w.kind() == self.kind()
                &&& w.due() == self.due()
            },
    {
        let WorkerTask { id, task_type, task_state, sched_datetime } = self;
        let RunningTask { transaction, handle } = task_state;
        handle.abort();
        Self::record_end(store, transaction, id, TaskState::Aborted)?;
        Ok(WorkerTask { id, task_type, task_state: AbortedTask, sched_datetime })
    }

    /// Writes `state` to task `id` and commits `transaction`; where the
    /// write fails the transaction is rolled back.
    fn record_end(store: &mut TaskStore, transaction: u64, id: u128, state: TaskState) -> (r: Result<(), Error>)
        requires
            old(store)@.wf(),
        ensures
            final(store)@.wf(),
            !old(store)@.is_open(transaction)
                ==> r == Err::<(), Error>(Error::StoreError(StoreError::TransactionClosed))
                && final(store)@ == old(store)@,
            old(store)@.is_open(transaction) && locked_by_other(old(store)@, transaction, id)
                ==> r == Err::<(), Error>(Error::StoreError(StoreError::RowLocked))
                && final(store)@.rolled_back_from(old(store)@, transaction),
            old(store)@.is_open(transaction) && !locked_by_other(old(store)@, transaction, id)
                ==> r is Ok && wrote_and_committed(old(store)@, transaction, id, state, final(store)@),
            r is Ok && old(store)@.has_id(id) ==> final(store)@.record(id)
                == Some(Task { task_state: state, ..old(store)@.record(id)->0 }),
    {
        let ghost pre = store@;
        match store.update_state(transaction, id, state) {
            Err(e) => {
                let _ = store.rollback(transaction);
                return Err(Error::StoreError(e));
            },
            Ok(_) => {},
        }
        let ghost mid = store@;
        proof {
            assert(mid.is_open(transaction));
            if pre.has_id(id) {
                let i = choose|i: int| 0 <= i < pre.rows.len() && pre.rows[i].task.id == id;
                assert(mid == pre.write_row(i, transaction, state));
                assert(mid.open == pre.open);
            }
        }
        match store.commit(transaction) {
            Err(e) => {
                return Err(Error::StoreError(e));
            },
            Ok(()) => {},
        }
        proof {
            if pre.has_id(id) {
                let i = choose|i: int| 0 <= i < pre.rows.len() && pre.rows[i].task.id == id;
                assert(mid == pre.write_row(i, transaction, state));
                assert(store@.committed_from(pre.write_row(i, transaction, state), transaction));
                assert(store@.closed_from(pre, transaction));
                lemma_committed_write(pre, transaction, id, state, store@);
            } else {
                assert(store@.committed_from(pre, transaction));
            }
        }
        Ok(())
    }
}

impl<T> WorkerTask<RunningTask<T>> {
    /// Ends the task with the outcome of awaiting its body (`joined`): where
    /// the body could not be awaited the transaction is rolled back and the
    /// join error returned; else the task is recorded as Successful or
    /// Failed, by the body's own outcome, and the transaction committed.
    pub fn finish(
        self,
        store: &mut TaskStore,
        joined: Result<Result<T, Error>, tokio::task::JoinError>,
    ) -> (r: Result<WorkerTask<FinishedTask<T>>, Error>)
        requires
            old(store)@.wf(),
        ensures
            final(store)@.wf(),
            joined is Err ==> r == Err::<WorkerTask<FinishedTask<T>>, Error>(Error::JoinError(joined->Err_0))
                && (old(store)@.is_open(self.txn()) ==> final(store)@.rolled_back_from(old(store)@, self.txn()))
                && (!old(store)@.is_open(self.txn()) ==> final(store)@ == old(store)@),
            joined is Ok && !old(store)@.is_open(self.txn())
                ==> r == Err::<WorkerTask<FinishedTask<T>>, Error>(Error::StoreError(StoreError::TransactionClosed))
                && final(store)@ == old(store)@,
            joined is Ok && old(store)@.is_open(self.txn()) && locked_by_other(old(store)@, self.txn(), self.task_id())
                ==> r == Err::<WorkerTask<FinishedTask<T>>, Error>(Error::StoreError(StoreError::RowLocked))
                && final(store)@.rolled_back_from(old(store)@, self.txn()),
            joined is Ok && old(store)@.is_open(self.txn()) && !locked_by_other(old(store)@, self.txn(), self.task_id()) ==> {
                &&& r is Ok
                &&& wrote_and_committed(old(store)@, self.txn(), self.task_id(), outcome_state(joined->Ok_0), final(store)@)
            },
            r is Ok && old(store)@.has_id(self.task_id()) ==> final(store)@.record(self.task_id())
                == Some(Task { task_state: outcome_state(joined->Ok_0), ..old(store)@.record(self.task_id())->0 }),
            r is Ok ==> {
                let w = r->Ok_0;
                &&& joined is Ok
                &&& w.outcome() == joined->Ok_0
                &&& w.task_id() == self.task_id()
                &&& w.kind() == self.kind()
                &&& w.due() == self.due()
            },
    {
        let WorkerTask { id, task_type, task_state, sched_datetime } = self;
        let RunningTask { transaction, handle } = task_state;
        let result = match joined {
            Ok(result) => result,
            Err(e) => {
                let _ = store.rollback(transaction);
                return Err(Error::JoinError(e));
            },
        };
        let state = match &result {
            Ok(_) => TaskState::Successful,
            Err(_) => TaskState::Failed,
        };
        Self::record_end(store, transaction, id, state)?;
        Ok(WorkerTask { id, task_type, task_state: FinishedTask(result), sched_datetime })
    }
}

impl<T> WorkerTask<FinishedTask<T>> {
    pub closed spec fn outcome(&self) -> Result<T, Error> {
        self.task_state.0
    }

    /// The body's outcome: its value, or the error it failed with.
    pub fn into_result(self) -> (r: Result<T, Error>)
        ensures
            r == self.outcome(),
    {
        self.task_state.0
    }
}

/// Two claims, one after the other and with the first one's transaction
/// still open, never hand out the same task: the first locks its row for its
/// own transaction, and the second only considers rows that nobody holds.
pub proof fn lemma_claims_exclusive(
    s0: StoreView,
    now1: i64,
    s1: StoreView,
    w1: WorkerTask<OpenTask>,
    now2: i64,
    s2: StoreView,
    w2: WorkerTask<OpenTask>,
)
    requires
        s0.wf(),
        s1.wf(),
        claim_outcome(s0, now1, s1, Ok(Some(w1))),
        claim_outcome(s1, now2, s2, Ok(Some(w2))),
    ensures
        w1.task_id() != w2.task_id(),
        w1.txn() != w2.txn(),
        s1.is_open(w1.txn()),
        exists|i: int| 0 <= i < s1.rows.len() && s1.rows[i].task.id == w1.task_id() && s1.rows[i].holder == Some(w1.txn()),
{
    let i = choose|i: int| {
        &&& s0.selects(now1, i)
        &&& w1.task_id() == s0.rows[i].task.id
        &&& w1.txn() == s0.next_txn
        &&& s1 == (StoreView { open: s0.open.push(s0.next_txn), next_txn: (s0.next_txn + 1) as u64, ..s0 }).lock_row(i, s0.next_txn)
    };
    let j = choose|j: int| {
        &&& s1.selects(now2, j)
        &&& w2.task_id() == s1.rows[j].task.id
        &&& w2.txn() == s1.next_txn
        &&& s2 == (StoreView { open: s1.open.push(s1.next_txn), next_txn: (s1.next_txn + 1) as u64, ..s1 }).lock_row(j, s1.next_txn)
    };
    assert(s1.rows[i].holder == Some(w1.txn()));
    assert(s1.open[s1.open.len() - 1] == w1.txn());
    assert(i != j);
}

/// A claim that hands out a task leaves it where `start` succeeds: its
/// transaction is open, sees the task as Open, and no other one holds it.
pub proof fn lemma_claimed_task_starts(s0: StoreView, now: i64, s1: StoreView, w: WorkerTask<OpenTask>)
    requires
        s0.wf(),
        claim_outcome(s0, now, s1, Ok(Some(w))),
    ensures
        s1.is_open(w.txn()),
        s1.seen_by(w.txn(), w.task_id()) == Some(TaskState::Open),
        !locked_by_other(s1, w.txn(), w.task_id()),
{
    let txn = s0.next_txn;
    let i = choose|i: int| {
        &&& s0.selects(now, i)
        &&& w.task_id() == s0.rows[i].task.id
        &&& w.txn() == txn
        &&& s1 == (StoreView { open: s0.open.push(txn), next_txn: (txn + 1) as u64, ..s0 }).lock_row(i, txn)
    };
    assert(s1.open[s1.open.len() - 1] == txn);
    assert(0 <= i < s1.rows.len() && s1.rows[i].task.id == w.task_id());
    let k = choose|k: int| 0 <= k < s1.rows.len() && s1.rows[k].task.id == w.task_id();
    if k != i {
        assert(s0.rows[k].task.id == s0.rows[i].task.id);
    }
    if locked_by_other(s1, txn, w.task_id()) {
        let m = choose|m: int| 0 <= m < s1.rows.len() && s1.rows[m].task.id == w.task_id()
            && s1.rows[m].holder is Some && s1.rows[m].holder != Some(txn);
        if m != i {
            assert(s0.rows[m].task.id == s0.rows[i].task.id);
        }
    }
}

/// Where no task is claimable, a claim returns nothing and leaves every row
/// as it was; so a second claim at the same time does exactly the same.
pub proof fn lemma_empty_claim_idempotent(
    s0: StoreView,
    now: i64,
    s1: StoreView,
    r1: Result<Option<WorkerTask<OpenTask>>, Error>,
    s2: StoreView,
    r2: Result<Option<WorkerTask<OpenTask>>, Error>,
)
    requires
        s0.wf(),
        !s0.has_claimable(now),
        s0.open.len() < s0.capacity,
        s0.next_txn < u64::MAX - 1,
        claim_outcome(s0, now, s1, r1),
        claim_outcome(s1, now, s2, r2),
    ensures
        r1 == Ok::<Option<WorkerTask<OpenTask>>, Error>(None),
        r2 == Ok::<Option<WorkerTask<OpenTask>>, Error>(None),
        s1.rows == s0.rows,
        s2.rows == s0.rows,
{
}

} // verus!
