use task_worker::error::Error;
use task_worker::lifecycle::{OpenTask, RunningTask, WorkerTask, WorkerTaskState};
use task_worker::scheduler::{Action, ClaimOutcome, Scheduler, POLL_BACKOFF_MS};
use task_worker::store::{StoreError, TaskStore};
use task_worker::task::{Task, TaskState, TaskType};

const NOW: i64 = 1_700_000_000;

fn runtime() -> tokio::runtime::Runtime {
    tokio::runtime::Runtime::new().unwrap()
}

fn store_with(capacity: usize, tasks: &[Task]) -> TaskStore {
    let mut store = TaskStore::new(capacity);
    for t in tasks {
        t.insert(&mut store).unwrap();
    }
    store
}

fn claim(store: &mut TaskStore, now: i64) -> WorkerTask<OpenTask> {
    WorkerTask::get_open_task_at(store, now).unwrap().unwrap()
}

fn start_with_value(
    rt: &tokio::runtime::Runtime,
    store: &mut TaskStore,
    open: WorkerTask<OpenTask>,
    value: u32,
) -> WorkerTask<RunningTask<u32>> {
    open.start(store, |_id, _ty| rt.spawn(async move { Ok::<u32, Error>(value) }))
        .unwrap()
}

fn state_of(store: &TaskStore, id: u128) -> TaskState {
    Task::get(id, store).unwrap().unwrap().task_state
}

#[test]
fn names_of_types_and_states() {
    assert_eq!(TaskType::A.as_str(), "A");
    assert_eq!(TaskType::C.to_string(), "C");
    assert_eq!(TaskState::Open.as_str(), "Open");
    assert_eq!(TaskState::Successful.to_string(), "Successful");
    assert_eq!(TaskState::default(), TaskState::Open);
}

#[test]
fn lifecycle_edges() {
    assert!(TaskState::Open.can_transition_to(TaskState::Running));
    assert!(TaskState::Running.can_transition_to(TaskState::Aborted));
    assert!(TaskState::Running.can_transition_to(TaskState::Failed));
    assert!(TaskState::Running.can_transition_to(TaskState::Successful));
    assert!(!TaskState::Open.can_transition_to(TaskState::Successful));
    assert!(!TaskState::Successful.can_transition_to(TaskState::Running));
    assert!(!TaskState::Running.can_transition_to(TaskState::Open));
    assert!(TaskState::Failed.is_terminal());
    assert!(!TaskState::Running.is_terminal());
}

#[test]
fn validate_state_accepts_only_open() {
    assert!(OpenTask::validate_state(TaskState::Open).is_ok());
    assert!(matches!(OpenTask::validate_state(TaskState::Running), Err(Error::TaskStateError)));
    assert!(matches!(
        task_worker::lifecycle::AbortedTask::validate_state(TaskState::Open),
        Err(Error::TaskStateError)
    ));
}

#[test]
fn record_api_insert_get_delete() {
    let mut store = TaskStore::new(1);
    let t = Task::new(1, TaskType::B, NOW);
    assert_eq!(t.task_state, TaskState::Open);
    assert_eq!(t.insert(&mut store), Ok(()));
    assert_eq!(t.insert(&mut store), Err(StoreError::DuplicateId));
    assert_eq!(Task::get(1, &store).unwrap(), Some(t));
    assert_eq!(Task::get(2, &store).unwrap(), None);
    assert_eq!(Task::delete(1, &mut store), Ok(()));
    assert_eq!(Task::delete(1, &mut store), Ok(()));
    assert_eq!(Task::get(1, &store).unwrap(), None);
}

#[test]
fn record_api_filters_by_type_and_state() {
    let a = Task::new(1, TaskType::A, NOW);
    let b = Task::new(2, TaskType::B, NOW);
    let c = Task { task_state: TaskState::Failed, ..Task::new(3, TaskType::A, NOW) };
    let store = store_with(1, &[a, b, c]);
    assert_eq!(Task::get_filtered(None, None, &store).unwrap(), vec![a, b, c]);
    assert_eq!(Task::get_filtered(Some(TaskType::A), None, &store).unwrap(), vec![a, c]);
    assert_eq!(Task::get_filtered(None, Some(TaskState::Open), &store).unwrap(), vec![a, b]);
    assert_eq!(Task::get_filtered(Some(TaskType::A), Some(TaskState::Open), &store).unwrap(), vec![a]);
    assert_eq!(Task::get_filtered(Some(TaskType::C), None, &store).unwrap(), vec![]);
}

#[test]
fn claim_takes_oldest_due_task() {
    let late = Task::new(1, TaskType::A, NOW - 10);
    let early = Task::new(2, TaskType::B, NOW - 100);
    let future = Task::new(3, TaskType::C, NOW - 500 + 3600);
    let done = Task { task_state: TaskState::Successful, ..Task::new(4, TaskType::A, NOW - 1000) };
    let mut store = store_with(4, &[late, early, future, done]);
    let first = claim(&mut store, NOW);
    assert_eq!(first.id(), 2);
    assert_eq!(first.task_type(), TaskType::B);
    assert_eq!(first.sched_datetime(), NOW - 100);
    let second = claim(&mut store, NOW);
    assert_eq!(second.id(), 1);
    assert!(WorkerTask::get_open_task_at(&mut store, NOW).unwrap().is_none());
    assert_eq!(store.open_transactions(), 2);
}

#[test]
fn concurrent_claims_never_share_a_task() {
    let tasks: Vec<Task> = (0..5u128).map(|i| Task::new(i, TaskType::A, NOW - 1)).collect();
    let mut store = store_with(6, &tasks);
    let mut seen = Vec::new();
    for _ in 0..5 {
        let w = claim(&mut store, NOW);
        assert!(!seen.contains(&w.id()));
        seen.push(w.id());
    }
    assert!(WorkerTask::get_open_task_at(&mut store, NOW).unwrap().is_none());
}

#[test]
fn claimed_task_runs_after_start() {
    let rt = runtime();
    let mut store = store_with(1, &[Task::new(9, TaskType::A, NOW - 1)]);
    let open = claim(&mut store, NOW);
    let txn = open.transaction();
    let running = start_with_value(&rt, &mut store, open, 1);
    assert_eq!(store.seen_state(txn, 9), Some(TaskState::Running));
    assert_eq!(state_of(&store, 9), TaskState::Open);
    drop(running);
}

#[test]
fn empty_claim_is_idempotent() {
    let future = Task::new(1, TaskType::A, NOW + 3600);
    let mut store = store_with(1, &[future]);
    for _ in 0..3 {
        assert!(WorkerTask::get_open_task_at(&mut store, NOW).unwrap().is_none());
        assert_eq!(Task::get(1, &store).unwrap(), Some(future));
        assert_eq!(store.open_transactions(), 0);
    }
}

#[test]
fn from_task_rejects_non_open_record() {
    let t = Task { task_state: TaskState::Running, ..Task::new(5, TaskType::A, NOW) };
    assert!(matches!(WorkerTask::from_task(t, 0), Err(Error::TaskStateError)));
    let ok = WorkerTask::from_task(Task::new(5, TaskType::A, NOW), 3).unwrap();
    assert_eq!(ok.id(), 5);
    assert_eq!(ok.transaction(), 3);
}

#[test]
fn start_fails_when_record_is_not_open() {
    let rt = runtime();
    let stale = Task { task_state: TaskState::Failed, ..Task::new(7, TaskType::A, NOW - 1) };
    let mut store = store_with(1, &[stale]);
    let txn = store.begin().unwrap();
    let open = WorkerTask::from_task(Task::new(7, TaskType::A, NOW - 1), txn).unwrap();
    let r = open.start(&mut store, |_id, _ty| rt.spawn(async { Ok::<u32, Error>(0) }));
    assert!(matches!(r, Err(Error::TaskStateError)));
    assert_eq!(Task::get(7, &store).unwrap(), Some(stale));
    assert_eq!(store.open_transactions(), 0);
}

#[test]
fn finish_records_success_and_commits() {
    let rt = runtime();
    let mut store = store_with(1, &[Task::new(1, TaskType::A, NOW - 1)]);
    let open = claim(&mut store, NOW);
    let mut running = start_with_value(&rt, &mut store, open, 42);
    let joined = rt.block_on(running.handle_mut());
    assert!(running.is_finished());
    let finished = running.finish(&mut store, joined).unwrap();
    assert_eq!(state_of(&store, 1), TaskState::Successful);
    assert_eq!(store.open_transactions(), 0);
    assert_eq!(finished.into_result().unwrap(), 42);
}

#[test]
fn finish_records_failure_and_commits() {
    let rt = runtime();
    let mut store = store_with(1, &[Task::new(1, TaskType::A, NOW - 1)]);
    let open = claim(&mut store, NOW);
    let mut running: WorkerTask<RunningTask<u32>> = open
        .start(&mut store, |_id, _ty| rt.spawn(async { Err(Error::TaskStateError) }))
        .unwrap();
    let joined = rt.block_on(running.handle_mut());
    let finished = running.finish(&mut store, joined).unwrap();
    assert_eq!(state_of(&store, 1), TaskState::Failed);
    assert_eq!(store.open_transactions(), 0);
    assert!(matches!(finished.into_result(), Err(Error::TaskStateError)));
}

#[test]
fn finish_after_join_error_rolls_back() {
    let rt = runtime();
    let mut store = store_with(1, &[Task::new(1, TaskType::A, NOW - 1)]);
    let open = claim(&mut store, NOW);
    let mut running: WorkerTask<RunningTask<u32>> = open
        .start(&mut store, |_id, _ty| {
            rt.spawn(async {
                tokio::time::sleep(std::time::Duration::from_secs(30)).await;
                Ok::<u32, Error>(0)
            })
        })
        .unwrap();
    running.handle_mut().abort();
    let joined = rt.block_on(running.handle_mut());
    assert!(joined.is_err());
    let r = running.finish(&mut store, joined);
    assert!(matches!(r, Err(Error::JoinError(_))));
    assert_eq!(state_of(&store, 1), TaskState::Open);
    assert_eq!(store.open_transactions(), 0);
}

#[test]
fn abort_records_aborted_and_commits() {
    let rt = runtime();
    let mut store = store_with(1, &[Task::new(1, TaskType::A, NOW - 1)]);
    let open = claim(&mut store, NOW);
    let running: WorkerTask<RunningTask<u32>> = open
        .start(&mut store, |_id, _ty| {
            rt.spawn(async {
                tokio::time::sleep(std::time::Duration::from_secs(30)).await;
                Ok::<u32, Error>(0)
            })
        })
        .unwrap();
    let aborted = running.abort(&mut store).unwrap();
    assert_eq!(aborted.id(), 1);
    assert_eq!(state_of(&store, 1), TaskState::Aborted);
    assert_eq!(store.open_transactions(), 0);
    assert!(WorkerTask::get_open_task_at(&mut store, NOW).unwrap().is_none());
}

#[test]
fn finish_after_delete_affects_no_row() {
    let rt = runtime();
    let mut store = store_with(1, &[Task::new(1, TaskType::A, NOW - 1)]);
    let open = claim(&mut store, NOW);
    let mut running = start_with_value(&rt, &mut store, open, 3);
    assert_eq!(Task::delete(1, &mut store), Ok(()));
    let joined = rt.block_on(running.handle_mut());
    assert!(running.finish(&mut store, joined).is_ok());
    assert_eq!(Task::get(1, &store).unwrap(), None);
    assert_eq!(store.open_transactions(), 0);
}

#[test]
fn pool_timeout_and_transaction_errors() {
    let mut store = TaskStore::new(1);
    let txn = store.begin().unwrap();
    assert_eq!(store.begin(), Err(StoreError::PoolTimedOut));
    assert_eq!(store.commit(txn), Ok(()));
    assert_eq!(store.commit(txn), Err(StoreError::TransactionClosed));
    assert_eq!(store.rollback(txn), Err(StoreError::TransactionClosed));
    assert_eq!(store.claim_one(txn, NOW), Err(StoreError::TransactionClosed));
    assert_eq!(store.update_state(txn, 1, TaskState::Running), Err(StoreError::TransactionClosed));
    assert!(matches!(
        WorkerTask::get_open_task_at(&mut TaskStore::new(0), NOW),
        Err(Error::StoreError(StoreError::PoolTimedOut))
    ));
}

#[test]
fn update_of_row_held_by_another_transaction_fails() {
    let mut store = store_with(2, &[Task::new(1, TaskType::A, NOW - 1)]);
    let t1 = store.begin().unwrap();
    let t2 = store.begin().unwrap();
    assert_eq!(store.claim_one(t1, NOW).unwrap().map(|t| t.id), Some(1));
    assert_eq!(store.update_state(t2, 1, TaskState::Failed), Err(StoreError::RowLocked));
    assert_eq!(store.update_state(t2, 99, TaskState::Failed), Ok(0));
    assert_eq!(store.update_state(t1, 1, TaskState::Running), Ok(1));
    assert_eq!(store.rollback(t1), Ok(()));
    assert_eq!(state_of(&store, 1), TaskState::Open);
}

/// Drives one scheduler cycle over `store`, with bodies that return their
/// task's id; returns each finished body's outcome.
fn run_cycle(rt: &tokio::runtime::Runtime, store: &mut TaskStore, max_tasks: usize, now: i64) -> Vec<u128> {
    let mut scheduler = Scheduler::new(max_tasks);
    let mut running: Vec<WorkerTask<RunningTask<u128>>> = Vec::new();
    let mut results = Vec::new();
    loop {
        match scheduler.next_action() {
            Action::Claim => {
                let outcome = match WorkerTask::get_open_task_at(store, now) {
                    Ok(Some(open)) => {
                        match open.start(store, |id, _ty| rt.spawn(async move { Ok::<u128, Error>(id) })) {
                            Ok(r) => {
                                running.push(r);
                                ClaimOutcome::Started
                            }
                            Err(_) => ClaimOutcome::StartFailed,
                        }
                    }
                    _ => ClaimOutcome::NotFound,
                };
                scheduler.claimed(outcome);
            }
            Action::Finish(i) => {
                assert_eq!(i, results.len());
                let mut task = running.remove(0);
                let joined = rt.block_on(task.handle_mut());
                let value = task.finish(store, joined).unwrap().into_result().unwrap();
                results.push(value);
                scheduler.finished();
            }
            Action::Restart => return results,
        }
    }
}

#[test]
fn scheduler_cycle_decisions() {
    let mut s = Scheduler::new(2);
    assert_eq!(s.max_tasks(), 2);
    assert_eq!(s.next_action(), Action::Claim);
    assert!(!s.claimed(ClaimOutcome::Started));
    assert_eq!(s.next_action(), Action::Claim);
    assert!(s.claimed(ClaimOutcome::NotFound));
    assert_eq!(s.next_action(), Action::Finish(0));
    s.finished();
    assert_eq!(s.next_action(), Action::Restart);
    s.restart();
    assert_eq!(s.next_action(), Action::Claim);
    assert!(!s.claimed(ClaimOutcome::StartFailed));
    assert!(!s.claimed(ClaimOutcome::StartFailed));
    assert_eq!(s.next_action(), Action::Restart);
    assert_eq!(POLL_BACKOFF_MS, 500);
}

#[test]
fn five_tasks_run_concurrently_with_enough_connections() {
    let rt = runtime();
    let tasks: Vec<Task> = (0..5u128).map(|i| Task::new(i, TaskType::B, NOW - 1)).collect();
    let mut store = store_with(5, &tasks);
    let mut done = run_cycle(&rt, &mut store, 5, NOW);
    done.sort();
    assert_eq!(done, vec![0, 1, 2, 3, 4]);
    for i in 0..5u128 {
        assert_eq!(state_of(&store, i), TaskState::Successful);
    }
    assert_eq!(store.open_transactions(), 0);
}

#[test]
fn too_few_connections_stall_until_restored() {
    let rt = runtime();
    let tasks: Vec<Task> = (0..5u128).map(|i| Task::new(i, TaskType::B, NOW - 1)).collect();
    let mut store = store_with(4, &tasks);
    let done = run_cycle(&rt, &mut store, 5, NOW);
    assert_eq!(done.len(), 4);
    assert_eq!(Task::get_filtered(None, Some(TaskState::Open), &store).unwrap().len(), 1);
    store.set_pool_capacity(5);
    let rest = run_cycle(&rt, &mut store, 5, NOW);
    assert_eq!(rest.len(), 1);
    assert_eq!(Task::get_filtered(None, Some(TaskState::Successful), &store).unwrap().len(), 5);
}

#[test]
fn end_to_end_due_task_succeeds_and_future_task_waits() {
    let rt = runtime();
    let mut store = TaskStore::new(1);
    Task::new(10, TaskType::A, NOW - 1).insert(&mut store).unwrap();
    assert_eq!(state_of(&store, 10), TaskState::Open);
    let open = claim(&mut store, NOW);
    let txn = open.transaction();
    let mut running = open
        .start(&mut store, |id, _ty| rt.spawn(async move { Ok::<u128, Error>(id * 2) }))
        .unwrap();
    assert_eq!(store.seen_state(txn, 10), Some(TaskState::Running));
    let joined = rt.block_on(running.handle_mut());
    let finished = running.finish(&mut store, joined).unwrap();
    assert_eq!(state_of(&store, 10), TaskState::Successful);
    assert_eq!(finished.into_result().unwrap(), 20);

    Task::new(11, TaskType::B, NOW + 3600).insert(&mut store).unwrap();
    let done = run_cycle(&rt, &mut store, 1, NOW);
    assert!(done.is_empty());
    assert_eq!(state_of(&store, 11), TaskState::Open);
}

#[test]
fn get_open_task_uses_the_clock() {
    let mut store = store_with(1, &[Task::new(1, TaskType::A, 0), Task::new(2, TaskType::A, i64::MAX)]);
    let w = WorkerTask::get_open_task(&mut store).unwrap().unwrap();
    assert_eq!(w.id(), 1);
    assert!(WorkerTask::get_open_task(&mut TaskStore::new(1)).unwrap().is_none());
}
