//! The batch scheduler's decisions. A cycle first fills up to `max_tasks`
//! slots, one claim each, then finishes every task that it started, and
//! only then starts the next cycle. The caller performs each action and
//! reports back.
use vstd::prelude::*;
use crate::store::StoreView;

verus! {

/// How long to wait after a claim that found nothing, in milliseconds.
pub const POLL_BACKOFF_MS: u64 = 500;

/// What the caller is to do next.
#[derive(Clone, Copy, Debug, PartialEq, Eq, Structural)]
pub enum Action {
    /// Claim a task for the next slot and start it.
    Claim,
    /// Await the `i`th task started in this cycle and finish it.
    Finish(usize),
    /// Every started task is finished: begin the next cycle.
    Restart,
}

/// How a slot's claim went.
#[derive(Clone, Copy, Debug, PartialEq, Eq, Structural)]
pub enum ClaimOutcome {
    /// A task was claimed and started.
    Started,
    /// No task was due, or the claim failed.
    NotFound,
    /// A task was claimed but could not be started.
    StartFailed,
}

pub struct Scheduler {
    max_tasks: usize,
    slot: usize,
    started: usize,
    finished: usize,
}

/// The counters of a cycle: slots claimed, tasks started, tasks finished.
pub struct SchedulerView {
    pub max_tasks: nat,
    pub slot: nat,
    pub started: nat,
    pub finished: nat,
}

impl SchedulerView {
    pub open spec fn wf(self) -> bool {
        0 < self.max_tasks && self.finished <= self.started && self.started <= self.slot && self.slot <= self.max_tasks
    }

    /// How many started tasks still hold their transactions.
    pub open spec fn in_flight(self) -> nat {
        (self.started - self.finished) as nat
    }

    pub open spec fn action(self) -> Action {
        if self.slot < self.max_tasks {
            Action::Claim
        } else if self.finished < self.started {
            Action::Finish(self.finished as usize)
        } else {
            Action::Restart
        }
    }
}

impl View for Scheduler {
    type V = SchedulerView;

    closed spec fn view(&self) -> SchedulerView {
        SchedulerView {
            max_tasks: self.max_tasks as nat,
            slot: self.slot as nat,
            started: self.started as nat,
            finished: self.finished as nat,
        }
    }
}

impl Scheduler {
    /// A scheduler that runs up to `max_tasks` tasks at once.
    pub fn new(max_tasks: usize) -> (r: Scheduler)
        requires
            max_tasks > 0,
        ensures
            r@ == (SchedulerView { max_tasks: max_tasks as nat, slot: 0, started: 0, finished: 0 }),
            r@.wf(),
    {
        Scheduler { max_tasks, slot: 0, started: 0, finished: 0 }
    }

    pub fn max_tasks(&self) -> (r: usize)
        ensures
            r == self@.max_tasks,
    {
        self.max_tasks
    }

    pub fn next_action(&self) -> (r: Action)
        requires
            self@.wf(),
        ensures
            r == self@.action(),
    {
        if self.slot < self.max_tasks {
            Action::Claim
        } else if self.finished < self.started {
            Action::Finish(self.finished)
        } else {
            Action::Restart
        }
    }

    /// Records how the current slot's claim went; returns whether to wait
    /// `POLL_BACKOFF_MS` before the next one.
    pub fn claimed(&mut self, outcome: ClaimOutcome) -> (sleep: bool)
        requires
            old(self)@.wf(),
            old(self)@.action() == Action::Claim,
        ensures
            final(self)@.wf(),
            sleep == (outcome == ClaimOutcome::NotFound),
            final(self)@ == (SchedulerView {
                slot: old(self)@.slot + 1,
                started: if outcome == ClaimOutcome::Started { old(self)@.started + 1 } else { old(self)@.started },
                ..old(self)@
            }),
    {
        self.slot = self.slot + 1;
        match outcome {
            ClaimOutcome::Started => {
                self.started = self.started + 1;
                false
            },
            ClaimOutcome::NotFound => true,
            ClaimOutcome::StartFailed => false,
        }
    }

    /// Records that the task that `Finish` named has been finished, whether
    /// or not finishing it succeeded.
    pub fn finished(&mut self)
        requires
            old(self)@.wf(),
            old(self)@.action() is Finish,
        ensures
            final(self)@.wf(),
            final(self)@ == (SchedulerView { finished: old(self)@.finished + 1, ..old(self)@ }),
    {
        self.finished = self.finished + 1;
    }

    /// Begins the next cycle.
    pub fn restart(&mut self)
        requires
            old(self)@.wf(),
            old(self)@.action() == Action::Restart,
        ensures
            final(self)@.wf(),
            final(self)@ == (SchedulerView { max_tasks: old(self)@.max_tasks, slot: 0, started: 0, finished: 0 }),
    {
        self.slot = 0;
        self.started = 0;
        self.finished = 0;
    }
}

/// A cycle never holds more than `max_tasks` started tasks, and it claims
/// again only once every task that it started has been finished.
pub proof fn lemma_batch_barrier(s: SchedulerView)
    requires
        s.wf(),
    ensures
        s.in_flight() <= s.max_tasks,
        s.action() == Action::Claim ==> s.slot < s.max_tasks,
        s.action() == Action::Restart ==> s.in_flight() == 0,
        s.action() is Finish ==> s.slot == s.max_tasks && s.in_flight() > 0,
{
}

/// Where the pool serves at least `max_tasks` transactions and only this
/// scheduler's started tasks hold some, every claim finds a free
/// connection: no slot waits on the pool.
pub proof fn lemma_pool_never_exhausted(s: SchedulerView, store: StoreView)
    requires
        s.wf(),
        store.capacity >= s.max_tasks,
        store.open.len() == s.in_flight(),
        s.action() == Action::Claim,
    ensures
        store.open.len() < store.capacity,
{
}

} // verus!
