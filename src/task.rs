//! The task record and its two closed enumerations.
use vstd::prelude::*;

verus! {

/// The category of work a task stands for.
#[derive(Clone, Copy, Debug, PartialEq, Eq, Structural)]
pub enum TaskType {
    A,
    B,
    C,
}

/// The lifecycle state of a task record.
#[derive(Clone, Copy, Debug, PartialEq, Eq, Structural)]
pub enum TaskState {
    Open,
    Running,
    Aborted,
    Failed,
    Successful,
}

/// The name under which a task type is stored and shown.
pub open spec fn kind_name(t: TaskType) -> Seq<char> {
    match t {
        TaskType::A => "A"@,
        TaskType::B => "B"@,
        TaskType::C => "C"@,
    }
}

/// The name under which a task state is stored and shown.
pub open spec fn state_name(s: TaskState) -> Seq<char> {
    match s {
        TaskState::Open => "Open"@,
        TaskState::Running => "Running"@,
        TaskState::Aborted => "Aborted"@,
        TaskState::Failed => "Failed"@,
        TaskState::Successful => "Successful"@,
    }
}

/// The edges of the lifecycle: Open to Running, and Running to one of the
/// three terminal states.
pub open spec fn is_transition(from: TaskState, to: TaskState) -> bool {
    ||| from == TaskState::Open && to == TaskState::Running
    ||| from == TaskState::Running && is_terminal(to)
}

/// The states that no edge leaves.
pub open spec fn is_terminal(s: TaskState) -> bool {
    s == TaskState::Aborted || s == TaskState::Failed || s == TaskState::Successful
}

impl TaskType {
    pub fn as_str(&self) -> (r: &'static str)
        ensures
            r@ == kind_name(*self),
    {
        match self {
            TaskType::A => "A",
            TaskType::B => "B",
            TaskType::C => "C",
        }
    }

    pub fn to_string(&self) -> (r: String)
        ensures
            r@ == kind_name(*self),
    {
        self.as_str().to_owned()
    }
}

impl TaskState {
    pub fn as_str(&self) -> (r: &'static str)
        ensures
            r@ == state_name(*self),
    {
        match self {
            TaskState::Open => "Open",
            TaskState::Running => "Running",
            TaskState::Aborted => "Aborted",
            TaskState::Failed => "Failed",
            TaskState::Successful => "Successful",
        }
    }

    pub fn to_string(&self) -> (r: String)
        ensures
            r@ == state_name(*self),
    {
        self.as_str().to_owned()
    }

    pub fn is_terminal(&self) -> (r: bool)
        ensures
            r == is_terminal(*self),
    {
        matches!(self, TaskState::Aborted | TaskState::Failed | TaskState::Successful)
    }

    /// Whether the lifecycle has an edge from `self` to `to`.
    pub fn can_transition_to(&self, to: TaskState) -> (r: bool)
        ensures
            r == is_transition(*self, to),
    {
        match self {
            TaskState::Open => to == TaskState::Running,
            TaskState::Running => to.is_terminal(),
            _ => false,
        }
    }
}

impl Default for TaskState {
    fn default() -> (r: Self)
        ensures
            r == TaskState::Open,
    {
        TaskState::Open
    }
}

/// A persisted task: `sched_datetime` is in seconds since the Unix epoch,
/// read as a timestamp without time zone.
#[derive(Clone, Copy, Debug, PartialEq, Eq, Structural)]
pub struct Task {
    pub id: u128,
    pub task_type: TaskType,
    pub task_state: TaskState,
    pub sched_datetime: i64,
}

impl Task {
    /// A new record in the initial state.
    pub fn new(id: u128, task_type: TaskType, sched_datetime: i64) -> (r: Task)
        ensures
            r == (Task { id, task_type, task_state: TaskState::Open, sched_datetime }),
    {
        Task { id, task_type, task_state: TaskState::default(), sched_datetime }
    }

    /// Whether the task is Open and due at time `now`.
    pub open spec fn is_due(self, now: i64) -> bool {
        self.task_state == TaskState::Open && self.sched_datetime <= now
    }
}

} // verus!
