//! Agent task queue: one active slot and one waiting slot per task type,
//! where a newer waiting request replaces an older one.
use vstd::prelude::*;

verus! {

/// Agent task types.
#[derive(Debug, Clone, Copy, PartialEq, Eq, Hash, Structural)]
pub enum TaskType {
    Summary,
    Translation,
    Tagging,
}

/// The name under which a task type is stored and reported.
pub open spec fn task_type_name(t: TaskType) -> Seq<char> {
    match t {
        TaskType::Summary => "summary"@,
        TaskType::Translation => "translation"@,
        TaskType::Tagging => "tagging"@,
    }
}

impl TaskType {
    /// The name of the task type, as used in reports and settings.
    pub fn as_str(&self) -> (r: &'static str)
        ensures
            r@ == task_type_name(*self),
    {
        match self {
            TaskType::Summary => "summary",
            TaskType::Translation => "translation",
            TaskType::Tagging => "tagging",
        }
    }
}

/// State of an agent task slot.
#[derive(Debug, Clone, Copy, PartialEq, Eq, Structural)]
pub enum SlotState {
    Idle,
    Running { entry_id: i64 },
    RunningWithWaiting { running: i64, waiting: i64 },
}

/// The state after submitting `entry_id`, and the waiting entry it displaced.
pub open spec fn submit_next(s: SlotState, entry_id: i64) -> (SlotState, Option<i64>) {
    match s {
        SlotState::Idle => (SlotState::Running { entry_id }, None),
        SlotState::Running { entry_id: running } => (
            SlotState::RunningWithWaiting { running, waiting: entry_id },
            None,
        ),
        SlotState::RunningWithWaiting { running, waiting } => (
            SlotState::RunningWithWaiting { running, waiting: entry_id },
            Some(waiting),
        ),
    }
}

/// The state after completing the running task, with the completed and the promoted entry.
pub open spec fn complete_next(s: SlotState) -> (SlotState, (Option<i64>, Option<i64>)) {
    match s {
        SlotState::Idle => (SlotState::Idle, (None, None)),
        SlotState::Running { entry_id } => (SlotState::Idle, (Some(entry_id), None)),
        SlotState::RunningWithWaiting { running, waiting } => (
            SlotState::Running { entry_id: waiting },
            (Some(running), Some(waiting)),
        ),
    }
}

/// The entry currently being worked on, if any.
pub open spec fn running_entry(s: SlotState) -> Option<i64> {
    match s {
        SlotState::Idle => None,
        SlotState::Running { entry_id } => Some(entry_id),
        SlotState::RunningWithWaiting { running, .. } => Some(running),
    }
}

/// The entry waiting for the slot, if any.
pub open spec fn waiting_entry(s: SlotState) -> Option<i64> {
    match s {
        SlotState::RunningWithWaiting { waiting, .. } => Some(waiting),
        _ => None,
    }
}

/// The agent runtime engine: one per task type.
pub struct AgentRuntimeEngine {
    task_type: TaskType,
    state: SlotState,
}

impl AgentRuntimeEngine {
    /// The task type this engine serves.
    pub closed spec fn kind(&self) -> TaskType {
        self.task_type
    }

    /// The slot's current state.
    pub closed spec fn slot(&self) -> SlotState {
        self.state
    }

    pub fn new(task_type: TaskType) -> (r: Self)
        ensures
            r.kind() == task_type,
            r.slot() == SlotState::Idle,
    {
        Self { task_type, state: SlotState::Idle }
    }

    /// Submit a task. Returns the replaced waiting entry_id, if any.
    /// - If idle, the entry runs.
    /// - If running, the entry waits.
    /// - If running with a waiting entry, the new entry replaces the waiting one,
    ///   which is returned.
    pub fn submit(&mut self, entry_id: i64) -> (r: Option<i64>)
        ensures
            (final(self).slot(), r) == submit_next(old(self).slot(), entry_id),
            final(self).kind() == old(self).kind(),
    {
        match self.state {
            SlotState::Idle => {
                self.state = SlotState::Running { entry_id };
                None
            },
            SlotState::Running { entry_id: running } => {
                self.state = SlotState::RunningWithWaiting { running, waiting: entry_id };
                None
            },
            SlotState::RunningWithWaiting { running, waiting } => {
                self.state = SlotState::RunningWithWaiting { running, waiting: entry_id };
                Some(waiting)
            },
        }
    }

    /// Mark the running task complete, promoting the waiting one if present.
    /// Returns the completed entry_id and the promoted entry_id.
    pub fn complete(&mut self) -> (r: (Option<i64>, Option<i64>))
        ensures
            (final(self).slot(), r) == complete_next(old(self).slot()),
            final(self).kind() == old(self).kind(),
    {
        match self.state {
            SlotState::Running { entry_id } => {
                self.state = SlotState::Idle;
                (Some(entry_id), None)
            },
            SlotState::RunningWithWaiting { running, waiting } => {
                self.state = SlotState::Running { entry_id: waiting };
                (Some(running), Some(waiting))
            },
            SlotState::Idle => (None, None),
        }
    }

    pub fn state(&self) -> (r: &SlotState)
        ensures
            *r == self.slot(),
    {
        &self.state
    }
}

/// Submitting never disturbs the running task: the entry that runs keeps running, and
/// on an idle slot the submitted entry starts.
pub proof fn lemma_submit_keeps_running(s: SlotState, entry_id: i64)
    ensures
        running_entry(submit_next(s, entry_id).0) == match running_entry(s) {
            Some(r) => Some(r),
            None => Some(entry_id),
        },
{
}

/// Only the latest request waits: on a busy slot the submitted entry becomes the
/// waiting one, and the entry it displaces, if any, is the one returned.
pub proof fn lemma_latest_request_waits(s: SlotState, entry_id: i64)
    requires
        running_entry(s) is Some,
    ensures
        waiting_entry(submit_next(s, entry_id).0) == Some(entry_id),
        submit_next(s, entry_id).1 == waiting_entry(s),
{
}

/// Completing reports the finished and the promoted entry, and the waiting entry, if
/// any, starts running with nothing left waiting.
pub proof fn lemma_complete_promotes_waiting(s: SlotState)
    ensures
        complete_next(s).1 == (running_entry(s), waiting_entry(s)),
        running_entry(complete_next(s).0) == waiting_entry(s),
        waiting_entry(complete_next(s).0) is None,
{
}

/// At most one entry waits behind the running one, and one waits exactly when the
/// slot reports a queue depth of one.
pub proof fn lemma_queue_depth(s: SlotState)
    ensures
        queue_depth(s) <= 1,
        (queue_depth(s) == 1) == (waiting_entry(s) is Some),
        waiting_entry(s) is Some ==> running_entry(s) is Some,
{
}

/// A task submitted to an idle slot and then completed leaves the slot idle and is
/// reported as the completed one.
pub proof fn lemma_submit_then_complete(entry_id: i64)
    ensures
        complete_next(submit_next(SlotState::Idle, entry_id).0) == (
            SlotState::Idle,
            (Some(entry_id), None::<i64>),
        ),
{
}


/// Global agent runtime managing one engine for each task type.
pub struct AgentRuntime {
    summary: AgentRuntimeEngine,
    translation: AgentRuntimeEngine,
    tagging: AgentRuntimeEngine,
}

impl AgentRuntime {
    /// The slot of the engine that serves `t`.
    pub closed spec fn slot_of(&self, t: TaskType) -> SlotState {
        match t {
            TaskType::Summary => self.summary.slot(),
            TaskType::Translation => self.translation.slot(),
            TaskType::Tagging => self.tagging.slot(),
        }
    }

    /// Each engine serves the task type it is filed under.
    pub closed spec fn wf(&self) -> bool {
        &&& self.summary.kind() == TaskType::Summary
        &&& self.translation.kind() == TaskType::Translation
        &&& self.tagging.kind() == TaskType::Tagging
    }

    pub fn new() -> (r: Self)
        ensures
            r.wf(),
            forall|t: TaskType| #[trigger] r.slot_of(t) == SlotState::Idle,
    {
        Self {
            summary: AgentRuntimeEngine::new(TaskType::Summary),
            translation: AgentRuntimeEngine::new(TaskType::Translation),
            tagging: AgentRuntimeEngine::new(TaskType::Tagging),
        }
    }

    /// Submit `entry_id` to the engine of `task_type`; the other engines are untouched.
    pub fn submit(&mut self, entry_id: i64, task_type: TaskType) -> (r: Option<i64>)
        requires
            old(self).wf(),
        ensures
            final(self).wf(),
            (final(self).slot_of(task_type), r) == submit_next(old(self).slot_of(task_type), entry_id),
            forall|t: TaskType| t != task_type ==> #[trigger] final(self).slot_of(t) == old(self).slot_of(t),
    {
        match task_type {
            TaskType::Summary => self.summary.submit(entry_id),
            TaskType::Translation => self.translation.submit(entry_id),
            TaskType::Tagging => self.tagging.submit(entry_id),
        }
    }

    /// Complete the running task of `task_type`; the other engines are untouched.
    pub fn complete(&mut self, task_type: TaskType) -> (r: (Option<i64>, Option<i64>))
        requires
            old(self).wf(),
        ensures
            final(self).wf(),
            (final(self).slot_of(task_type), r) == complete_next(old(self).slot_of(task_type)),
            forall|t: TaskType| t != task_type ==> #[trigger] final(self).slot_of(t) == old(self).slot_of(t),
    {
        match task_type {
            TaskType::Summary => self.summary.complete(),
            TaskType::Translation => self.translation.complete(),
            TaskType::Tagging => self.tagging.complete(),
        }
    }

    /// The state of the slot of `task_type`; every task type has one.
    pub fn get_state(&self, task_type: TaskType) -> (r: Option<&SlotState>)
        ensures
            r matches Some(s) && *s == self.slot_of(task_type),
    {
        match task_type {
            TaskType::Summary => Some(self.summary.state()),
            TaskType::Translation => Some(self.translation.state()),
            TaskType::Tagging => Some(self.tagging.state()),
        }
    }

    /// The status report of the slot of `task_type`.
    pub fn get_status(&self, task_type: TaskType) -> (r: AgentStatusInfo)
        ensures
            r.agent_type@ == task_type_name(task_type),
            r.state@ == slot_state_name(self.slot_of(task_type)),
            r.current_entry_id == running_entry(self.slot_of(task_type)),
            r.queue_depth == queue_depth(self.slot_of(task_type)),
    {
        let state = self.get_state(task_type);
        let (state_str, current_id, queue_depth): (&str, Option<i64>, usize) = match state {
            Some(SlotState::Idle) => ("idle", None, 0),
            Some(SlotState::Running { entry_id }) => ("running", Some(*entry_id), 0),
            Some(SlotState::RunningWithWaiting { running, .. }) => ("running_waiting", Some(*running), 1),
            None => ("idle", None, 0),
        };
        AgentStatusInfo {
            agent_type: task_type.as_str().to_owned(),
            state: state_str.to_owned(),
            current_entry_id: current_id,
            queue_depth,
        }
    }
}

/// The name a slot state is reported under.
pub open spec fn slot_state_name(s: SlotState) -> Seq<char> {
    match s {
        SlotState::Idle => "idle"@,
        SlotState::Running { .. } => "running"@,
        SlotState::RunningWithWaiting { .. } => "running_waiting"@,
    }
}

/// How many entries wait behind the running one.
pub open spec fn queue_depth(s: SlotState) -> usize {
    match s {
        SlotState::RunningWithWaiting { .. } => 1,
        _ => 0,
    }
}

/// Agent status as reported to the user interface.
#[derive(Debug, Clone)]
pub struct AgentStatusInfo {
    pub agent_type: String,
    pub state: String,
    pub current_entry_id: Option<i64>,
    pub queue_depth: usize,
}

} // verus!
