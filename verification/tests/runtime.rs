use mercury::agent::runtime::{AgentRuntime, AgentRuntimeEngine, SlotState, TaskType};

#[test]
fn test_idle_to_running() {
    let mut engine = AgentRuntimeEngine::new(TaskType::Summary);
    assert!(engine.submit(42).is_none());
    assert_eq!(*engine.state(), SlotState::Running { entry_id: 42 });
}

#[test]
fn test_running_to_running_with_waiting() {
    let mut engine = AgentRuntimeEngine::new(TaskType::Summary);
    engine.submit(42);
    assert!(engine.submit(99).is_none());
    assert_eq!(*engine.state(), SlotState::RunningWithWaiting { running: 42, waiting: 99 });
}

#[test]
fn test_replace_waiting() {
    let mut engine = AgentRuntimeEngine::new(TaskType::Summary);
    engine.submit(42);
    engine.submit(99);
    let replaced = engine.submit(77);
    assert_eq!(replaced, Some(99));
    assert_eq!(*engine.state(), SlotState::RunningWithWaiting { running: 42, waiting: 77 });
}

#[test]
fn test_complete_promotes_waiting() {
    let mut engine = AgentRuntimeEngine::new(TaskType::Summary);
    engine.submit(42);
    engine.submit(99);
    let (completed, promoted) = engine.complete();
    assert_eq!(completed, Some(42));
    assert_eq!(promoted, Some(99));
    assert_eq!(*engine.state(), SlotState::Running { entry_id: 99 });
}

#[test]
fn test_complete_returns_to_idle() {
    let mut engine = AgentRuntimeEngine::new(TaskType::Summary);
    engine.submit(42);
    let (completed, promoted) = engine.complete();
    assert_eq!(completed, Some(42));
    assert_eq!(promoted, None);
    assert_eq!(*engine.state(), SlotState::Idle);
}

#[test]
fn test_runtime_multiple_types() {
    let mut rt = AgentRuntime::new();
    rt.submit(42, TaskType::Summary);
    rt.submit(99, TaskType::Translation);

    let summary_status = rt.get_status(TaskType::Summary);
    assert_eq!(summary_status.state, "running");
    assert_eq!(summary_status.current_entry_id, Some(42));

    let trans_status = rt.get_status(TaskType::Translation);
    assert_eq!(trans_status.state, "running");
    assert_eq!(trans_status.current_entry_id, Some(99));
}

#[test]
fn complete_when_idle_does_nothing() {
    let mut engine = AgentRuntimeEngine::new(TaskType::Tagging);
    assert_eq!(engine.complete(), (None, None));
    assert_eq!(*engine.state(), SlotState::Idle);
}

#[test]
fn status_reports_waiting_queue() {
    let mut rt = AgentRuntime::new();
    rt.submit(1, TaskType::Tagging);
    rt.submit(2, TaskType::Tagging);
    let status = rt.get_status(TaskType::Tagging);
    assert_eq!(status.agent_type, "tagging");
    assert_eq!(status.state, "running_waiting");
    assert_eq!(status.current_entry_id, Some(1));
    assert_eq!(status.queue_depth, 1);
    let idle = rt.get_status(TaskType::Summary);
    assert_eq!(idle.state, "idle");
    assert_eq!(idle.current_entry_id, None);
    assert_eq!(idle.queue_depth, 0);
    assert_eq!(rt.get_state(TaskType::Summary), Some(&SlotState::Idle));
}

#[test]
fn task_type_names() {
    assert_eq!(TaskType::Summary.as_str(), "summary");
    assert_eq!(TaskType::Translation.as_str(), "translation");
    assert_eq!(TaskType::Tagging.as_str(), "tagging");
}
