use agent_space::error::AgentSpaceError;
use agent_space::executor::{route_action, ActionOutcome, AgentExecutor, BackendRequest, Route};
use agent_space::messaging::MessageType;
use agent_space::types::{ActionStatus, ActionType, AgentAction, AgentConfig, PythonAgentConfig};

fn config(max: u32) -> AgentConfig {
    let mut c = AgentConfig::default();
    c.max_concurrent_actions = max;
    c.timeout_seconds = 1;
    c
}

fn action(kind: ActionType) -> AgentAction {
    AgentAction::new(1, kind, "{\"k\":1}".to_string())
}

#[test]
fn concurrency_bound_holds() {
    let mut e = AgentExecutor::new(1, config(2));
    e.start();
    for _ in 0..5 {
        e.execute_action(action(ActionType::ReadData("a".to_string()))).unwrap();
    }
    let mut dispatched = Vec::new();
    for t in 0..5 {
        if let Some(d) = e.dispatch_next(100, t) {
            dispatched.push(d);
        }
        assert!(e.get_active_actions().len() <= 2);
    }
    assert_eq!(dispatched.len(), 2);
    assert_eq!(e.queued_count(), 3);
    let d = dispatched.remove(0);
    let c = e.complete(d.action, ActionOutcome::Succeeded("{}".to_string()), 101, 5).unwrap();
    assert!(c.result.success);
    assert_eq!(e.active_count(), 1);
    assert!(e.dispatch_next(102, 10).is_some());
    assert_eq!(e.active_count(), 2);
}

#[test]
fn dispatch_builds_context_and_runs_action() {
    let mut e = AgentExecutor::new(9, config(1));
    e.start();
    let a = action(ActionType::WriteData("disk".to_string()));
    let id = a.id;
    e.execute_action(a).unwrap();
    let d = e.dispatch_next(500, 42).unwrap();
    assert_eq!(d.action.id, id);
    assert!(matches!(d.action.status, ActionStatus::Running));
    assert_eq!(d.action.started_at, 500);
    assert_eq!(d.context.action_id, id);
    assert_eq!(d.context.agent_id, 9);
    assert_eq!(d.context.started_at_ms, 42);
    assert_eq!(d.context.timeout_seconds, 1);
    assert_eq!(d.context.max_retries, 3);
    assert_eq!(d.context.retry_count, 0);
    match d.route {
        Route::Direct(r) => {
            assert_eq!(r.status, "data_written");
            assert_eq!(r.key, "destination");
            assert_eq!(r.value, "disk");
            assert_eq!(r.extra, Some(("data".to_string(), "{\"k\":1}".to_string())));
        }
        other => panic!("unexpected route {:?}", other),
    }
}

#[test]
fn timeout_produces_failed_result() {
    let mut e = AgentExecutor::new(1, config(1));
    e.start();
    e.execute_action(action(ActionType::GenerateText("hi".to_string()))).unwrap();
    let d = e.dispatch_next(10, 0).unwrap();
    let c = e.complete(d.action, ActionOutcome::TimedOut, 11, 1000).unwrap();
    assert!(!c.result.success);
    assert_eq!(c.result.error_message, Some("timed out".to_string()));
    assert_eq!(c.result.execution_time_ms, 1000);
    assert!(matches!(c.action.status, ActionStatus::Failed(ref m) if m == "timed out"));
    assert_eq!(c.action.completed_at, Some(11));
    assert!(matches!(c.announcement, MessageType::ActionFailed));
    assert_eq!(e.active_count(), 0);
}

#[test]
fn stop_cancels_inflight() {
    let mut e = AgentExecutor::new(1, config(3));
    e.start();
    for _ in 0..3 {
        e.execute_action(action(ActionType::ReadData("a".to_string()))).unwrap();
    }
    let mut ds = Vec::new();
    for t in 0..3 {
        ds.push(e.dispatch_next(1, t).unwrap());
    }
    assert_eq!(e.get_active_actions().len(), 3);
    let cancelled = e.stop();
    assert_eq!(cancelled.len(), 3);
    for (c, d) in cancelled.iter().zip(ds.iter()) {
        assert!(matches!(c.current_status, ActionStatus::Cancelled));
        assert_eq!(c.action_id, d.action.id);
    }
    assert!(e.get_active_actions().is_empty());
    // An outcome that arrives for a cancelled action is dropped.
    let d = ds.remove(0);
    assert!(e.complete(d.action, ActionOutcome::Succeeded("{}".to_string()), 2, 1).is_none());
    assert_eq!(
        e.execute_action(action(ActionType::ReadData("a".to_string()))),
        Err(AgentSpaceError::NotRunning)
    );
}

#[test]
fn queue_is_bounded() {
    let mut e = AgentExecutor::new(1, config(1));
    e.start();
    for _ in 0..1000 {
        e.execute_action(action(ActionType::WatchFile("/tmp".to_string()))).unwrap();
    }
    assert_eq!(
        e.execute_action(action(ActionType::WatchFile("/tmp".to_string()))),
        Err(AgentSpaceError::QueueFull)
    );
}

#[test]
fn ai_actions_need_a_backend() {
    let input = "{}".to_string();
    assert!(matches!(
        route_action(&ActionType::GenerateText("p".to_string()), &input, false),
        Route::Unavailable
    ));
    match route_action(&ActionType::RunLangGraph("g".to_string()), &input, true) {
        Route::Backend(BackendRequest::RunGraph(c, i)) => {
            assert_eq!(c, "g");
            assert_eq!(i, "{}");
        }
        other => panic!("unexpected route {:?}", other),
    }
    let mut c = config(1);
    c.python_config = Some(PythonAgentConfig {
        entry_point: "main.py".to_string(),
        requirements: Vec::new(),
        virtual_env: None,
        langchain_config: None,
        langgraph_config: None,
    });
    let mut e = AgentExecutor::new(1, c);
    e.start();
    e.execute_action(action(ActionType::AnalyzeText("text".to_string()))).unwrap();
    let d = e.dispatch_next(1, 1).unwrap();
    assert!(matches!(d.route, Route::Backend(BackendRequest::AnalyzeText(ref t)) if t == "text"));

    let mut e = AgentExecutor::new(1, config(1));
    e.start();
    e.execute_action(action(ActionType::RunLangChain("c".to_string()))).unwrap();
    let d = e.dispatch_next(1, 1).unwrap();
    assert!(matches!(d.route, Route::Unavailable));
    let c = e.complete(d.action, ActionOutcome::Unavailable, 2, 0).unwrap();
    assert_eq!(c.result.error_message, Some("action backend unavailable".to_string()));
}

#[test]
fn failure_outcome_keeps_message() {
    let mut e = AgentExecutor::new(1, config(1));
    e.start();
    e.execute_action(action(ActionType::Custom("x".to_string(), "{}".to_string()))).unwrap();
    let d = e.dispatch_next(1, 1).unwrap();
    match &d.route {
        Route::Direct(r) => {
            assert_eq!(r.status, "custom_action_executed");
            assert_eq!(r.extra, Some(("params".to_string(), "{}".to_string())));
        }
        other => panic!("unexpected route {:?}", other),
    }
    let c = e.complete(d.action, ActionOutcome::Failed("boom".to_string()), 2, 7).unwrap();
    assert!(!c.result.success);
    assert_eq!(c.result.execution_time_ms, 7);
    assert_eq!(c.action.error_message, Some("boom".to_string()));
}
