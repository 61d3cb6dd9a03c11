use agent_space::builder::get_all_templates;
use agent_space::connectors::{FilesystemConnector, GoogleDriveConnector, NotionConnector};
use agent_space::error::{AgentSpaceError, ValidationError};
use agent_space::executor::{ActionOutcome, ExecutionResult};
use agent_space::manager::{
    count_statuses, get_template_type, status_to_string, string_to_status, AgentManager, AgentRecord,
};
use agent_space::messaging::{InterAgentMessage, MessageBus, MessageType};
use agent_space::migrations::{InitialMigration, Migration, MigrationRunner, MigrationStep};
use agent_space::orchestrator::{AgentOrchestrator, OrchestratorCommand};
use agent_space::scheduler::{AgentScheduler, ScheduleRule, ScheduleType};
use agent_space::security::{AuthContext, Permission, SecurityPolicy};
use agent_space::state::StateManager;
use agent_space::triggers::EventType;
use agent_space::types::{
    validate_agent, ActionStatus, ActionType, Agent, AgentAction, AgentConfig, AgentStatus,
    AgentTemplate, PersonalAssistantType,
};

fn assistant(name: &str) -> Agent {
    Agent::new(
        name.to_string(),
        AgentTemplate::PersonalAssistant { specialization: PersonalAssistantType::GeneralPurpose },
    )
}

fn orchestrator() -> AgentOrchestrator {
    AgentOrchestrator::new(AgentManager::new(), AgentScheduler::new(), MessageBus::new(100), StateManager::new())
}

#[test]
fn valid_agent_registers_ready() {
    let mut o = orchestrator();
    let a = assistant("helper");
    let id = a.id;
    assert_eq!(o.register_agent(a), Ok(id));
    assert!(matches!(o.agent_status(id), Some(AgentStatus::Ready)));
    assert_eq!(o.get_status(0).total_agents, 1);
}

#[test]
fn invalid_agents_are_refused() {
    let mut o = orchestrator();
    assert_eq!(
        o.register_agent(assistant("")),
        Err(AgentSpaceError::Validation(ValidationError::EmptyName))
    );
    let mut a = assistant("t");
    a.config.timeout_seconds = 0;
    assert_eq!(o.register_agent(a), Err(AgentSpaceError::Validation(ValidationError::ZeroTimeout)));
    let mut a = assistant("c");
    a.config.max_concurrent_actions = 0;
    assert_eq!(o.register_agent(a), Err(AgentSpaceError::Validation(ValidationError::ZeroConcurrency)));
    assert_eq!(o.get_status(0).total_agents, 0);
    assert!(o.agent_ids().is_empty());
    let a = assistant("dup");
    let b = Agent { name: "again".to_string(), ..assistant("x") };
    let b = Agent { id: a.id, ..b };
    let id = a.id;
    o.register_agent(a).unwrap();
    assert_eq!(o.register_agent(b), Err(AgentSpaceError::AlreadyExists(id)));
}

#[test]
fn validation_checks_in_order() {
    let mut a = assistant("");
    a.config.timeout_seconds = 0;
    assert_eq!(validate_agent(&a), Err(ValidationError::EmptyName));
    assert_eq!(validate_agent(&assistant("ok")), Ok(()));
}

#[test]
fn lifecycle_transitions() {
    let mut o = orchestrator();
    let a = assistant("worker");
    let id = a.id;
    o.register_agent(a).unwrap();
    assert_eq!(o.pause_agent(id), Err(AgentSpaceError::InvalidState(id)));
    assert_eq!(o.start_agent(id), Ok(()));
    assert!(matches!(o.agent_status(id), Some(AgentStatus::Running)));
    assert_eq!(o.get_status(0).running_agents, 1);
    assert_eq!(o.pause_agent(id), Ok(()));
    assert_eq!(o.get_status(0).paused_agents, 1);
    assert_eq!(o.resume_agent(id), Ok(()));
    let action = AgentAction::new(id, ActionType::ReadData("s".to_string()), "{}".to_string());
    assert_eq!(o.execute_action(id, action), Ok(()));
    let d = o.dispatch(id, 10, 10).unwrap().unwrap();
    let cancelled = o.stop_agent(id).unwrap();
    assert_eq!(cancelled.len(), 1);
    assert_eq!(cancelled[0].action_id, d.action.id);
    assert!(matches!(o.agent_status(id), Some(AgentStatus::Stopped)));
    assert_eq!(o.start_agent(id), Err(AgentSpaceError::InvalidState(id)));
    assert!(o.restart_agent(id).unwrap().is_empty());
    assert!(matches!(o.agent_status(id), Some(AgentStatus::Running)));
    assert_eq!(o.start_agent(77), Err(AgentSpaceError::NotRegistered(77)));
    assert!(o.remove_agent(id).unwrap().is_empty());
    assert_eq!(o.agent_status(id).is_none(), true);
    assert_eq!(o.remove_agent(id).unwrap_err(), AgentSpaceError::NotRegistered(id));
}

#[test]
fn commands_and_completion() {
    let mut o = orchestrator();
    o.start(1000);
    let a = assistant("cmd");
    let id = a.id;
    o.register_agent(a).unwrap();
    assert!(o.handle_command(OrchestratorCommand::StartAgent(id)).unwrap().is_empty());
    let action = AgentAction::new(id, ActionType::SendEmail("cfg".to_string()), "{}".to_string());
    o.handle_command(OrchestratorCommand::ExecuteAction(id, action)).unwrap();
    let d = o.dispatch(id, 1001, 5).unwrap().unwrap();
    let c = o
        .complete_action(id, d.action, ActionOutcome::Succeeded("{\"ok\":true}".to_string()), 1002, 40)
        .unwrap()
        .unwrap();
    assert!(matches!(c.announcement, MessageType::ActionCompleted));
    assert!(matches!(c.action.status, ActionStatus::Completed));
    assert_eq!(o.record_result(&c), Ok(()));
    assert_eq!(o.record_result(&c), Err(AgentSpaceError::AlreadyExists(c.action.id)));
    let status = o.get_status(1010);
    assert_eq!(status.total_actions_processed, 1);
    assert_eq!(status.uptime_seconds, 10);
    let msg = InterAgentMessage::broadcast(id, c.announcement, "{}".to_string());
    assert_eq!(o.send_message(msg), Ok(()));
    o.handle_command(OrchestratorCommand::Shutdown).unwrap();
    assert!(matches!(o.agent_status(id), Some(AgentStatus::Stopped)));
}

#[test]
fn scheduled_actions_reach_executor() {
    let mut sched = AgentScheduler::new();
    let a = assistant("cron");
    let id = a.id;
    let template = AgentAction::new(id, ActionType::ScheduleTask("t".to_string()), "{}".to_string());
    let rule = ScheduleRule::new(id, "every minute".to_string(), ScheduleType::Interval(60), template);
    sched.add_rule_at(id, rule, 0).unwrap();
    let mut o = AgentOrchestrator::new(AgentManager::new(), sched, MessageBus::new(10), StateManager::new());
    o.register_agent(a).unwrap();
    o.start(0);
    o.start_agent(id).unwrap();
    let (fired, outcomes) = o.tick(60);
    assert_eq!(fired.len(), 1);
    assert_eq!(outcomes, vec![Ok(())]);
    assert!(o.dispatch(id, 60, 0).unwrap().is_some());
    let (fired, _) = o.tick(60);
    assert!(fired.is_empty());
}

#[test]
fn direct_message_delivered_once() {
    let mut bus = MessageBus::new(10);
    assert_eq!(bus.register_agent(2), Err(AgentSpaceError::NotRunning));
    bus.start();
    bus.register_agent(2).unwrap();
    let m = InterAgentMessage::direct(1, 2, MessageType::DataShared, "{\"x\":1}".to_string());
    let mid = m.id;
    assert_eq!(bus.send_message(m), Ok(()));
    let got = bus.receive(2).unwrap();
    assert_eq!(got.id, mid);
    assert_eq!(got.payload, "{\"x\":1}");
    assert!(bus.receive(2).is_none());
    let mine = bus.get_agent_messages(2, None);
    assert_eq!(mine.len(), 1);
    assert_eq!(mine[0].id, mid);
    assert_eq!(bus.get_agent_messages(1, None).len(), 1);
    assert_eq!(bus.get_agent_messages(3, None).len(), 0);
}

#[test]
fn send_to_unregistered_fails_but_is_recorded() {
    let mut bus = MessageBus::new(10);
    bus.start();
    let m = InterAgentMessage::direct(1, 9, MessageType::TaskDelegation, "{}".to_string());
    let mid = m.id;
    assert_eq!(bus.send_message(m), Err(AgentSpaceError::NotRegistered(9)));
    let h = bus.get_message_history(None);
    assert_eq!(h.len(), 1);
    assert_eq!(h[0].id, mid);
}

#[test]
fn closed_or_full_inbox_fails() {
    let mut bus = MessageBus::new(1000);
    bus.start();
    bus.register_agent(5).unwrap();
    for _ in 0..100 {
        bus.send_message(InterAgentMessage::direct(1, 5, MessageType::StatusUpdate, "{}".to_string()))
            .unwrap();
    }
    assert_eq!(
        bus.send_message(InterAgentMessage::direct(1, 5, MessageType::StatusUpdate, "{}".to_string())),
        Err(AgentSpaceError::SendFailed(5))
    );
    bus.register_agent(6).unwrap();
    bus.close_inbox(6);
    assert_eq!(
        bus.send_message(InterAgentMessage::direct(1, 6, MessageType::StatusUpdate, "{}".to_string())),
        Err(AgentSpaceError::SendFailed(6))
    );
    bus.unregister_agent(6);
    bus.unregister_agent(6);
    assert_eq!(
        bus.send_message(InterAgentMessage::direct(1, 6, MessageType::StatusUpdate, "{}".to_string())),
        Err(AgentSpaceError::NotRegistered(6))
    );
    bus.send_message(InterAgentMessage::broadcast(4, MessageType::Custom("x".to_string()), "{}".to_string()))
        .unwrap();
    let stats = bus.get_message_statistics();
    assert_eq!(stats.total_messages, 104);
    assert_eq!(stats.registered_agents, 1);
    assert_eq!(
        stats.message_types,
        vec![("Status Update".to_string(), 103), ("Custom: x".to_string(), 1)]
    );
    assert_eq!(stats.messages_per_agent, vec![(1, 103), (4, 1)]);
}

#[test]
fn broadcast_reaches_subscribers_from_subscription_on() {
    let mut bus = MessageBus::new(10);
    bus.start();
    assert_eq!(bus.send_message(InterAgentMessage::broadcast(1, MessageType::AgentStarted, "{}".to_string())), Ok(()));
    let sub = bus.subscribe_broadcast();
    let m = InterAgentMessage::broadcast(1, MessageType::AgentStopped, "{}".to_string());
    let mid = m.id;
    bus.send_message(m).unwrap();
    assert_eq!(bus.receive_broadcast(sub).unwrap().id, mid);
    assert!(bus.receive_broadcast(sub).is_none());
    bus.stop();
    assert_eq!(
        bus.send_message(InterAgentMessage::broadcast(1, MessageType::AgentError, "{}".to_string())),
        Err(AgentSpaceError::NotRunning)
    );
    assert_eq!(bus.get_message_history(None).len(), 2);
}

#[test]
fn history_keeps_most_recent() {
    let mut bus = MessageBus::new(5);
    bus.start();
    let mut ids = Vec::new();
    for _ in 0..8 {
        let m = InterAgentMessage::broadcast(1, MessageType::DataUpdated, "{}".to_string());
        ids.push(m.id);
        bus.send_message(m).unwrap();
    }
    let h = bus.get_message_history(None);
    assert_eq!(h.len(), 5);
    let kept: Vec<u128> = h.iter().map(|m| m.id).collect();
    assert_eq!(kept, ids[3..].to_vec());
    let last2: Vec<u128> = bus.get_message_history(Some(2)).iter().map(|m| m.id).collect();
    assert_eq!(last2, ids[6..].to_vec());
    assert_eq!(bus.get_message_history(Some(50)).len(), 5);
    bus.clear_history();
    assert!(bus.get_message_history(None).is_empty());
}

#[test]
fn message_type_names() {
    assert_eq!(MessageType::ActionCompleted.to_string(), "Action Completed");
    assert_eq!(MessageType::Custom("ping".to_string()).to_string(), "Custom: ping");
}

#[test]
fn version_grows_with_persistent_updates_only() {
    let mut m = StateManager::new();
    let s = m.create_agent_state_at(3, 100).unwrap();
    assert_eq!(s.version, 1);
    assert_eq!(s.persistent_data, "{}");
    assert_eq!(m.create_agent_state(3).unwrap_err(), AgentSpaceError::AlreadyExists(3));
    m.update_persistent_data_at(3, "{\"a\":1}".to_string(), 101).unwrap();
    m.update_persistent_data(3, "{\"a\":2}".to_string()).unwrap();
    assert_eq!(m.load_agent_state(3).unwrap().version, 3);
    m.update_runtime_data_at(3, "{\"r\":1}".to_string(), 102).unwrap();
    let s = m.load_agent_state(3).unwrap();
    assert_eq!(s.version, 3);
    assert_eq!(s.runtime_data, "{\"r\":1}");
    assert_eq!(s.persistent_data, "{\"a\":2}");
    m.create_checkpoint_at(3, 103).unwrap();
    let s = m.load_agent_state(3).unwrap();
    assert_eq!(s.version, 4);
    assert_eq!(s.last_checkpoint, 103);
    assert_eq!(m.update_persistent_data(4, "{}".to_string()), Err(AgentSpaceError::NotFound(4)));
    assert_eq!(m.update_runtime_data(4, "{}".to_string()), Err(AgentSpaceError::NotFound(4)));
    assert_eq!(m.create_checkpoint(4), Err(AgentSpaceError::NotFound(4)));
    let mut top = m.load_agent_state(3).unwrap();
    top.version = u32::MAX;
    m.save_agent_state(&top);
    assert_eq!(m.create_checkpoint(3), Err(AgentSpaceError::VersionExhausted));
    assert!(m.load_agent_state(8).is_none());
}

fn finished(agent: u128, started: i64) -> (AgentAction, ExecutionResult) {
    let mut a = AgentAction::new(agent, ActionType::ReadData("s".to_string()), "{}".to_string());
    a.started_at = started;
    a.completed_at = Some(started + 1);
    let r = ExecutionResult {
        action_id: a.id,
        success: true,
        output_data: Some("{}".to_string()),
        error_message: None,
        execution_time_ms: 3,
        memory_used: 0,
        resources_accessed: Vec::new(),
    };
    (a, r)
}

#[test]
fn action_history_newest_first_and_cleanup() {
    let mut m = StateManager::new();
    let mut ids = Vec::new();
    for t in 0..4 {
        let (a, r) = finished(1, t * 86400);
        ids.push(a.id);
        m.save_action_result(&a, &r).unwrap();
        assert_eq!(m.save_action_result(&a, &r), Err(AgentSpaceError::AlreadyExists(a.id)));
    }
    let (other, r) = finished(2, 0);
    m.save_action_result(&other, &r).unwrap();
    let h: Vec<u128> = m.get_action_history(1, None).iter().map(|a| a.id).collect();
    assert_eq!(h, vec![ids[3], ids[2], ids[1], ids[0]]);
    let h: Vec<u128> = m.get_action_history(1, Some(2)).iter().map(|a| a.id).collect();
    assert_eq!(h, vec![ids[3], ids[2]]);
    assert_eq!(m.get_state_statistics().total_action_history, 5);
    // Keep one day back from day 3: records of day 2 and 3 stay.
    assert_eq!(m.cleanup_old_actions_at(1, 3 * 86400), 3);
    let h: Vec<u128> = m.get_action_history(1, None).iter().map(|a| a.id).collect();
    assert_eq!(h, vec![ids[3], ids[2]]);
    m.create_agent_state_at(1, 0).unwrap();
    m.delete_agent_state(1);
    assert!(m.get_action_history(1, None).is_empty());
    assert_eq!(m.get_state_statistics().total_agent_states, 0);
}

#[test]
fn status_text_round_trip() {
    for s in [
        AgentStatus::Draft,
        AgentStatus::Ready,
        AgentStatus::Running,
        AgentStatus::Paused,
        AgentStatus::Stopped,
        AgentStatus::Error("disk full".to_string()),
    ] {
        let text = status_to_string(&s);
        let back = string_to_status(&text);
        assert_eq!(format!("{:?}", back), format!("{:?}", s));
    }
    assert_eq!(status_to_string(&AgentStatus::Error("x".to_string())), "Error: x");
    assert!(matches!(string_to_status("Bogus"), AgentStatus::Error(ref m) if m == "Unknown status: Bogus"));
    let t = AgentTemplate::CustomAgent { custom_type: "x".to_string(), custom_config: Vec::new() };
    assert_eq!(get_template_type(&t), "CustomAgent");
}

#[test]
fn statistics_by_status() {
    let st = count_statuses(&vec![
        AgentStatus::Running,
        AgentStatus::Ready,
        AgentStatus::Running,
        AgentStatus::Error("e".to_string()),
        AgentStatus::Draft,
    ]);
    assert_eq!(st.total_agents, 5);
    assert_eq!(st.running_agents, 2);
    assert_eq!(st.ready_agents, 1);
    assert_eq!(st.paused_agents, 0);
    assert_eq!(st.error_agents, 1);
}

#[test]
fn metrics_record_executions() {
    let mut a = assistant("m");
    a.update_metrics_at(100, true, 50);
    a.update_metrics_at(300, false, 60);
    assert_eq!(a.metrics.total_executions, 2);
    assert_eq!(a.metrics.successful_executions, 1);
    assert_eq!(a.metrics.failed_executions, 1);
    assert_eq!(a.metrics.average_execution_time_ms, 200);
    assert_eq!(a.metrics.last_execution, Some(60));
    assert_eq!(a.timestamps.updated_at, 60);
    assert!(!a.is_active());
    assert!(!a.can_execute());
}

#[test]
fn default_config_values() {
    let c = AgentConfig::default();
    assert_eq!(c.version, "1.0.0");
    assert_eq!(c.max_concurrent_actions, 5);
    assert_eq!(c.timeout_seconds, 300);
    assert_eq!(c.retry_attempts, 3);
    assert_eq!(c.memory_limit_mb, 256);
}

#[test]
fn permission_strings() {
    assert_eq!(Permission::ReadData("notes".to_string()).as_string(), "read:notes");
    assert_eq!(Permission::WriteData("notes".to_string()).as_string(), "write:notes");
    assert_eq!(Permission::ExecuteAgent.as_string(), "execute:agent");
    assert_eq!(Permission::ManageAgents.as_string(), "manage:agents");
    assert_eq!(Permission::AccessConnector("drive".to_string()).as_string(), "access:connector:drive");
    assert_eq!(Permission::SystemAdmin.as_string(), "system:admin");
    assert_eq!(Permission::Custom("x".to_string()).as_string(), "custom:x");
    assert!(SecurityPolicy::new("p".to_string()).rules.is_empty());
    assert!(!AuthContext::new().is_authenticated);
}

#[test]
fn event_names() {
    assert_eq!(EventType::from_name("action_failed"), EventType::ActionFailed);
    assert_eq!(EventType::from_name("status_changed"), EventType::StatusChanged);
    assert_eq!(EventType::from_name("whatever"), EventType::Error);
}

struct Seeds;

impl Migration for Seeds {
    fn version(&self) -> i32 {
        0
    }
    fn description(&self) -> &str {
        "seed"
    }
    fn up_sql(&self) -> &str {
        "SELECT 1;"
    }
    fn down_sql(&self) -> Option<&str> {
        None
    }
}

#[test]
fn migrations_stay_ordered() {
    let step = |v: i32| MigrationStep {
        version: v,
        description: format!("v{}", v),
        up_sql: String::new(),
        down_sql: None,
    };
    let runner = MigrationRunner::new()
        .add_migration(step(3))
        .add_migration(step(2))
        .add_migration(MigrationStep::of(&Seeds))
        .add_migration(step(3));
    let versions: Vec<i32> = runner.get_migrations().iter().map(|m| m.version).collect();
    assert_eq!(versions, vec![0, 1, 2, 3, 3]);
    assert_eq!(runner.get_migrations()[1].description, InitialMigration.description());
}

#[test]
fn connector_descriptions() {
    assert_eq!(FilesystemConnector.get_connector_info().id, "filesystem");
    assert_eq!(GoogleDriveConnector.get_connector_info().name, "Google Drive");
    assert_eq!(NotionConnector.get_required_permissions(), vec!["notion.read".to_string()]);
    assert_eq!(get_all_templates().len(), 2);
}

#[test]
fn default_config_paths() {
    let c = agent_space::config::AgentSpaceConfig::default_under("/data/space".to_string());
    assert_eq!(c.vault_config.vault_path, "/data/space/vault");
    assert_eq!(c.python_config.modules_path, "/data/space/python_modules");
    assert_eq!(c.database_config.database_path, "/data/space/agents.db");
    let c = agent_space::config::AgentSpaceConfig::default_under("/data/".to_string());
    assert_eq!(c.database_config.database_path, "/data/agents.db");
    assert_eq!(c.database_config.connection_pool_size, 10);
}

#[test]
fn fresh_ids_and_timestamps() {
    let a = assistant("one");
    let b = assistant("two");
    assert_ne!(a.id, b.id);
    assert!(matches!(a.status, AgentStatus::Draft));
    assert_eq!(a.timestamps.created_at, a.timestamps.updated_at);
    assert!(a.timestamps.created_at > 1_700_000_000);
    let m1 = InterAgentMessage::broadcast(1, MessageType::AgentStarted, "{}".to_string());
    let m2 = InterAgentMessage::broadcast(1, MessageType::AgentStarted, "{}".to_string());
    assert_ne!(m1.id, m2.id);
    assert!(m1.is_broadcast() && !m1.is_direct());
}

#[test]
fn agents_table_rows() {
    let mut m = AgentManager::new();
    let mut a = assistant("Research helper");
    a.description = "reads papers".to_string();
    let b = assistant("Mail sorter");
    let ra = AgentRecord::of(&a);
    assert_eq!(ra.status, "Draft");
    assert_eq!(ra.template_type, "PersonalAssistant");
    assert_eq!(m.register_agent(ra.clone()), Ok(()));
    assert_eq!(m.register_agent(ra.clone()), Err(AgentSpaceError::AlreadyExists(a.id)));
    m.register_agent(AgentRecord::of(&b)).unwrap();
    let found: Vec<u128> = m.search_agents("paper").iter().map(|r| r.id).collect();
    assert_eq!(found, vec![a.id]);
    let found: Vec<u128> = m.search_agents("e").iter().map(|r| r.id).collect();
    assert_eq!(found, vec![a.id, b.id]);
    assert!(m.search_agents("zebra").is_empty());
    let mut running = ra.clone();
    running.status = status_to_string(&AgentStatus::Running);
    assert_eq!(m.save_agent(running), Ok(()));
    assert_eq!(m.get_agents_by_status(&AgentStatus::Running).len(), 1);
    assert_eq!(m.get_agents_by_status(&AgentStatus::Draft)[0].id, b.id);
    let mut failing = AgentRecord::of(&b);
    failing.status = status_to_string(&AgentStatus::Error("boom".to_string()));
    m.save_agent(failing).unwrap();
    let st = m.get_agent_statistics();
    assert_eq!((st.total_agents, st.running_agents, st.error_agents), (2, 1, 1));
    assert_eq!(m.load_agent(b.id).unwrap().status, "Error: boom");
    m.delete_agent(a.id);
    m.delete_agent(a.id);
    assert_eq!(m.load_all_agents().len(), 1);
    assert!(m.load_agent(a.id).is_none());
    let ghost_row = AgentRecord::of(&assistant("ghost"));
    let gid = ghost_row.id;
    assert_eq!(m.save_agent(ghost_row), Err(AgentSpaceError::NotFound(gid)));
}

#[test]
fn history_orders_by_start_not_by_save() {
    let mut m = StateManager::new();
    let (late, r1) = finished(1, 500);
    let (early, r2) = finished(1, 100);
    let (mid, r3) = finished(1, 300);
    let (same, r4) = finished(1, 300);
    m.save_action_result(&late, &r1).unwrap();
    m.save_action_result(&early, &r2).unwrap();
    m.save_action_result(&mid, &r3).unwrap();
    m.save_action_result(&same, &r4).unwrap();
    let h: Vec<u128> = m.get_action_history(1, None).iter().map(|a| a.id).collect();
    assert_eq!(h, vec![late.id, mid.id, same.id, early.id]);
    let h: Vec<u128> = m.get_action_history(1, Some(1)).iter().map(|a| a.id).collect();
    assert_eq!(h, vec![late.id]);
}

#[test]
fn registration_and_stop_store_rows() {
    let mut o = orchestrator();
    let a = assistant("stored");
    let id = a.id;
    o.register_agent(a).unwrap();
    let row = o.stored_agent(id).unwrap();
    assert_eq!(row.status, "Ready");
    assert_eq!(row.name, "stored");
    o.start(0);
    o.start_agent(id).unwrap();
    o.stop();
    assert!(matches!(o.agent_status(id), Some(AgentStatus::Stopped)));
    assert_eq!(o.stored_agent(id).unwrap().status, "Stopped");
}

#[test]
fn duplicate_action_ids_are_refused() {
    let mut o = orchestrator();
    let a = assistant("dups");
    let id = a.id;
    o.register_agent(a).unwrap();
    o.start_agent(id).unwrap();
    let action = AgentAction::new(id, ActionType::ReadData("s".to_string()), "{}".to_string());
    let copy = AgentAction { id: action.id, ..AgentAction::new(id, ActionType::ReadData("t".to_string()), "{}".to_string()) };
    let aid = action.id;
    o.execute_action(id, action).unwrap();
    assert_eq!(o.execute_action(id, copy), Err(AgentSpaceError::AlreadyExists(aid)));
}

#[test]
fn initial_migration_step() {
    let runner = MigrationRunner::new();
    let steps = runner.get_migrations();
    assert_eq!(steps.len(), 1);
    assert_eq!(steps[0].version, 1);
    assert_eq!(steps[0].description, "Create initial memory tables");
    assert_eq!(InitialMigration.version(), 1);
}

#[test]
fn vault_key_material() {
    let k = agent_space::vault::EncryptionKey::generate();
    assert_eq!(k.len(), 32);
    assert!(k.encrypt(b"abc").is_empty());
    assert!(k.decrypt(b"abc").is_empty());
}
