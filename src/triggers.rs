//! Triggers and events of agents, and the watchers that raise them.

use vstd::prelude::*;

use crate::manager::same_chars;

verus! {

/// What can set off an agent.
#[derive(Debug)]
pub enum TriggerType {
    FileChange(String),
    Schedule(String),
    WebhookReceived(String),
    DataUpdate(String),
    MessageReceived(String),
    Custom(String),
}

/// Events an agent process reports.
#[derive(Debug, Clone, Copy, PartialEq, Eq, Structural)]
pub enum EventType {
    TriggerFired,
    ActionCompleted,
    ActionFailed,
    DataReceived,
    MessageSent,
    StatusChanged,
    Error,
}

/// The event type an agent process names: the five known names map to their
/// type, anything else to `Error`.
pub open spec fn event_type_named(name: Seq<char>) -> EventType {
    if name == "action_completed"@ {
        EventType::ActionCompleted
    } else if name == "action_failed"@ {
        EventType::ActionFailed
    } else if name == "data_received"@ {
        EventType::DataReceived
    } else if name == "message_sent"@ {
        EventType::MessageSent
    } else if name == "status_changed"@ {
        EventType::StatusChanged
    } else {
        EventType::Error
    }
}

impl EventType {
    /// Reads the event type an agent process names.
    pub fn from_name(name: &str) -> (r: EventType)
        ensures
            r == event_type_named(name@),
    {
        if same_chars(name, "action_completed") {
            EventType::ActionCompleted
        } else if same_chars(name, "action_failed") {
            EventType::ActionFailed
        } else if same_chars(name, "data_received") {
            EventType::DataReceived
        } else if same_chars(name, "message_sent") {
            EventType::MessageSent
        } else if same_chars(name, "status_changed") {
            EventType::StatusChanged
        } else {
            EventType::Error
        }
    }
}

/// Fires agents on cron schedules.
#[derive(Debug)]
pub struct CronScheduler;

impl CronScheduler {
    pub fn new() -> (r: CronScheduler) {
        CronScheduler
    }
}

/// Fires agents on file changes.
#[derive(Debug)]
pub struct FileWatcher;

impl FileWatcher {
    pub fn new() -> (r: FileWatcher) {
        FileWatcher
    }
}

/// Creates agents that run in their own script process.
#[derive(Debug)]
pub struct PythonAgentFactory {
    pub python_executable: String,
    pub agent_wrapper_path: String,
    pub agents_directory: String,
}

impl PythonAgentFactory {
    pub fn new(python_executable: String, agent_wrapper_path: String, agents_directory: String) -> (r:
        PythonAgentFactory)
        ensures
            r.python_executable == python_executable,
            r.agent_wrapper_path == agent_wrapper_path,
            r.agents_directory == agents_directory,
    {
        PythonAgentFactory { python_executable, agent_wrapper_path, agents_directory }
    }
}

} // verus!
