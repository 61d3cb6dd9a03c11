//! Typed failures of the runtime's operations.

use vstd::prelude::*;

use crate::types::AgentId;

verus! {

/// Why an agent's configuration was refused.
#[derive(Debug, Clone, Copy, PartialEq, Eq, Structural)]
pub enum ValidationError {
    EmptyName,
    ZeroTimeout,
    ZeroConcurrency,
}

/// Why a schedule has no computable next fire time.
#[derive(Debug, Clone, Copy, PartialEq, Eq, Structural)]
pub enum ScheduleError {
    /// The cron expression does not parse.
    InvalidCron,
    /// An interval must be at least one second.
    InvalidInterval,
    /// A time of day out of range.
    InvalidTime,
    /// The instant lies outside the years 1 to 9999.
    OutOfRange,
    /// The day never occurs in this month nor in the two that follow.
    InvalidMonthlyDay(u32),
}

/// Failure of a runtime operation.
#[derive(Debug, Clone, Copy, PartialEq, Eq, Structural)]
pub enum AgentSpaceError {
    /// Bad agent configuration, refused before any change.
    Validation(ValidationError),
    /// The component is stopped.
    NotRunning,
    /// No agent of this id is known to the component.
    NotRegistered(AgentId),
    /// The target's inbox is closed or full.
    SendFailed(AgentId),
    /// No record of this id.
    NotFound(u128),
    /// A record of this id exists already.
    AlreadyExists(u128),
    /// The queue is at its capacity.
    QueueFull,
    /// The action exceeded its deadline.
    Timeout,
    /// An AI action was requested and no backend is configured.
    BackendUnavailable,
    /// The version counter cannot grow further.
    VersionExhausted,
    /// A counter would overflow.
    CounterOverflow,
    /// The agent's lifecycle status does not allow the operation.
    InvalidState(AgentId),
    /// A malformed or impossible schedule.
    Schedule(ScheduleError),
}

} // verus!
