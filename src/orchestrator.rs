//! Top-level controller: the agent table with one executor per agent, the
//! lifecycle state machine, and the composition of scheduler, bus and state.

use vstd::prelude::*;

use crate::error::{AgentSpaceError, ValidationError};
use crate::executor::{
    cancelled, first_context, is_finished, is_result_of, route_is, ActionOutcome, AgentExecutor,
    Completion, Dispatch, ExecutionContext,
};
use crate::outside::new_uuid;
use crate::manager::{is_row_of, row_map, AgentManager, AgentRecord};
use crate::messaging::{bounded_push, InterAgentMessage, MessageBus, BROADCAST_CAPACITY, INBOX_CAPACITY};
use crate::scheduler::{AgentScheduler, ScheduledAction};
use crate::state::StateManager;
use crate::types::{
    is_valid_agent, same_settings, validate_agent, validation_error, Agent, AgentAction, AgentId,
    AgentStatus, UnixSeconds,
};

verus! {

/// An agent and the executor built from its configuration.
pub struct AgentEntry {
    pub agent: Agent,
    pub executor: AgentExecutor,
}

/// Commands the orchestrator's control loop accepts.
#[derive(Debug)]
pub enum OrchestratorCommand {
    StartAgent(AgentId),
    StopAgent(AgentId),
    PauseAgent(AgentId),
    ResumeAgent(AgentId),
    RestartAgent(AgentId),
    ExecuteAction(AgentId, AgentAction),
    RemoveAgent(AgentId),
    Shutdown,
    GetStatus,
}

/// Counts over the agent table.
#[derive(Debug, Clone, Copy, PartialEq, Eq, Structural)]
pub struct OrchestratorStatus {
    pub total_agents: usize,
    pub running_agents: usize,
    pub paused_agents: usize,
    pub error_agents: usize,
    pub total_actions_processed: u64,
    pub uptime_seconds: u64,
}

/// No two entries share an agent id.
pub open spec fn unique_agent_ids(s: Seq<AgentEntry>) -> bool {
    forall|i: int, j: int| 0 <= i < j < s.len() ==> s[i].agent.id != s[j].agent.id
}

/// Whether `s` holds an agent of this id.
pub open spec fn has_agent(s: Seq<AgentEntry>, id: AgentId) -> bool {
    exists|i: int| 0 <= i < s.len() && s[i].agent.id == id
}

/// Position of the agent `id` in `s`.
pub open spec fn agent_index(s: Seq<AgentEntry>, id: AgentId) -> int {
    choose|i: int| 0 <= i < s.len() && s[i].agent.id == id
}

/// `a` with its lifecycle status set to `s`.
pub open spec fn with_status(a: Agent, s: AgentStatus) -> Agent {
    Agent { status: s, ..a }
}

/// `e1` is `e0` with its running flag set to `running`, all else kept.
pub open spec fn executor_toggled(e1: AgentExecutor, e0: AgentExecutor, running: bool) -> bool {
    &&& e1.running() == running
    &&& e1.agent() == e0.agent()
    &&& e1.configuration() == e0.configuration()
    &&& e1.has_backend() == e0.has_backend()
    &&& e1.queue() == e0.queue()
    &&& e1.active() == e0.active()
}

/// `e1` is `e0` stopped, its actions in flight handed back as `out`, marked cancelled.
pub open spec fn executor_stopped(e1: AgentExecutor, e0: AgentExecutor, out: Seq<ExecutionContext>) -> bool {
    &&& !e1.running()
    &&& e1.agent() == e0.agent()
    &&& e1.configuration() == e0.configuration()
    &&& e1.has_backend() == e0.has_backend()
    &&& e1.queue() == e0.queue()
    &&& e1.active().len() == 0
    &&& out.len() == e0.active().len()
    &&& forall|k: int| 0 <= k < out.len() ==> #[trigger] out[k] == cancelled(e0.active()[k])
}

/// `a` and `b` agree on every entry but the one at `i`.
pub open spec fn entries_equal_except(a: Seq<AgentEntry>, b: Seq<AgentEntry>, i: int) -> bool {
    &&& a.len() == b.len()
    &&& forall|j: int| 0 <= j < a.len() && j != i ==> #[trigger] a[j] == b[j]
}

/// Number of agents whose status is `Running`, `Paused` or `Error`, by `kind` 0, 1, 2.
pub open spec fn agents_in(kind: int) -> spec_fn(AgentEntry) -> bool {
    |e: AgentEntry| if kind == 0 {
        e.agent.status is Running
    } else if kind == 1 {
        e.agent.status is Paused
    } else {
        e.agent.status is Error
    }
}

// The outcomes of the lifecycle operations on agent `agent_id`: `old` is the table
// before, `new` the table after, `r` the result.

/// Start: a `Ready` agent becomes `Running` and its executor starts.
pub open spec fn is_started(
    old: Seq<AgentEntry>,
    new: Seq<AgentEntry>,
    agent_id: AgentId,
    r: Result<(), AgentSpaceError>,
) -> bool {
    &&& !has_agent(old, agent_id) ==> r == Err::<(), AgentSpaceError>(AgentSpaceError::NotRegistered(agent_id))
    &&& has_agent(old, agent_id) ==> ({
        let i = agent_index(old, agent_id);
        let e0 = old[i];
        if e0.agent.status is Ready {
            &&& r is Ok
            &&& entries_equal_except(new, old, i)
            &&& new[i].agent == with_status(e0.agent, AgentStatus::Running)
            &&& executor_toggled(new[i].executor, e0.executor, true)
        } else {
            r == Err::<(), AgentSpaceError>(AgentSpaceError::InvalidState(agent_id))
        }
    })
    &&& r is Err ==> new == old
}

/// Pause: a `Running` agent becomes `Paused`; its executor is left as it is.
pub open spec fn is_paused(
    old: Seq<AgentEntry>,
    new: Seq<AgentEntry>,
    agent_id: AgentId,
    r: Result<(), AgentSpaceError>,
) -> bool {
    &&& !has_agent(old, agent_id) ==> r == Err::<(), AgentSpaceError>(AgentSpaceError::NotRegistered(agent_id))
    &&& has_agent(old, agent_id) ==> ({
        let i = agent_index(old, agent_id);
        let e0 = old[i];
        if e0.agent.status is Running {
            &&& r is Ok
            &&& entries_equal_except(new, old, i)
            &&& new[i].agent == with_status(e0.agent, AgentStatus::Paused)
            &&& executor_toggled(new[i].executor, e0.executor, e0.executor.running())
        } else {
            r == Err::<(), AgentSpaceError>(AgentSpaceError::InvalidState(agent_id))
        }
    })
    &&& r is Err ==> new == old
}

/// Resume: a `Paused` agent becomes `Running` again.
pub open spec fn is_resumed(
    old: Seq<AgentEntry>,
    new: Seq<AgentEntry>,
    agent_id: AgentId,
    r: Result<(), AgentSpaceError>,
) -> bool {
    &&& !has_agent(old, agent_id) ==> r == Err::<(), AgentSpaceError>(AgentSpaceError::NotRegistered(agent_id))
    &&& has_agent(old, agent_id) ==> ({
        let i = agent_index(old, agent_id);
        let e0 = old[i];
        if e0.agent.status is Paused {
            &&& r is Ok
            &&& entries_equal_except(new, old, i)
            &&& new[i].agent == with_status(e0.agent, AgentStatus::Running)
            &&& executor_toggled(new[i].executor, e0.executor, e0.executor.running())
        } else {
            r == Err::<(), AgentSpaceError>(AgentSpaceError::InvalidState(agent_id))
        }
    })
    &&& r is Err ==> new == old
}

/// Stop: a `Ready`, `Running` or `Paused` agent becomes `Stopped`; its executor stops
/// and the actions it had in flight come back cancelled.
pub open spec fn is_stopped(
    old: Seq<AgentEntry>,
    new: Seq<AgentEntry>,
    agent_id: AgentId,
    r: Result<Vec<ExecutionContext>, AgentSpaceError>,
) -> bool {
    &&& !has_agent(old, agent_id) ==> r == Err::<Vec<ExecutionContext>, AgentSpaceError>(AgentSpaceError::NotRegistered(agent_id))
    &&& has_agent(old, agent_id) ==> ({
        let i = agent_index(old, agent_id);
        let e0 = old[i];
        if e0.agent.status is Ready || e0.agent.status is Running || e0.agent.status is Paused {
            &&& r is Ok
            &&& entries_equal_except(new, old, i)
            &&& new[i].agent == with_status(e0.agent, AgentStatus::Stopped)
            &&& r->Ok_0@.len() == e0.executor.active().len()
            &&& forall|k: int| 0 <= k < r->Ok_0@.len() ==> #[trigger] r->Ok_0@[k] == cancelled(e0.executor.active()[k])
            &&& new[i].executor.active().len() == 0
            &&& new[i].executor.queue() == e0.executor.queue()
            &&& !new[i].executor.running()
            &&& new[i].executor.agent() == e0.executor.agent()
            &&& new[i].executor.configuration() == e0.executor.configuration()
        } else {
            r == Err::<Vec<ExecutionContext>, AgentSpaceError>(AgentSpaceError::InvalidState(agent_id))
        }
    })
    &&& r is Err ==> new == old
}

/// Restart: an agent past `Draft` becomes `Running`; its executor stops, handing back
/// its actions in flight cancelled, and starts again.
pub open spec fn is_restarted(
    old: Seq<AgentEntry>,
    new: Seq<AgentEntry>,
    agent_id: AgentId,
    r: Result<Vec<ExecutionContext>, AgentSpaceError>,
) -> bool {
    &&& !has_agent(old, agent_id) ==> r == Err::<Vec<ExecutionContext>, AgentSpaceError>(AgentSpaceError::NotRegistered(agent_id))
    &&& has_agent(old, agent_id) ==> ({
        let i = agent_index(old, agent_id);
        let e0 = old[i];
        if !(e0.agent.status is Draft) {
            &&& r is Ok
            &&& entries_equal_except(new, old, i)
            &&& new[i].agent == with_status(e0.agent, AgentStatus::Running)
            &&& r->Ok_0@.len() == e0.executor.active().len()
            &&& forall|k: int| 0 <= k < r->Ok_0@.len() ==> #[trigger] r->Ok_0@[k] == cancelled(e0.executor.active()[k])
            &&& new[i].executor.active().len() == 0
            &&& new[i].executor.queue() == e0.executor.queue()
            &&& new[i].executor.running()
            &&& new[i].executor.agent() == e0.executor.agent()
            &&& new[i].executor.configuration() == e0.executor.configuration()
        } else {
            r == Err::<Vec<ExecutionContext>, AgentSpaceError>(AgentSpaceError::InvalidState(agent_id))
        }
    })
    &&& r is Err ==> new == old
}

/// Removal: the agent leaves the table; its actions in flight come back cancelled.
pub open spec fn is_removed(
    old: Seq<AgentEntry>,
    new: Seq<AgentEntry>,
    agent_id: AgentId,
    r: Result<Vec<ExecutionContext>, AgentSpaceError>,
) -> bool {
    &&& r is Ok <==> has_agent(old, agent_id)
    &&& r is Err ==> r == Err::<Vec<ExecutionContext>, AgentSpaceError>(AgentSpaceError::NotRegistered(agent_id))
        && new == old
    &&& r is Ok ==> new == old.remove(agent_index(old, agent_id))
    &&& r is Ok ==> ({
        let e0 = old[agent_index(old, agent_id)];
        &&& r->Ok_0@.len() == e0.executor.active().len()
        &&& forall|k: int| 0 <= k < r->Ok_0@.len() ==> #[trigger] r->Ok_0@[k] == cancelled(e0.executor.active()[k])
    })
}

/// Execution: the action joins the queue of a `Ready` or `Running` agent whose
/// executor runs and has room.
pub open spec fn is_queued(
    old: Seq<AgentEntry>,
    new: Seq<AgentEntry>,
    agent_id: AgentId,
    action: AgentAction,
    r: Result<(), AgentSpaceError>,
) -> bool {
    &&& !has_agent(old, agent_id) ==> r == Err::<(), AgentSpaceError>(AgentSpaceError::NotRegistered(agent_id))
    &&& r is Err ==> new == old
    &&& has_agent(old, agent_id) ==> ({
        let i = agent_index(old, agent_id);
        let e0 = old[i];
        if !(e0.agent.status is Ready || e0.agent.status is Running) {
            r == Err::<(), AgentSpaceError>(AgentSpaceError::InvalidState(agent_id))
        } else if !e0.executor.running() {
            r == Err::<(), AgentSpaceError>(AgentSpaceError::NotRunning)
        } else if e0.executor.queue().len() >= crate::executor::ACTION_QUEUE_CAPACITY {
            r == Err::<(), AgentSpaceError>(AgentSpaceError::QueueFull)
        } else if e0.executor.is_pending(action.id) {
            r == Err::<(), AgentSpaceError>(AgentSpaceError::AlreadyExists(action.id))
        } else {
            &&& r is Ok
            &&& entries_equal_except(new, old, i)
            &&& new[i].agent == e0.agent
            &&& new[i].executor.queue() == e0.executor.queue().push(action)
            &&& new[i].executor.active() == e0.executor.active()
            &&& new[i].executor.running() == e0.executor.running()
        }
    })
}

/// Owns the agents and their executors, the scheduler, the message bus and the
/// state manager.
pub struct AgentOrchestrator {
    entries: Vec<AgentEntry>,
    scheduler: AgentScheduler,
    message_bus: MessageBus,
    state_manager: StateManager,
    agents_table: AgentManager,
    is_running: bool,
    started_at: Option<UnixSeconds>,
    actions_processed: u64,
}

impl AgentOrchestrator {
    pub closed spec fn entries(&self) -> Seq<AgentEntry> {
        self.entries@
    }

    pub closed spec fn scheduler(&self) -> AgentScheduler {
        self.scheduler
    }

    pub closed spec fn bus(&self) -> MessageBus {
        self.message_bus
    }

    pub closed spec fn state_manager(&self) -> StateManager {
        self.state_manager
    }

    pub closed spec fn running(&self) -> bool {
        self.is_running
    }

    /// The stored row of each agent.
    pub closed spec fn agents_table(&self) -> AgentManager {
        self.agents_table
    }

    /// When the orchestrator was last started.
    pub closed spec fn started(&self) -> Option<UnixSeconds> {
        self.started_at
    }

    pub closed spec fn processed(&self) -> u64 {
        self.actions_processed
    }

    /// Agent ids unique; each executor belongs to its agent and is well formed.
    pub open spec fn wf(&self) -> bool {
        &&& unique_agent_ids(self.entries())
        &&& forall|i: int| 0 <= i < self.entries().len() ==> (#[trigger] self.entries()[i]).executor.agent()
            == self.entries()[i].agent.id && self.entries()[i].executor.wf()
        &&& self.scheduler().wf()
        &&& self.bus().wf()
        &&& self.state_manager().wf()
        &&& self.agents_table().wf()
    }

    /// A stopped orchestrator without agents, over the given components.
    pub fn new(
        agents_table: AgentManager,
        scheduler: AgentScheduler,
        message_bus: MessageBus,
        state_manager: StateManager,
    ) -> (r: AgentOrchestrator)
        requires
            agents_table.wf(),
            scheduler.wf(),
            message_bus.wf(),
            state_manager.wf(),
        ensures
            r.agents_table() == agents_table,
            r.started().is_none(),
            r.wf(),
            r.entries().len() == 0,
            !r.running(),
            r.scheduler() == scheduler,
            r.bus() == message_bus,
            r.state_manager() == state_manager,
            r.processed() == 0,
    {
        AgentOrchestrator {
            entries: Vec::new(),
            scheduler,
            message_bus,
            state_manager,
            agents_table,
            is_running: false,
            started_at: None,
            actions_processed: 0,
        }
    }

    fn find_agent(&self, id: AgentId) -> (r: Option<usize>)
        requires
            unique_agent_ids(self.entries()),
        ensures
            r matches Some(i) ==> i < self.entries().len() && self.entries()[i as int].agent.id == id
                && agent_index(self.entries(), id) == i,
            r is None ==> !has_agent(self.entries(), id),
            r is Some <==> has_agent(self.entries(), id),
    {
        let mut i: usize = 0;
        while i < self.entries.len()
            invariant
                unique_agent_ids(self.entries@),
                i <= self.entries@.len(),
                forall|j: int| 0 <= j < i ==> self.entries@[j].agent.id != id,
            decreases self.entries.len() - i,
        {
            if self.entries[i].agent.id == id {
                proof {
                    let s = self.entries@;
                    assert(has_agent(s, id));
                    let c = agent_index(s, id);
                    if c != i {
                        if c < i {
                            assert(s[c].agent.id != s[i as int].agent.id);
                        } else {
                            assert(s[i as int].agent.id != s[c].agent.id);
                        }
                    }
                }
                return Some(i);
            }
            i += 1;
        }
        None
    }

    /// Validates `agent`, sets it `Ready` and stores it with a new, stopped executor
    /// built from its configuration. A refused agent leaves nothing behind.
    pub fn register_agent(&mut self, agent: Agent) -> (r: Result<AgentId, AgentSpaceError>)
        requires
            old(self).wf(),
        ensures
            final(self).wf(),
            final(self).running() == old(self).running(),
            final(self).scheduler() == old(self).scheduler(),
            final(self).bus() == old(self).bus(),
            final(self).state_manager() == old(self).state_manager(),
            !is_valid_agent(agent) ==> r == Err::<AgentId, AgentSpaceError>(
                AgentSpaceError::Validation(validation_error(agent)),
            ),
            is_valid_agent(agent) && has_agent(old(self).entries(), agent.id) ==> r == Err::<AgentId, AgentSpaceError>(
                AgentSpaceError::AlreadyExists(agent.id),
            ),
            r is Err ==> final(self).entries() == old(self).entries(),
            r is Ok <==> is_valid_agent(agent) && !has_agent(old(self).entries(), agent.id),
            r is Ok ==> r == Ok::<AgentId, AgentSpaceError>(agent.id),
            r is Ok ==> final(self).entries().len() == old(self).entries().len() + 1,
            r is Ok ==> final(self).entries().drop_last() == old(self).entries(),
            r is Ok ==> final(self).entries().last().agent == with_status(agent, AgentStatus::Ready),
            r is Ok ==> !final(self).entries().last().executor.running(),
            r is Ok ==> same_settings(final(self).entries().last().executor.configuration(), agent.config),
            r is Ok ==> final(self).entries().last().executor.queue().len() == 0,
            r is Ok ==> final(self).entries().last().executor.active().len() == 0,
            r is Err ==> final(self).agents_table() == old(self).agents_table(),
            r is Ok ==> exists|row: AgentRecord|
                is_row_of(row, with_status(agent, AgentStatus::Ready)) && #[trigger] row_map(
                    final(self).agents_table().rows(),
                ) == row_map(old(self).agents_table().rows()).insert(agent.id, row),
    {
        match validate_agent(&agent) {
            Ok(()) => {},
            Err(e) => return Err(AgentSpaceError::Validation(e)),
        }
        if self.find_agent(agent.id).is_some() {
            return Err(AgentSpaceError::AlreadyExists(agent.id));
        }
        let id = agent.id;
        let mut agent = agent;
        agent.status = AgentStatus::Ready;
        let executor = AgentExecutor::new(id, agent.config.clone());
        let row = AgentRecord::of(&agent);
        self.agents_table.upsert_agent(row);
        let ghost before = self.entries@;
        self.entries.push(AgentEntry { agent, executor });
        proof {
            let n = before.len() as int;
            assert forall|a: int, b: int| 0 <= a < b < self.entries@.len() implies self.entries@[a].agent.id
                != self.entries@[b].agent.id by {
                if b == n {
                    assert(before[a].agent.id != id);
                } else {
                    assert(before[a].agent.id != before[b].agent.id);
                }
            }
            assert(self.entries@.drop_last() =~= before);
        }
        Ok(id)
    }

    fn put_back(&mut self, i: usize, e: AgentEntry)
        requires
            i <= old(self).entries().len(),
            unique_agent_ids(old(self).entries().insert(i as int, e)),
        ensures
            final(self).entries() == old(self).entries().insert(i as int, e),
            final(self).scheduler() == old(self).scheduler(),
            final(self).bus() == old(self).bus(),
            final(self).state_manager() == old(self).state_manager(),
            final(self).running() == old(self).running(),
            final(self).processed() == old(self).processed(),
            final(self).agents_table() == old(self).agents_table(),
            final(self).started() == old(self).started(),
    {
        self.entries.insert(i, e);
    }

    proof fn lemma_replace(s: Seq<AgentEntry>, i: int, e: AgentEntry)
        requires
            unique_agent_ids(s),
            0 <= i < s.len(),
            e.agent.id == s[i].agent.id,
        ensures
            unique_agent_ids(s.remove(i).insert(i, e)),
            s.remove(i).insert(i, e) == s.update(i, e),
            entries_equal_except(s.update(i, e), s, i),
    {
        assert(s.remove(i).insert(i, e) =~= s.update(i, e));
        let t = s.update(i, e);
        assert forall|a: int, b: int| 0 <= a < b < t.len() implies t[a].agent.id != t[b].agent.id by {
            assert(s[a].agent.id != s[b].agent.id);
        }
    }

    /// Starts a `Ready` agent: it becomes `Running` and its executor starts.
    pub fn start_agent(&mut self, agent_id: AgentId) -> (r: Result<(), AgentSpaceError>)
        requires
            old(self).wf(),
        ensures
            final(self).wf(),
            final(self).running() == old(self).running(),
            final(self).scheduler() == old(self).scheduler(),
            final(self).bus() == old(self).bus(),
            final(self).state_manager() == old(self).state_manager(),
            is_started(old(self).entries(), final(self).entries(), agent_id, r),
    {
        let i = match self.find_agent(agent_id) {
            Some(i) => i,
            None => return Err(AgentSpaceError::NotRegistered(agent_id)),
        };
        if !matches!(self.entries[i].agent.status, AgentStatus::Ready) {
            return Err(AgentSpaceError::InvalidState(agent_id));
        }
        let ghost s = self.entries@;
        let mut e = self.entries.remove(i);
        assert(e == s[i as int]);
        proof {
            assert(s[i as int].executor.wf());
        }
        e.agent.status = AgentStatus::Running;
        e.executor.start();
        proof {
            Self::lemma_replace(s, i as int, e);
        }
        self.put_back(i, e);
        proof {
            assert forall|j: int| 0 <= j < self.entries@.len() implies (#[trigger] self.entries@[j]).executor.agent()
                == self.entries@[j].agent.id && self.entries@[j].executor.wf() by {
                if j != i {
                    assert(self.entries@[j] == s[j]);
                }
            }
        }
        Ok(())
    }

    /// Pauses a `Running` agent: it becomes `Paused` and takes no new actions; its executor keeps running what it holds.
    pub fn pause_agent(&mut self, agent_id: AgentId) -> (r: Result<(), AgentSpaceError>)
        requires
            old(self).wf(),
        ensures
            final(self).wf(),
            final(self).running() == old(self).running(),
            final(self).scheduler() == old(self).scheduler(),
            final(self).bus() == old(self).bus(),
            final(self).state_manager() == old(self).state_manager(),
            final(self).processed() == old(self).processed(),
            is_paused(old(self).entries(), final(self).entries(), agent_id, r),
    {
        let i = match self.find_agent(agent_id) {
            Some(i) => i,
            None => return Err(AgentSpaceError::NotRegistered(agent_id)),
        };
        if !matches!(self.entries[i].agent.status, AgentStatus::Running) {
            return Err(AgentSpaceError::InvalidState(agent_id));
        }
        let ghost s = self.entries@;
        let mut e = self.entries.remove(i);
        assert(e == s[i as int]);
        e.agent.status = AgentStatus::Paused;
        proof {
            Self::lemma_replace(s, i as int, e);
        }
        self.put_back(i, e);
        proof {
            assert forall|j: int| 0 <= j < self.entries@.len() implies (#[trigger] self.entries@[j]).executor.agent()
                == self.entries@[j].agent.id && self.entries@[j].executor.wf() by {
                if j != i {
                    assert(self.entries@[j] == s[j]);
                }
            }
        }
        Ok(())
    }

    /// Resumes a `Paused` agent: it becomes `Running` again.
    pub fn resume_agent(&mut self, agent_id: AgentId) -> (r: Result<(), AgentSpaceError>)
        requires
            old(self).wf(),
        ensures
            final(self).wf(),
            final(self).running() == old(self).running(),
            final(self).scheduler() == old(self).scheduler(),
            final(self).bus() == old(self).bus(),
            final(self).state_manager() == old(self).state_manager(),
            final(self).processed() == old(self).processed(),
            is_resumed(old(self).entries(), final(self).entries(), agent_id, r),
    {
        let i = match self.find_agent(agent_id) {
            Some(i) => i,
            None => return Err(AgentSpaceError::NotRegistered(agent_id)),
        };
        if !matches!(self.entries[i].agent.status, AgentStatus::Paused) {
            return Err(AgentSpaceError::InvalidState(agent_id));
        }
        let ghost s = self.entries@;
        let mut e = self.entries.remove(i);
        assert(e == s[i as int]);
        e.agent.status = AgentStatus::Running;
        proof {
            Self::lemma_replace(s, i as int, e);
        }
        self.put_back(i, e);
        proof {
            assert forall|j: int| 0 <= j < self.entries@.len() implies (#[trigger] self.entries@[j]).executor.agent()
                == self.entries@[j].agent.id && self.entries@[j].executor.wf() by {
                if j != i {
                    assert(self.entries@[j] == s[j]);
                }
            }
        }
        Ok(())
    }

    /// Stops a `Ready`, `Running` or `Paused` agent: it becomes `Stopped` and its executor stops, cancelling the actions in flight, which come back.
    pub fn stop_agent(&mut self, agent_id: AgentId) -> (r: Result<Vec<ExecutionContext>, AgentSpaceError>)
        requires
            old(self).wf(),
        ensures
            final(self).wf(),
            final(self).running() == old(self).running(),
            final(self).scheduler() == old(self).scheduler(),
            final(self).bus() == old(self).bus(),
            final(self).state_manager() == old(self).state_manager(),
            final(self).processed() == old(self).processed(),
            is_stopped(old(self).entries(), final(self).entries(), agent_id, r),
    {
        let i = match self.find_agent(agent_id) {
            Some(i) => i,
            None => return Err(AgentSpaceError::NotRegistered(agent_id)),
        };
        if !matches!(self.entries[i].agent.status, AgentStatus::Ready | AgentStatus::Running | AgentStatus::Paused) {
            return Err(AgentSpaceError::InvalidState(agent_id));
        }
        let ghost s = self.entries@;
        let mut e = self.entries.remove(i);
        assert(e == s[i as int]);
        e.agent.status = AgentStatus::Stopped;
        let out = e.executor.stop();
        proof {
            Self::lemma_replace(s, i as int, e);
        }
        self.put_back(i, e);
        proof {
            assert forall|j: int| 0 <= j < self.entries@.len() implies (#[trigger] self.entries@[j]).executor.agent()
                == self.entries@[j].agent.id && self.entries@[j].executor.wf() by {
                if j != i {
                    assert(self.entries@[j] == s[j]);
                }
            }
        }
        Ok(out)
    }

    /// Restarts an agent that is past `Draft`: its executor stops, cancelling the actions in flight, which come back, and starts again; the agent becomes `Running`.
    pub fn restart_agent(&mut self, agent_id: AgentId) -> (r: Result<Vec<ExecutionContext>, AgentSpaceError>)
        requires
            old(self).wf(),
        ensures
            final(self).wf(),
            final(self).running() == old(self).running(),
            final(self).scheduler() == old(self).scheduler(),
            final(self).bus() == old(self).bus(),
            final(self).state_manager() == old(self).state_manager(),
            final(self).processed() == old(self).processed(),
            is_restarted(old(self).entries(), final(self).entries(), agent_id, r),
    {
        let i = match self.find_agent(agent_id) {
            Some(i) => i,
            None => return Err(AgentSpaceError::NotRegistered(agent_id)),
        };
        if !matches!(self.entries[i].agent.status, AgentStatus::Ready | AgentStatus::Running | AgentStatus::Paused | AgentStatus::Stopped | AgentStatus::Error(_)) {
            return Err(AgentSpaceError::InvalidState(agent_id));
        }
        let ghost s = self.entries@;
        let mut e = self.entries.remove(i);
        assert(e == s[i as int]);
        e.agent.status = AgentStatus::Running;
        let out = e.executor.stop();
        e.executor.start();
        proof {
            Self::lemma_replace(s, i as int, e);
        }
        self.put_back(i, e);
        proof {
            assert forall|j: int| 0 <= j < self.entries@.len() implies (#[trigger] self.entries@[j]).executor.agent()
                == self.entries@[j].agent.id && self.entries@[j].executor.wf() by {
                if j != i {
                    assert(self.entries@[j] == s[j]);
                }
            }
        }
        Ok(out)
    }

    /// Removes an agent; its executor stops first, and the actions it had in flight come
    /// back cancelled.
    pub fn remove_agent(&mut self, agent_id: AgentId) -> (r: Result<Vec<ExecutionContext>, AgentSpaceError>)
        requires
            old(self).wf(),
        ensures
            final(self).wf(),
            final(self).running() == old(self).running(),
            final(self).scheduler() == old(self).scheduler(),
            final(self).bus() == old(self).bus(),
            final(self).state_manager() == old(self).state_manager(),
            final(self).processed() == old(self).processed(),
            is_removed(old(self).entries(), final(self).entries(), agent_id, r),
    {
        let i = match self.find_agent(agent_id) {
            Some(i) => i,
            None => return Err(AgentSpaceError::NotRegistered(agent_id)),
        };
        let ghost s = self.entries@;
        let mut e = self.entries.remove(i);
        assert(e == s[i as int]);
        let out = e.executor.stop();
        proof {
            assert forall|a: int, b: int| 0 <= a < b < self.entries@.len() implies self.entries@[a].agent.id
                != self.entries@[b].agent.id by {
                let a0 = if a < i { a } else { a + 1 };
                let b0 = if b < i { b } else { b + 1 };
                assert(s[a0].agent.id != s[b0].agent.id);
            }
            assert forall|j: int| 0 <= j < self.entries@.len() implies (#[trigger] self.entries@[j]).executor.agent()
                == self.entries@[j].agent.id && self.entries@[j].executor.wf() by {
                let j0 = if j < i { j } else { j + 1 };
                assert(self.entries@[j] == s[j0]);
            }
        }
        Ok(out)
    }

    /// Hands `action` to the executor of `agent_id`, which must be `Ready` or `Running`.
    pub fn execute_action(&mut self, agent_id: AgentId, action: AgentAction) -> (r: Result<(), AgentSpaceError>)
        requires
            old(self).wf(),
        ensures
            final(self).wf(),
            final(self).running() == old(self).running(),
            final(self).scheduler() == old(self).scheduler(),
            final(self).bus() == old(self).bus(),
            final(self).state_manager() == old(self).state_manager(),
            final(self).processed() == old(self).processed(),
            is_queued(old(self).entries(), final(self).entries(), agent_id, action, r),
    {
        let i = match self.find_agent(agent_id) {
            Some(i) => i,
            None => return Err(AgentSpaceError::NotRegistered(agent_id)),
        };
        if !matches!(self.entries[i].agent.status, AgentStatus::Ready | AgentStatus::Running) {
            return Err(AgentSpaceError::InvalidState(agent_id));
        }
        if !self.entries[i].executor.is_running() {
            return Err(AgentSpaceError::NotRunning);
        }
        if self.entries[i].executor.queued_count() >= crate::executor::ACTION_QUEUE_CAPACITY {
            return Err(AgentSpaceError::QueueFull);
        }
        if self.entries[i].executor.is_pending_exec(action.id) {
            return Err(AgentSpaceError::AlreadyExists(action.id));
        }
        let ghost s = self.entries@;
        let mut e = self.entries.remove(i);
        assert(e == s[i as int]);
        let res = e.executor.execute_action(action);
        proof {
            Self::lemma_replace(s, i as int, e);
        }
        self.put_back(i, e);
        proof {
            assert forall|j: int| 0 <= j < self.entries@.len() implies (#[trigger] self.entries@[j]).executor.agent()
                == self.entries@[j].agent.id && self.entries@[j].executor.wf() by {
                if j != i {
                    assert(self.entries@[j] == s[j]);
                }
            }
        }
        res
    }

    /// Starts the orchestrator at `now`: the scheduler and the message bus start.
    pub fn start(&mut self, now: UnixSeconds)
        requires
            old(self).wf(),
        ensures
            final(self).wf(),
            final(self).running(),
            final(self).entries() == old(self).entries(),
            final(self).scheduler()@ == old(self).scheduler()@,
            final(self).scheduler().running(),
            final(self).bus().running(),
            final(self).bus().inboxes() == old(self).bus().inboxes(),
            final(self).bus().history() == old(self).bus().history(),
            final(self).state_manager() == old(self).state_manager(),
            final(self).processed() == old(self).processed(),
            final(self).agents_table() == old(self).agents_table(),
            final(self).started() == Some(now),
    {
        self.is_running = true;
        self.started_at = Some(now);
        self.scheduler.start();
        self.message_bus.start();
    }

    /// Stops every agent's executor, cancelling what it has in flight, then the scheduler,
    /// then the message bus. Every agent becomes `Stopped`. The cancelled contexts come back.
    pub fn stop(&mut self) -> (r: Vec<ExecutionContext>)
        requires
            old(self).wf(),
        ensures
            final(self).wf(),
            !final(self).running(),
            final(self).entries().len() == old(self).entries().len(),
            forall|i: int| 0 <= i < old(self).entries().len() ==> (#[trigger] final(self).entries()[i]).agent
                == with_status(old(self).entries()[i].agent, AgentStatus::Stopped),
            forall|i: int| 0 <= i < old(self).entries().len() ==> !(#[trigger] final(self).entries()[i]).executor.running()
                && final(self).entries()[i].executor.active().len() == 0
                && final(self).entries()[i].executor.queue() == old(self).entries()[i].executor.queue(),
            !final(self).scheduler().running(),
            final(self).scheduler()@ == old(self).scheduler()@,
            !final(self).bus().running(),
            final(self).bus().history() == old(self).bus().history(),
            final(self).state_manager() == old(self).state_manager(),
            final(self).processed() == old(self).processed(),
            forall|i: int| 0 <= i < final(self).entries().len() ==> row_map(final(self).agents_table().rows()).contains_key(
                (#[trigger] final(self).entries()[i]).agent.id,
            ) && is_row_of(
                row_map(final(self).agents_table().rows())[final(self).entries()[i].agent.id],
                final(self).entries()[i].agent,
            ),
    {
        self.is_running = false;
        let mut out: Vec<ExecutionContext> = Vec::new();
        let mut done: Vec<AgentEntry> = Vec::new();
        let mut rest: Vec<AgentEntry> = Vec::new();
        std::mem::swap(&mut rest, &mut self.entries);
        let ghost all = rest@;
        let total = rest.len();
        while rest.len() > 0
            invariant
                total == all.len(),
                done@.len() + rest@.len() == all.len(),
                rest@ == all.subrange(done@.len() as int, all.len() as int),
                unique_agent_ids(all),
                forall|i: int| 0 <= i < all.len() ==> (#[trigger] all[i]).executor.agent() == all[i].agent.id
                    && all[i].executor.wf(),
                forall|i: int| 0 <= i < done@.len() ==> (#[trigger] done@[i]).agent
                    == with_status(all[i].agent, AgentStatus::Stopped) && !done@[i].executor.running()
                    && done@[i].executor.active().len() == 0 && done@[i].executor.queue()
                    == all[i].executor.queue() && done@[i].executor.agent() == all[i].agent.id
                    && done@[i].executor.wf(),
            decreases rest@.len(),
        {
            let mut e = rest.remove(0);
            proof {
                let k = done@.len() as int;
                assert(e == all[k]);
                assert(rest@ =~= all.subrange(k + 1, all.len() as int));
            }
            e.agent.status = AgentStatus::Stopped;
            let mut cancelled_now = e.executor.stop();
            out.append(&mut cancelled_now);
            done.push(e);
        }
        proof {
            assert forall|a: int, b: int| 0 <= a < b < done@.len() implies done@[a].agent.id
                != done@[b].agent.id by {
                assert(all[a].agent.id != all[b].agent.id);
            }
        }
        self.scheduler.stop();
        self.message_bus.stop();
        let mut table = AgentManager::new();
        std::mem::swap(&mut table, &mut self.agents_table);
        let ghost d0 = done@;
        let n = done.len();
        let mut k: usize = 0;
        while k < n
            invariant
                n == d0.len(),
                done@ == d0,
                k <= n,
                unique_agent_ids(d0),
                table.wf(),
                forall|i: int| 0 <= i < k ==> row_map(table.rows()).contains_key((#[trigger] d0[i]).agent.id)
                    && is_row_of(row_map(table.rows())[d0[i].agent.id], d0[i].agent),
            decreases n - k,
        {
            let row = AgentRecord::of(&done[k].agent);
            table.upsert_agent(row);
            proof {
                assert forall|i: int| 0 <= i < k + 1 implies row_map(table.rows()).contains_key((#[trigger] d0[i]).agent.id)
                    && is_row_of(row_map(table.rows())[d0[i].agent.id], d0[i].agent) by {
                    if i < k {
                        assert(d0[i].agent.id != d0[k as int].agent.id);
                    }
                }
            }
            k += 1;
        }
        self.agents_table = table;
        self.entries = done;
        out
    }

    /// Counts of all agents and of those `Running`, `Paused` and in `Error`; actions
    /// completed since creation; seconds since the orchestrator started, as of `now`.
    pub fn get_status(&self, now: UnixSeconds) -> (r: OrchestratorStatus)
        ensures
            r.total_agents == self.entries().len(),
            r.running_agents == self.entries().filter(agents_in(0)).len(),
            r.paused_agents == self.entries().filter(agents_in(1)).len(),
            r.error_agents == self.entries().filter(agents_in(2)).len(),
            r.total_actions_processed == self.processed(),
            r.uptime_seconds == match self.started() {
                Some(t) => if now >= t && now - t <= u64::MAX {
                    (now - t) as u64
                } else {
                    0
                },
                None => 0,
            },
    {
        let mut st = OrchestratorStatus {
            total_agents: self.entries.len(),
            running_agents: 0,
            paused_agents: 0,
            error_agents: 0,
            total_actions_processed: self.actions_processed,
            uptime_seconds: 0,
        };
        let mut i: usize = 0;
        while i < self.entries.len()
            invariant
                i <= self.entries@.len(),
                st.total_agents == self.entries@.len(),
                st.total_actions_processed == self.actions_processed,
                st.uptime_seconds == 0,
                st.running_agents == self.entries@.subrange(0, i as int).filter(agents_in(0)).len(),
                st.paused_agents == self.entries@.subrange(0, i as int).filter(agents_in(1)).len(),
                st.error_agents == self.entries@.subrange(0, i as int).filter(agents_in(2)).len(),
            decreases self.entries.len() - i,
        {
            let ghost pre = self.entries@.subrange(0, i as int);
            let ghost x = self.entries@[i as int];
            proof {
                assert(self.entries@.subrange(0, i + 1) =~= pre.push(x));
                pre.lemma_filter_push(x, agents_in(0));
                pre.lemma_filter_push(x, agents_in(1));
                pre.lemma_filter_push(x, agents_in(2));
                pre.lemma_filter_len(agents_in(0));
                pre.lemma_filter_len(agents_in(1));
                pre.lemma_filter_len(agents_in(2));
            }
            match self.entries[i].agent.status {
                AgentStatus::Running => {
                    st.running_agents = st.running_agents + 1;
                },
                AgentStatus::Paused => {
                    st.paused_agents = st.paused_agents + 1;
                },
                AgentStatus::Error(_) => {
                    st.error_agents = st.error_agents + 1;
                },
                _ => {},
            }
            i += 1;
        }
        assert(self.entries@.subrange(0, self.entries@.len() as int) =~= self.entries@);
        if let Some(t) = self.started_at {
            if now >= t && (now as i128 - t as i128) <= u64::MAX as i128 {
                st.uptime_seconds = (now as i128 - t as i128) as u64;
                assert(st.uptime_seconds == now - t);
            }
        }
        st
    }

    /// The lifecycle status of `agent_id`, if it is registered.
    pub fn agent_status(&self, agent_id: AgentId) -> (r: Option<AgentStatus>)
        requires
            self.wf(),
        ensures
            r is Some <==> has_agent(self.entries(), agent_id),
            r matches Some(st) ==> st == self.entries()[agent_index(self.entries(), agent_id)].agent.status,
    {
        match self.find_agent(agent_id) {
            Some(i) => Some(self.entries[i].agent.status.clone()),
            None => None,
        }
    }

    /// The stored row of `agent_id`, if the agents table holds one.
    pub fn stored_agent(&self, agent_id: AgentId) -> (r: Option<AgentRecord>)
        requires
            self.wf(),
        ensures
            r is Some <==> row_map(self.agents_table().rows()).contains_key(agent_id),
            r matches Some(x) ==> x == row_map(self.agents_table().rows())[agent_id],
    {
        self.agents_table.load_agent(agent_id)
    }

    /// The checkpointed state of `agent_id`, if the state manager holds one.
    pub fn load_state(&self, agent_id: AgentId) -> (r: Option<crate::state::AgentState>)
        ensures
            r is Some <==> self.state_manager().states().contains_key(agent_id),
            r matches Some(st) ==> st == self.state_manager().states()[agent_id],
    {
        self.state_manager.load_agent_state(agent_id)
    }

    /// The ids of the registered agents, in registration order.
    pub fn agent_ids(&self) -> (r: Vec<AgentId>)
        ensures
            r@.len() == self.entries().len(),
            forall|i: int| 0 <= i < r@.len() ==> #[trigger] r@[i] == self.entries()[i].agent.id,
    {
        let mut r: Vec<AgentId> = Vec::new();
        let mut i: usize = 0;
        while i < self.entries.len()
            invariant
                i <= self.entries@.len(),
                r@.len() == i,
                forall|j: int| 0 <= j < i ==> #[trigger] r@[j] == self.entries@[j].agent.id,
            decreases self.entries.len() - i,
        {
            r.push(self.entries[i].agent.id);
            i += 1;
        }
        r
    }

    /// Starts the next queued action of a `Running` agent, as its executor's
    /// `dispatch_next` does; `None` for an agent in any other status.
    pub fn dispatch(&mut self, agent_id: AgentId, now: UnixSeconds, now_ms: u64) -> (r: Result<Option<Dispatch>, AgentSpaceError>)
        requires
            old(self).wf(),
        ensures
            final(self).wf(),
            final(self).running() == old(self).running(),
            final(self).scheduler() == old(self).scheduler(),
            final(self).bus() == old(self).bus(),
            final(self).state_manager() == old(self).state_manager(),
            final(self).processed() == old(self).processed(),
            r is Err <==> !has_agent(old(self).entries(), agent_id),
            r is Err ==> r == Err::<Option<Dispatch>, AgentSpaceError>(AgentSpaceError::NotRegistered(agent_id)),
            r is Err ==> final(self).entries() == old(self).entries(),
            r is Ok ==> ({
                let i = agent_index(old(self).entries(), agent_id);
                let e0 = old(self).entries()[i];
                &&& entries_equal_except(final(self).entries(), old(self).entries(), i)
                &&& final(self).entries()[i].agent == e0.agent
                &&& (r->Ok_0 is Some <==> e0.agent.status is Running && e0.executor.running()
                    && e0.executor.queue().len() > 0 && e0.executor.active().len() < e0.executor.max_concurrent())
                &&& final(self).entries()[i].executor.active().len() <= e0.executor.max_concurrent()
                &&& (r->Ok_0 is None ==> final(self).entries()[i].executor.queue() == e0.executor.queue()
                    && final(self).entries()[i].executor.active() == e0.executor.active())
                &&& (r->Ok_0 matches Some(d) ==> ({
                    let a = e0.executor.queue()[0];
                    &&& final(self).entries()[i].executor.queue() == e0.executor.queue().drop_first()
                    &&& d.action == AgentAction { status: crate::types::ActionStatus::Running, started_at: now, ..a }
                    &&& d.context.action_id == a.id
                    &&& d.context.agent_id == agent_id
                    &&& d.context.started_at_ms == now_ms
                    &&& d.context.timeout_seconds == e0.executor.configuration().timeout_seconds
                    &&& d.context.retry_count == 0
                    &&& d.context.max_retries == e0.executor.configuration().retry_attempts
                    &&& d.context.environment@ == e0.executor.configuration().environment_variables@
                    &&& d.context.input_data == a.input_data
                    &&& d.context.current_status == crate::types::ActionStatus::Running
                    &&& final(self).entries()[i].executor.active().drop_last() == e0.executor.active()
                    &&& final(self).entries()[i].executor.active().last()@ == d.context@
                    &&& route_is(d.route, a.action_type, a.input_data, e0.executor.has_backend())
                }))
            }),
    {
        let i = match self.find_agent(agent_id) {
            Some(i) => i,
            None => return Err(AgentSpaceError::NotRegistered(agent_id)),
        };
        let ghost s = self.entries@;
        let mut e = self.entries.remove(i);
        assert(e == s[i as int]);
        let d = if matches!(e.agent.status, AgentStatus::Running) {
            e.executor.dispatch_next(now, now_ms)
        } else {
            None
        };
        proof {
            Self::lemma_replace(s, i as int, e);
        }
        self.put_back(i, e);
        proof {
            assert forall|j: int| 0 <= j < self.entries@.len() implies (#[trigger] self.entries@[j]).executor.agent()
                == self.entries@[j].agent.id && self.entries@[j].executor.wf() by {
                if j != i {
                    assert(self.entries@[j] == s[j]);
                }
            }
        }
        Ok(d)
    }

    /// Takes back a dispatched action of `agent_id` with its outcome, as its executor's
    /// `complete` does. A completion is counted, and the agent's metrics record it at
    /// `now` where the counters allow.
    pub fn complete_action(
        &mut self,
        agent_id: AgentId,
        action: AgentAction,
        outcome: ActionOutcome,
        now: UnixSeconds,
        elapsed_ms: u64,
    ) -> (r: Result<Option<Completion>, AgentSpaceError>)
        requires
            old(self).wf(),
        ensures
            final(self).wf(),
            final(self).running() == old(self).running(),
            final(self).scheduler() == old(self).scheduler(),
            final(self).bus() == old(self).bus(),
            final(self).state_manager() == old(self).state_manager(),
            r is Err <==> !has_agent(old(self).entries(), agent_id),
            r is Err ==> r == Err::<Option<Completion>, AgentSpaceError>(AgentSpaceError::NotRegistered(agent_id)),
            r is Err ==> final(self).entries() == old(self).entries(),
            r matches Ok(None) ==> final(self).processed() == old(self).processed(),
            r matches Ok(Some(_)) ==> final(self).processed() == if old(self).processed() < u64::MAX {
                (old(self).processed() + 1) as u64
            } else {
                old(self).processed()
            },
            r is Ok ==> ({
                let i = agent_index(old(self).entries(), agent_id);
                let e0 = old(self).entries()[i];
                &&& entries_equal_except(final(self).entries(), old(self).entries(), i)
                &&& (r->Ok_0 is Some <==> crate::executor::has_context(e0.executor.active(), action.id))
                &&& (r->Ok_0 is None ==> final(self).entries()[i].agent == e0.agent)
                &&& (r->Ok_0 matches Some(c) ==> final(self).entries()[i].agent == if e0.agent.can_record(
                    c.result.execution_time_ms,
                ) {
                    e0.agent.recorded(c.result.execution_time_ms, c.result.success, now)
                } else {
                    e0.agent
                })
                &&& (r->Ok_0 matches Some(c) ==> final(self).entries()[i].executor.active() == e0.executor.active().remove(
                    crate::executor::first_context(e0.executor.active(), action.id),
                ))
                &&& (r->Ok_0 matches Some(c) ==> is_result_of(
                    c.result,
                    action.id,
                    outcome,
                    elapsed_ms,
                    e0.executor.active()[first_context(e0.executor.active(), action.id)].timeout_seconds,
                ) && is_finished(c.action, action, c.result, now) && c.announcement == if c.result.success {
                    crate::messaging::MessageType::ActionCompleted
                } else {
                    crate::messaging::MessageType::ActionFailed
                })
                &&& !crate::executor::has_context(final(self).entries()[i].executor.active(), action.id)
            }),
    {
        let i = match self.find_agent(agent_id) {
            Some(i) => i,
            None => return Err(AgentSpaceError::NotRegistered(agent_id)),
        };
        let ghost s = self.entries@;
        let mut e = self.entries.remove(i);
        assert(e == s[i as int]);
        let c = e.executor.complete(action, outcome, now, elapsed_ms);
        if let Some(done) = &c {
            let t = done.result.execution_time_ms;
            if e.agent.metrics.total_executions < u64::MAX && e.agent.metrics.successful_executions < u64::MAX
                && e.agent.metrics.failed_executions < u64::MAX && t <= u64::MAX - e.agent.metrics.total_runtime_ms {
                e.agent.update_metrics_at(t, done.result.success, now);
            }
            if self.actions_processed < u64::MAX {
                self.actions_processed = self.actions_processed + 1;
            }
        }
        proof {
            Self::lemma_replace(s, i as int, e);
        }
        self.put_back(i, e);
        proof {
            assert forall|j: int| 0 <= j < self.entries@.len() implies (#[trigger] self.entries@[j]).executor.agent()
                == self.entries@[j].agent.id && self.entries@[j].executor.wf() by {
                if j != i {
                    assert(self.entries@[j] == s[j]);
                }
            }
        }
        Ok(c)
    }

    /// Appends the record of a finished action to the state manager.
    pub fn record_result(&mut self, completion: &Completion) -> (r: Result<(), AgentSpaceError>)
        requires
            old(self).wf(),
        ensures
            final(self).wf(),
            final(self).running() == old(self).running(),
            final(self).entries() == old(self).entries(),
            final(self).scheduler() == old(self).scheduler(),
            final(self).bus() == old(self).bus(),
            final(self).processed() == old(self).processed(),
            final(self).state_manager().states() == old(self).state_manager().states(),
            r is Ok <==> !crate::state::has_record(old(self).state_manager().records(), completion.action.id),
            r is Err ==> final(self).state_manager().records() == old(self).state_manager().records(),
            final(self).agents_table() == old(self).agents_table(),
            r is Ok ==> final(self).state_manager().records().len() == old(self).state_manager().records().len() + 1,
            r is Ok ==> ({
                let k = crate::state::save_point(old(self).state_manager().records(), completion.action.started_at);
                &&& final(self).state_manager().records().remove(k) == old(self).state_manager().records()
                &&& final(self).state_manager().records()[k].action == completion.action
                &&& final(self).state_manager().records()[k].result@ == completion.result@
            }),
    {
        self.state_manager.save_action_result(&completion.action, &completion.result)
    }

    /// Sends a message on the bus; see `MessageBus::send_message`.
    pub fn send_message(&mut self, message: InterAgentMessage) -> (r: Result<(), AgentSpaceError>)
        requires
            old(self).wf(),
        ensures
            final(self).wf(),
            final(self).running() == old(self).running(),
            final(self).entries() == old(self).entries(),
            final(self).scheduler() == old(self).scheduler(),
            final(self).state_manager() == old(self).state_manager(),
            final(self).processed() == old(self).processed(),
            final(self).bus().running() == old(self).bus().running(),
            final(self).agents_table() == old(self).agents_table(),
            final(self).bus().max_history() == old(self).bus().max_history(),
            !old(self).bus().running() ==> r == Err::<(), AgentSpaceError>(AgentSpaceError::NotRunning)
                && final(self).bus().history() == old(self).bus().history()
                && final(self).bus().inboxes() == old(self).bus().inboxes()
                && final(self).bus().subscriptions() == old(self).bus().subscriptions(),
            old(self).bus().running() ==> final(self).bus().history() == bounded_push(
                old(self).bus().history(),
                message,
                old(self).bus().max_history(),
            ),
            old(self).bus().running() && message.to_agent is None ==> r is Ok
                && final(self).bus().inboxes() == old(self).bus().inboxes()
                && final(self).bus().subscriptions().len() == old(self).bus().subscriptions().len()
                && forall|i: int| 0 <= i < old(self).bus().subscriptions().len() ==> #[trigger] final(self).bus().subscriptions()[i]
                    == bounded_push(old(self).bus().subscriptions()[i], message, BROADCAST_CAPACITY as nat),
            old(self).bus().running() && message.to_agent is Some ==> final(self).bus().subscriptions() == old(self).bus().subscriptions(),
            old(self).bus().running() && message.to_agent is Some ==> ({
                let t = message.to_agent->Some_0;
                if !old(self).bus().inboxes().contains_key(t) {
                    r == Err::<(), AgentSpaceError>(AgentSpaceError::NotRegistered(t)) && final(self).bus().inboxes() == old(self).bus().inboxes()
                } else if old(self).bus().inboxes()[t].1 || old(self).bus().inboxes()[t].0.len() >= INBOX_CAPACITY {
                    r == Err::<(), AgentSpaceError>(AgentSpaceError::SendFailed(t)) && final(self).bus().inboxes() == old(self).bus().inboxes()
                } else {
                    r is Ok && final(self).bus().inboxes() == old(self).bus().inboxes().insert(t, (old(self).bus().inboxes()[t].0.push(message), false))
                }
            }),
    {
        self.message_bus.send_message(message)
    }

    /// Fires the rules due at `now` and hands each produced action to the executor of
    /// its agent. Returns the fired actions and, for each, whether its agent took it.
    pub fn tick(&mut self, now: UnixSeconds) -> (r: (Vec<ScheduledAction>, Vec<Result<(), AgentSpaceError>>))
        requires
            old(self).wf(),
            crate::calendar::is_instant(now as int),
        ensures
            final(self).wf(),
            final(self).running() == old(self).running(),
            final(self).bus() == old(self).bus(),
            final(self).state_manager() == old(self).state_manager(),
            final(self).processed() == old(self).processed(),
            final(self).entries().len() == old(self).entries().len(),
            r.0@ == crate::scheduler::fired_actions(old(self).scheduler()@, now),
            r.1@.len() == r.0@.len(),
            forall|j: int| 0 <= j < old(self).entries().len() ==> (#[trigger] final(self).entries()[j]).agent
                == old(self).entries()[j].agent,
            forall|k: int| 0 <= k < r.1@.len() && (#[trigger] r.1@[k]) is Ok ==> has_agent(
                old(self).entries(),
                r.0@[k].agent_id,
            ),
            final(self).scheduler()@.len() == old(self).scheduler()@.len(),
            forall|i: int| 0 <= i < old(self).scheduler()@.len() ==> if crate::scheduler::is_due(
                old(self).scheduler()@[i],
                now as int,
            ) {
                crate::scheduler::is_fired(old(self).scheduler()@[i], #[trigger] final(self).scheduler()@[i], now)
            } else {
                final(self).scheduler()@[i] == old(self).scheduler()@[i]
            },
    {
        let fired = self.scheduler.tick(now);
        let mut outcomes: Vec<Result<(), AgentSpaceError>> = Vec::new();
        let mut k: usize = 0;
        let ghost sched = self.scheduler;
        let ghost n = self.entries@.len();
        while k < fired.len()
            invariant
                self.wf(),
                self.scheduler == sched,
                self.bus() == old(self).bus(),
                self.state_manager() == old(self).state_manager(),
                self.processed() == old(self).processed(),
                self.running() == old(self).running(),
                self.entries@.len() == n,
                n == old(self).entries().len(),
                forall|j: int| 0 <= j < n ==> (#[trigger] self.entries@[j]).agent == old(self).entries()[j].agent,
                k <= fired@.len(),
                outcomes@.len() == k,
                forall|q: int| 0 <= q < k && (#[trigger] outcomes@[q]) is Ok ==> has_agent(
                    old(self).entries(),
                    fired@[q].agent_id,
                ),
            decreases fired.len() - k,
        {
            let item = &fired[k];
            let ghost before = self.entries@;
            let mut instance = item.action.clone();
            instance.id = new_uuid();
            let res = self.execute_action(item.agent_id, instance);
            proof {
                if res is Ok {
                    let i = agent_index(before, item.agent_id);
                    assert(before[i].agent == old(self).entries()[i].agent);
                    assert(old(self).entries()[i].agent.id == item.agent_id);
                }
                assert forall|j: int| 0 <= j < n implies (#[trigger] self.entries@[j]).agent
                    == old(self).entries()[j].agent by {
                    if res is Ok {
                        let i = agent_index(before, item.agent_id);
                        if j != i {
                            assert(self.entries@[j] == before[j]);
                        }
                    }
                }
            }
            outcomes.push(res);
            k += 1;
        }
        (fired, outcomes)
    }

    /// Carries out one command of the control loop. Each lifecycle command has the
    /// outcome of the operation of the same name; a stop, restart or removal hands
    /// back the cancelled contexts, `Shutdown` stops the orchestrator, `GetStatus`
    /// changes nothing.
    pub fn handle_command(&mut self, command: OrchestratorCommand) -> (r: Result<Vec<ExecutionContext>, AgentSpaceError>)
        requires
            old(self).wf(),
        ensures
            final(self).wf(),
            command matches OrchestratorCommand::StartAgent(id) ==> is_started(old(self).entries(), final(self).entries(), id, match r {
                Ok(_) => Ok(()),
                Err(e) => Err(e),
            }),
            command matches OrchestratorCommand::PauseAgent(id) ==> is_paused(old(self).entries(), final(self).entries(), id, match r {
                Ok(_) => Ok(()),
                Err(e) => Err(e),
            }),
            command matches OrchestratorCommand::ResumeAgent(id) ==> is_resumed(old(self).entries(), final(self).entries(), id, match r {
                Ok(_) => Ok(()),
                Err(e) => Err(e),
            }),
            command matches OrchestratorCommand::StopAgent(id) ==> is_stopped(old(self).entries(), final(self).entries(), id, r),
            command matches OrchestratorCommand::RestartAgent(id) ==> is_restarted(old(self).entries(), final(self).entries(), id, r),
            command matches OrchestratorCommand::RemoveAgent(id) ==> is_removed(old(self).entries(), final(self).entries(), id, r),
            command matches OrchestratorCommand::ExecuteAction(id, a) ==> is_queued(old(self).entries(), final(self).entries(), id, a, match r {
                Ok(_) => Ok(()),
                Err(e) => Err(e),
            }),
            command is Shutdown ==> !final(self).running() && r is Ok,
            command is GetStatus ==> final(self).entries() == old(self).entries() && r is Ok && final(self).running() == old(self).running(),
    {
        match command {
            OrchestratorCommand::StartAgent(id) => match self.start_agent(id) {
                Ok(()) => Ok(Vec::new()),
                Err(e) => Err(e),
            },
            OrchestratorCommand::StopAgent(id) => self.stop_agent(id),
            OrchestratorCommand::PauseAgent(id) => match self.pause_agent(id) {
                Ok(()) => Ok(Vec::new()),
                Err(e) => Err(e),
            },
            OrchestratorCommand::ResumeAgent(id) => match self.resume_agent(id) {
                Ok(()) => Ok(Vec::new()),
                Err(e) => Err(e),
            },
            OrchestratorCommand::RestartAgent(id) => self.restart_agent(id),
            OrchestratorCommand::ExecuteAction(id, action) => match self.execute_action(id, action) {
                Ok(()) => Ok(Vec::new()),
                Err(e) => Err(e),
            },
            OrchestratorCommand::RemoveAgent(id) => self.remove_agent(id),
            OrchestratorCommand::Shutdown => Ok(self.stop()),
            OrchestratorCommand::GetStatus => Ok(Vec::new()),
        }
    }
}

} // verus!
