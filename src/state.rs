//! Checkpointed per-agent state and the append-only history of finished actions.

use std::collections::HashMap;

use vstd::prelude::*;
use vstd::string::*;

use crate::error::AgentSpaceError;
use crate::executor::ExecutionResult;
use crate::outside::unix_now;
use crate::types::{AgentAction, AgentId, UnixSeconds};

verus! {

broadcast use vstd::std_specs::hash::group_hash_axioms;

/// Durable state of one agent. Data fields are JSON texts.
#[derive(Debug)]
pub struct AgentState {
    pub agent_id: AgentId,
    pub persistent_data: String,
    pub runtime_data: String,
    pub last_checkpoint: UnixSeconds,
    /// Grows with each change of `persistent_data` and each checkpoint.
    pub version: u32,
}

impl Clone for AgentState {
    fn clone(&self) -> (r: Self)
        ensures
            r == *self,
    {
        AgentState {
            agent_id: self.agent_id,
            persistent_data: self.persistent_data.clone(),
            runtime_data: self.runtime_data.clone(),
            last_checkpoint: self.last_checkpoint,
            version: self.version,
        }
    }
}

/// The state of a newly created agent: empty JSON objects at version 1.
pub open spec fn is_initial_state(s: AgentState, agent_id: AgentId, now: UnixSeconds) -> bool {
    &&& s.agent_id == agent_id
    &&& s.persistent_data@ == "{}"@
    &&& s.runtime_data@ == "{}"@
    &&& s.last_checkpoint == now
    &&& s.version == 1
}

/// `s` with new persistent data, checkpointed at `now`, one version on.
pub open spec fn with_persistent(s: AgentState, data: String, now: UnixSeconds) -> AgentState {
    AgentState { persistent_data: data, last_checkpoint: now, version: (s.version + 1) as u32, ..s }
}

/// `s` with new runtime data, checkpointed at `now`, at the same version.
pub open spec fn with_runtime(s: AgentState, data: String, now: UnixSeconds) -> AgentState {
    AgentState { runtime_data: data, last_checkpoint: now, ..s }
}

/// `s` checkpointed at `now`, one version on, its data unchanged.
pub open spec fn checkpointed(s: AgentState, now: UnixSeconds) -> AgentState {
    AgentState { last_checkpoint: now, version: (s.version + 1) as u32, ..s }
}

/// `s` after each persistent update of `updates` in turn.
pub open spec fn persistent_updates(s: AgentState, updates: Seq<(String, UnixSeconds)>) -> AgentState
    decreases updates.len(),
{
    if updates.len() == 0 {
        s
    } else {
        let p = persistent_updates(s, updates.drop_last());
        with_persistent(p, updates.last().0, updates.last().1)
    }
}

/// Checkpoint monotonicity: each persistent update raises the version by one, so
/// repeated updates raise it strictly; a runtime update leaves it as it was.
pub proof fn lemma_checkpoint_monotonic(
    s: AgentState,
    updates: Seq<(String, UnixSeconds)>,
    data: String,
    now: UnixSeconds,
)
    requires
        s.version + updates.len() <= u32::MAX,
    ensures
        persistent_updates(s, updates).version == s.version + updates.len(),
        updates.len() > 0 ==> persistent_updates(s, updates).version > s.version,
        with_runtime(s, data, now).version == s.version,
    decreases updates.len(),
{
    if updates.len() > 0 {
        lemma_checkpoint_monotonic(s, updates.drop_last(), data, now);
    }
}

/// One entry of the action history: the action in its final state and its result.
#[derive(Debug)]
pub struct ActionRecord {
    pub action: AgentAction,
    pub result: ExecutionResult,
    /// When the action started; the history is pruned by this instant.
    pub created_at: UnixSeconds,
    pub completed_at: Option<UnixSeconds>,
}

/// Counts of what a state manager holds.
#[derive(Debug, Clone, Copy, PartialEq, Eq, Structural)]
pub struct StateStatistics {
    pub total_agent_states: u64,
    pub total_action_history: u64,
    pub cached_states: usize,
}

pub open spec fn record_not_of_agent(agent_id: AgentId) -> spec_fn(ActionRecord) -> bool {
    |r: ActionRecord| r.action.agent_id != agent_id
}

pub open spec fn record_kept(cutoff: int) -> spec_fn(ActionRecord) -> bool {
    |r: ActionRecord| r.created_at >= cutoff
}

/// The actions of `agent_id` recorded in `s`, in the order of `s`.
pub open spec fn actions_of(s: Seq<ActionRecord>, agent_id: AgentId) -> Seq<AgentAction>
    decreases s.len(),
{
    if s.len() == 0 {
        Seq::empty()
    } else if s.last().action.agent_id == agent_id {
        actions_of(s.drop_last(), agent_id).push(s.last().action)
    } else {
        actions_of(s.drop_last(), agent_id)
    }
}

/// Records ordered by start time, the latest first; each record's time is its
/// action's start.
pub open spec fn history_ordered(s: Seq<ActionRecord>) -> bool {
    &&& forall|i: int, j: int| 0 <= i < j < s.len() ==> s[i].created_at >= s[j].created_at
    &&& forall|i: int| 0 <= i < s.len() ==> #[trigger] s[i].created_at == s[i].action.started_at
}

/// Where a record that started at `t` goes in `s`: after every record that started
/// at `t` or later.
pub open spec fn save_point(s: Seq<ActionRecord>, t: UnixSeconds) -> int
    decreases s.len(),
{
    if s.len() == 0 {
        0
    } else if s.last().created_at >= t {
        s.len() as int
    } else {
        save_point(s.drop_last(), t)
    }
}

/// The first `n` entries of `s`, all of them without a limit.
pub open spec fn first_n<T>(s: Seq<T>, limit: Option<u32>) -> Seq<T> {
    match limit {
        Some(n) => if s.len() > n {
            s.subrange(0, n as int)
        } else {
            s
        },
        None => s,
    }
}

pub open spec fn has_record(s: Seq<ActionRecord>, id: u128) -> bool {
    exists|i: int| 0 <= i < s.len() && s[i].action.id == id
}

/// Agent states keyed by agent, and the history of finished actions in the order
/// they were saved.
pub struct StateManager {
    states: HashMap<u128, AgentState>,
    history: Vec<ActionRecord>,
}

impl StateManager {
    pub closed spec fn states(&self) -> Map<AgentId, AgentState> {
        self.states@
    }

    pub closed spec fn records(&self) -> Seq<ActionRecord> {
        self.history@
    }

    /// The history is ordered by start time, the latest first.
    pub open spec fn wf(&self) -> bool {
        history_ordered(self.records())
    }

    /// An empty manager.
    pub fn new() -> (r: StateManager)
        ensures
            r.wf(),
            r.states() == Map::<AgentId, AgentState>::empty(),
            r.records().len() == 0,
    {
        StateManager { states: HashMap::new(), history: Vec::new() }
    }

    /// Stores `state` under its agent, in place of any earlier one.
    pub fn save_agent_state(&mut self, state: &AgentState)
        ensures
            final(self).states() == old(self).states().insert(state.agent_id, *state),
            final(self).records() == old(self).records(),
    {
        self.states.insert(state.agent_id, state.clone());
    }

    /// The state of `agent_id`, if there is one.
    pub fn load_agent_state(&self, agent_id: AgentId) -> (r: Option<AgentState>)
        ensures
            r is Some <==> self.states().contains_key(agent_id),
            r matches Some(s) ==> s == self.states()[agent_id],
    {
        match self.states.get(&agent_id) {
            Some(s) => Some(s.clone()),
            None => None,
        }
    }

    /// Creates the initial state of `agent_id` at `now`: empty data, version 1.
    /// Fails where the agent has a state already.
    pub fn create_agent_state_at(&mut self, agent_id: AgentId, now: UnixSeconds) -> (r: Result<AgentState, AgentSpaceError>)
        ensures
            final(self).records() == old(self).records(),
            old(self).states().contains_key(agent_id) ==> r == Err::<AgentState, AgentSpaceError>(
                AgentSpaceError::AlreadyExists(agent_id),
            ) && final(self).states() == old(self).states(),
            !old(self).states().contains_key(agent_id) ==> r is Ok,
            r matches Ok(s) ==> is_initial_state(s, agent_id, now) && final(self).states()
                == old(self).states().insert(agent_id, s),
    {
        if self.states.contains_key(&agent_id) {
            return Err(AgentSpaceError::AlreadyExists(agent_id));
        }
        proof {
            reveal_strlit("{}");
        }
        let state = AgentState {
            agent_id,
            persistent_data: String::from_str("{}"),
            runtime_data: String::from_str("{}"),
            last_checkpoint: now,
            version: 1,
        };
        self.states.insert(agent_id, state.clone());
        Ok(state)
    }

    /// `create_agent_state_at` at the current time.
    pub fn create_agent_state(&mut self, agent_id: AgentId) -> (r: Result<AgentState, AgentSpaceError>)
        ensures
            final(self).records() == old(self).records(),
            old(self).states().contains_key(agent_id) ==> r is Err && final(self).states() == old(self).states(),
            !old(self).states().contains_key(agent_id) ==> r is Ok,
            r matches Ok(s) ==> is_initial_state(s, agent_id, s.last_checkpoint) && final(self).states()
                == old(self).states().insert(agent_id, s),
    {
        let now = unix_now();
        self.create_agent_state_at(agent_id, now)
    }

    /// Replaces the persistent data of `agent_id`, checkpointed at `now`, one version on.
    /// Fails where the agent has no state, or its version cannot grow.
    pub fn update_persistent_data_at(&mut self, agent_id: AgentId, data: String, now: UnixSeconds) -> (r: Result<(), AgentSpaceError>)
        ensures
            final(self).records() == old(self).records(),
            !old(self).states().contains_key(agent_id) ==> r == Err::<(), AgentSpaceError>(
                AgentSpaceError::NotFound(agent_id),
            ),
            old(self).states().contains_key(agent_id) && old(self).states()[agent_id].version == u32::MAX
                ==> r == Err::<(), AgentSpaceError>(AgentSpaceError::VersionExhausted),
            r is Err ==> final(self).states() == old(self).states(),
            r is Ok <==> old(self).states().contains_key(agent_id) && old(self).states()[agent_id].version < u32::MAX,
            r is Ok ==> final(self).states() == old(self).states().insert(
                agent_id,
                with_persistent(old(self).states()[agent_id], data, now),
            ),
    {
        let mut state = match self.states.get(&agent_id) {
            Some(s) => s.clone(),
            None => return Err(AgentSpaceError::NotFound(agent_id)),
        };
        if state.version == u32::MAX {
            return Err(AgentSpaceError::VersionExhausted);
        }
        state.persistent_data = data;
        state.last_checkpoint = now;
        state.version = state.version + 1;
        self.states.insert(agent_id, state);
        Ok(())
    }

    /// `update_persistent_data_at` at the current time.
    pub fn update_persistent_data(&mut self, agent_id: AgentId, data: String) -> (r: Result<(), AgentSpaceError>)
        ensures
            final(self).records() == old(self).records(),
            r is Ok <==> old(self).states().contains_key(agent_id) && old(self).states()[agent_id].version < u32::MAX,
            r is Err ==> final(self).states() == old(self).states(),
            r is Ok ==> final(self).states()[agent_id] == with_persistent(
                old(self).states()[agent_id],
                data,
                final(self).states()[agent_id].last_checkpoint,
            ),
            r is Ok ==> final(self).states() == old(self).states().insert(agent_id, final(self).states()[agent_id]),
    {
        let now = unix_now();
        self.update_persistent_data_at(agent_id, data, now)
    }

    /// Replaces the runtime data of `agent_id`, checkpointed at `now`, at the same version.
    /// Fails where the agent has no state.
    pub fn update_runtime_data_at(&mut self, agent_id: AgentId, data: String, now: UnixSeconds) -> (r: Result<(), AgentSpaceError>)
        ensures
            final(self).records() == old(self).records(),
            r is Ok <==> old(self).states().contains_key(agent_id),
            r is Err ==> r == Err::<(), AgentSpaceError>(AgentSpaceError::NotFound(agent_id))
                && final(self).states() == old(self).states(),
            r is Ok ==> final(self).states() == old(self).states().insert(
                agent_id,
                with_runtime(old(self).states()[agent_id], data, now),
            ),
    {
        let mut state = match self.states.get(&agent_id) {
            Some(s) => s.clone(),
            None => return Err(AgentSpaceError::NotFound(agent_id)),
        };
        state.runtime_data = data;
        state.last_checkpoint = now;
        self.states.insert(agent_id, state);
        Ok(())
    }

    /// `update_runtime_data_at` at the current time.
    pub fn update_runtime_data(&mut self, agent_id: AgentId, data: String) -> (r: Result<(), AgentSpaceError>)
        ensures
            final(self).records() == old(self).records(),
            r is Ok <==> old(self).states().contains_key(agent_id),
            r is Err ==> final(self).states() == old(self).states(),
            r is Ok ==> final(self).states()[agent_id] == with_runtime(
                old(self).states()[agent_id],
                data,
                final(self).states()[agent_id].last_checkpoint,
            ),
            r is Ok ==> final(self).states() == old(self).states().insert(agent_id, final(self).states()[agent_id]),
    {
        let now = unix_now();
        self.update_runtime_data_at(agent_id, data, now)
    }

    /// Marks the state of `agent_id` as a known-good point at `now`: one version on,
    /// its data unchanged. Fails where the agent has no state, or its version cannot grow.
    pub fn create_checkpoint_at(&mut self, agent_id: AgentId, now: UnixSeconds) -> (r: Result<(), AgentSpaceError>)
        ensures
            final(self).records() == old(self).records(),
            !old(self).states().contains_key(agent_id) ==> r == Err::<(), AgentSpaceError>(
                AgentSpaceError::NotFound(agent_id),
            ),
            old(self).states().contains_key(agent_id) && old(self).states()[agent_id].version == u32::MAX
                ==> r == Err::<(), AgentSpaceError>(AgentSpaceError::VersionExhausted),
            r is Err ==> final(self).states() == old(self).states(),
            r is Ok <==> old(self).states().contains_key(agent_id) && old(self).states()[agent_id].version < u32::MAX,
            r is Ok ==> final(self).states() == old(self).states().insert(
                agent_id,
                checkpointed(old(self).states()[agent_id], now),
            ),
    {
        let mut state = match self.states.get(&agent_id) {
            Some(s) => s.clone(),
            None => return Err(AgentSpaceError::NotFound(agent_id)),
        };
        if state.version == u32::MAX {
            return Err(AgentSpaceError::VersionExhausted);
        }
        state.last_checkpoint = now;
        state.version = state.version + 1;
        self.states.insert(agent_id, state);
        Ok(())
    }

    /// `create_checkpoint_at` at the current time.
    pub fn create_checkpoint(&mut self, agent_id: AgentId) -> (r: Result<(), AgentSpaceError>)
        ensures
            final(self).records() == old(self).records(),
            r is Ok <==> old(self).states().contains_key(agent_id) && old(self).states()[agent_id].version < u32::MAX,
            r is Err ==> final(self).states() == old(self).states(),
            r is Ok ==> final(self).states()[agent_id] == checkpointed(
                old(self).states()[agent_id],
                final(self).states()[agent_id].last_checkpoint,
            ),
            r is Ok ==> final(self).states() == old(self).states().insert(agent_id, final(self).states()[agent_id]),
    {
        let now = unix_now();
        self.create_checkpoint_at(agent_id, now)
    }

    fn has_record_exec(&self, id: u128) -> (r: bool)
        ensures
            r == has_record(self.records(), id),
    {
        let mut i: usize = 0;
        while i < self.history.len()
            invariant
                i <= self.history@.len(),
                forall|j: int| 0 <= j < i ==> self.history@[j].action.id != id,
            decreases self.history.len() - i,
        {
            if self.history[i].action.id == id {
                return true;
            }
            i += 1;
        }
        false
    }

    /// Adds the record of a finished action, after every record whose action started
    /// at the same time or later. Records are never changed; a second record for the
    /// same action id is refused.
    #[verifier::rlimit(60)]
    pub fn save_action_result(&mut self, action: &AgentAction, result: &ExecutionResult) -> (r: Result<(), AgentSpaceError>)
        requires
            old(self).wf(),
        ensures
            final(self).wf(),
            final(self).states() == old(self).states(),
            has_record(old(self).records(), action.id) ==> r == Err::<(), AgentSpaceError>(
                AgentSpaceError::AlreadyExists(action.id),
            ) && final(self).records() == old(self).records(),
            !has_record(old(self).records(), action.id) ==> r is Ok,
            r is Ok ==> final(self).records().len() == old(self).records().len() + 1,
            r is Ok ==> final(self).records().remove(save_point(old(self).records(), action.started_at))
                == old(self).records(),
            r is Ok ==> ({
                let k = save_point(old(self).records(), action.started_at);
                &&& 0 <= k <= old(self).records().len()
                &&& final(self).records()[k].action == *action
                &&& final(self).records()[k].result@ == result@
                &&& final(self).records()[k].created_at == action.started_at
                &&& final(self).records()[k].completed_at == action.completed_at
            }),
    {
        if self.has_record_exec(action.id) {
            return Err(AgentSpaceError::AlreadyExists(action.id));
        }
        let record = ActionRecord {
            action: action.clone(),
            result: result.clone(),
            created_at: action.started_at,
            completed_at: action.completed_at,
        };
        let t = action.started_at;
        let ghost old_h = self.history@;
        let mut i = self.history.len();
        assert(old_h.subrange(0, i as int) =~= old_h);
        while i > 0 && self.history[i - 1].created_at < t
            invariant
                self.history@ == old_h,
                i <= old_h.len(),
                forall|j: int| i <= j < old_h.len() ==> old_h[j].created_at < t,
                save_point(old_h, t) == save_point(old_h.subrange(0, i as int), t),
            decreases i,
        {
            proof {
                let u = old_h.subrange(0, i as int);
                assert(u.drop_last() =~= old_h.subrange(0, i - 1));
            }
            i -= 1;
        }
        proof {
            let u = old_h.subrange(0, i as int);
            if i > 0 {
                assert(u.last() == old_h[i - 1]);
            }
            assert(save_point(u, t) == i);
        }
        self.history.insert(i, record);
        proof {
            let h = self.history@;
            assert forall|a: int, b: int| 0 <= a < b < h.len() implies h[a].created_at >= h[b].created_at by {
                if b < i {
                    assert(old_h[a].created_at >= old_h[b].created_at);
                } else if b == i {
                    if a < i {
                        assert(old_h[a].created_at >= t) by {
                            if a < i - 1 {
                                assert(old_h[a].created_at >= old_h[i - 1].created_at);
                            }
                        }
                    }
                } else if a < i {
                    assert(old_h[a].created_at >= old_h[b - 1].created_at);
                } else if a == i {
                    assert(old_h[b - 1].created_at < t);
                } else {
                    assert(old_h[a - 1].created_at >= old_h[b - 1].created_at);
                }
            }
            assert forall|a: int| 0 <= a < h.len() implies #[trigger] h[a].created_at == h[a].action.started_at by {
                if a < i {
                    assert(h[a] == old_h[a]);
                } else if a > i {
                    assert(h[a] == old_h[a - 1]);
                }
            }
            assert(h.remove(i as int) =~= old_h);
        }
        Ok(())
    }

    /// The actions of `agent_id`, newest start first (among equal start times, in the
    /// order they were saved), at most `limit` of them.
    pub fn get_action_history(&self, agent_id: AgentId, limit: Option<u32>) -> (r: Vec<AgentAction>)
        requires
            self.wf(),
        ensures
            r@ == first_n(actions_of(self.records(), agent_id), limit),
            forall|a: int, b: int| 0 <= a < b < r@.len() ==> r@[a].started_at >= r@[b].started_at,
            forall|a: int| 0 <= a < r@.len() ==> (#[trigger] r@[a]).agent_id == agent_id,
    {
        let mut r: Vec<AgentAction> = Vec::new();
        let len = self.history.len();
        let ghost h = self.history@;
        let mut i: usize = 0;
        while i < len
            invariant
                len == h.len(),
                h == self.history@,
                history_ordered(h),
                i <= len,
                r@ == actions_of(h.subrange(0, i as int), agent_id),
                forall|a: int, b: int| 0 <= a < b < r@.len() ==> r@[a].started_at >= r@[b].started_at,
                forall|a: int| 0 <= a < r@.len() ==> (#[trigger] r@[a]).agent_id == agent_id,
                r@.len() > 0 ==> forall|j: int| i <= j < len ==> r@.last().started_at >= h[j].created_at,
            decreases len - i,
        {
            proof {
                let u = h.subrange(0, i + 1);
                assert(u.drop_last() =~= h.subrange(0, i as int));
                assert(u.last() == h[i as int]);
                assert(h[i as int].created_at == h[i as int].action.started_at);
            }
            if self.history[i].action.agent_id == agent_id {
                r.push(self.history[i].action.clone());
                proof {
                    assert forall|j: int| i + 1 <= j < len implies r@.last().started_at >= h[j].created_at by {
                        assert(h[i as int].created_at >= h[j].created_at);
                    }
                }
            }
            i += 1;
        }
        assert(h.subrange(0, len as int) =~= h);
        if let Some(n) = limit {
            r.truncate(n as usize);
        }
        r
    }

    /// Removes the state of `agent_id` and all its action records.
    pub fn delete_agent_state(&mut self, agent_id: AgentId)
        requires
            old(self).wf(),
        ensures
            final(self).wf(),
            final(self).states() == old(self).states().remove(agent_id),
            final(self).records() == old(self).records().filter(record_not_of_agent(agent_id)),
    {
        self.states.remove(&agent_id);
        let mut kept: Vec<ActionRecord> = Vec::new();
        let mut old_history: Vec<ActionRecord> = Vec::new();
        std::mem::swap(&mut old_history, &mut self.history);
        let ghost all = old_history@;
        let total = old_history.len();
        let mut i: usize = 0;
        let mut rest = old_history;
        while rest.len() > 0
            invariant
                total == all.len(),
                i + rest@.len() == all.len(),
                rest@ == all.subrange(i as int, all.len() as int),
                kept@ == all.subrange(0, i as int).filter(record_not_of_agent(agent_id)),
                history_ordered(all),
                history_ordered(kept@),
                kept@.len() > 0 ==> forall|j: int| i <= j < all.len() ==> kept@.last().created_at >= all[j].created_at,
            decreases rest@.len(),
        {
            let rec = rest.remove(0);
            proof {
                assert(rec == all[i as int]);
                assert(all.subrange(0, i + 1) =~= all.subrange(0, i as int).push(all[i as int]));
                all.subrange(0, i as int).lemma_filter_push(all[i as int], record_not_of_agent(agent_id));
                assert(rest@ =~= all.subrange(i + 1, all.len() as int));
            }
            if rec.action.agent_id != agent_id {
                kept.push(rec);
                proof {
                    assert forall|j: int| i + 1 <= j < all.len() implies kept@.last().created_at >= all[j].created_at by {
                        assert(all[i as int].created_at >= all[j].created_at);
                    }
                    assert(history_ordered(kept@));
                }
            }
            i += 1;
        }
        assert(all.subrange(0, all.len() as int) =~= all);
        self.history = kept;
    }

    /// Deletes the records of actions that started before `now` less `days_to_keep`
    /// days, and returns how many were deleted.
    pub fn cleanup_old_actions_at(&mut self, days_to_keep: u32, now: UnixSeconds) -> (r: u64)
        requires
            old(self).wf(),
            now >= i64::MIN + u32::MAX * 86400,
        ensures
            final(self).wf(),
            final(self).states() == old(self).states(),
            final(self).records() == old(self).records().filter(record_kept(now - days_to_keep * 86400)),
            r == old(self).records().len() - final(self).records().len(),
    {
        let cutoff = now - days_to_keep as i64 * 86400;
        let ghost c = now - days_to_keep * 86400;
        let mut kept: Vec<ActionRecord> = Vec::new();
        let mut old_history: Vec<ActionRecord> = Vec::new();
        std::mem::swap(&mut old_history, &mut self.history);
        let ghost all = old_history@;
        let total = old_history.len();
        let mut i: usize = 0;
        let mut rest = old_history;
        while rest.len() > 0
            invariant
                cutoff == c,
                total == all.len(),
                i + rest@.len() == all.len(),
                rest@ == all.subrange(i as int, all.len() as int),
                kept@ == all.subrange(0, i as int).filter(record_kept(c)),
                history_ordered(all),
                history_ordered(kept@),
                kept@.len() > 0 ==> forall|j: int| i <= j < all.len() ==> kept@.last().created_at >= all[j].created_at,
            decreases rest@.len(),
        {
            let rec = rest.remove(0);
            proof {
                assert(rec == all[i as int]);
                assert(all.subrange(0, i + 1) =~= all.subrange(0, i as int).push(all[i as int]));
                all.subrange(0, i as int).lemma_filter_push(all[i as int], record_kept(c));
                assert(rest@ =~= all.subrange(i + 1, all.len() as int));
            }
            if rec.created_at >= cutoff {
                kept.push(rec);
                proof {
                    assert forall|j: int| i + 1 <= j < all.len() implies kept@.last().created_at >= all[j].created_at by {
                        assert(all[i as int].created_at >= all[j].created_at);
                    }
                    assert(history_ordered(kept@));
                }
            }
            i += 1;
        }
        assert(all.subrange(0, all.len() as int) =~= all);
        proof {
            all.lemma_filter_len(record_kept(c));
        }
        let removed = (total - kept.len()) as u64;
        self.history = kept;
        removed
    }

    /// `cleanup_old_actions_at` at the current time.
    pub fn cleanup_old_actions(&mut self, days_to_keep: u32) -> (r: u64)
        requires
            old(self).wf(),
        ensures
            final(self).wf(),
            final(self).states() == old(self).states(),
            r == old(self).records().len() - final(self).records().len(),
    {
        let now = unix_now();
        if now < i64::MIN + u32::MAX as i64 * 86400 {
            return 0;
        }
        self.cleanup_old_actions_at(days_to_keep, now)
    }

    /// Counts of states and records. Every state is held in memory.
    pub fn get_state_statistics(&self) -> (r: StateStatistics)
        ensures
            r.total_agent_states == self.states().len(),
            r.total_action_history == self.records().len(),
            r.cached_states == self.states().len(),
    {
        let n = self.states.len();
        StateStatistics {
            total_agent_states: n as u64,
            total_action_history: self.history.len() as u64,
            cached_states: n,
        }
    }
}

} // verus!
