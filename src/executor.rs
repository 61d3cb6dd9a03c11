//! Per-agent executor: a bounded queue of actions, at most
//! `max_concurrent_actions` of them in flight, each with a deadline.
//!
//! The executor decides; the caller performs. `dispatch_next` hands out the next
//! action with what to do for it, `complete` takes back its outcome and yields
//! the result to persist and the message to announce.

use vstd::prelude::*;
use vstd::string::*;

use crate::error::AgentSpaceError;
use crate::messaging::MessageType;
use crate::types::{
    clone_opt_string, clone_pairs, clone_strings, ActionStatus, ActionType, AgentAction, AgentConfig,
    AgentId, UnixSeconds,
};

verus! {

/// Actions an executor queues before `execute_action` fails.
pub const ACTION_QUEUE_CAPACITY: usize = 1000;

/// Bookkeeping of one action in flight.
#[derive(Debug)]
pub struct ExecutionContext {
    pub action_id: u128,
    pub agent_id: AgentId,
    /// Monotonic clock reading, in milliseconds, when the action started.
    pub started_at_ms: u64,
    pub timeout_seconds: u64,
    pub retry_count: u32,
    pub max_retries: u32,
    pub environment: Vec<(String, String)>,
    pub input_data: String,
    pub current_status: ActionStatus,
}

impl View for ExecutionContext {
    type V = (u128, AgentId, u64, u64, u32, u32, Seq<(String, String)>, String, ActionStatus);

    open spec fn view(&self) -> Self::V {
        (
            self.action_id,
            self.agent_id,
            self.started_at_ms,
            self.timeout_seconds,
            self.retry_count,
            self.max_retries,
            self.environment@,
            self.input_data,
            self.current_status,
        )
    }
}

impl Clone for ExecutionContext {
    fn clone(&self) -> (r: Self)
        ensures
            r@ == self@,
    {
        ExecutionContext {
            action_id: self.action_id,
            agent_id: self.agent_id,
            started_at_ms: self.started_at_ms,
            timeout_seconds: self.timeout_seconds,
            retry_count: self.retry_count,
            max_retries: self.max_retries,
            environment: clone_pairs(&self.environment),
            input_data: self.input_data.clone(),
            current_status: self.current_status.clone(),
        }
    }
}

/// What came of one action. Output is a JSON text.
#[derive(Debug)]
pub struct ExecutionResult {
    pub action_id: u128,
    pub success: bool,
    pub output_data: Option<String>,
    pub error_message: Option<String>,
    pub execution_time_ms: u64,
    pub memory_used: u64,
    pub resources_accessed: Vec<String>,
}

impl View for ExecutionResult {
    type V = (u128, bool, Option<String>, Option<String>, u64, u64, Seq<String>);

    open spec fn view(&self) -> Self::V {
        (
            self.action_id,
            self.success,
            self.output_data,
            self.error_message,
            self.execution_time_ms,
            self.memory_used,
            self.resources_accessed@,
        )
    }
}

impl Clone for ExecutionResult {
    fn clone(&self) -> (r: Self)
        ensures
            r@ == self@,
    {
        ExecutionResult {
            action_id: self.action_id,
            success: self.success,
            output_data: clone_opt_string(&self.output_data),
            error_message: clone_opt_string(&self.error_message),
            execution_time_ms: self.execution_time_ms,
            memory_used: self.memory_used,
            resources_accessed: clone_strings(&self.resources_accessed),
        }
    }
}

/// A call to the external action backend.
#[derive(Debug)]
pub enum BackendRequest {
    GenerateText(String),
    AnalyzeText(String),
    /// A chain run: its configuration and the action's input.
    RunChain(String, String),
    /// A workflow graph run: its configuration and the action's input.
    RunGraph(String, String),
}

/// The report of an action performed directly: a status word, the action's argument
/// under `key`, and, for some kinds, a second entry (`extra_key`, a JSON text).
#[derive(Debug)]
pub struct DirectReport {
    pub status: String,
    pub key: String,
    pub value: String,
    pub extra: Option<(String, String)>,
}

/// What the caller does for a dispatched action.
#[derive(Debug)]
pub enum Route {
    /// Call the action backend.
    Backend(BackendRequest),
    /// Perform the action and report as described.
    Direct(DirectReport),
    /// An AI action with no backend configured: it fails at once.
    Unavailable,
}

/// How a dispatched action ended, as the caller observed it.
#[derive(Debug)]
pub enum ActionOutcome {
    /// Output as a JSON text.
    Succeeded(String),
    Failed(String),
    /// The deadline passed first.
    TimedOut,
    /// The action needs the backend and none is configured.
    Unavailable,
}

/// A dispatched action: its context, the action now `Running`, and what to do.
#[derive(Debug)]
pub struct Dispatch {
    pub context: ExecutionContext,
    pub action: AgentAction,
    pub route: Route,
}

/// A finished action: the action in its terminal state, its result, and the type of
/// the message that announces it.
#[derive(Debug)]
pub struct Completion {
    pub action: AgentAction,
    pub result: ExecutionResult,
    pub announcement: MessageType,
}

/// Whether the action is one of those the backend performs.
pub open spec fn needs_backend(t: ActionType) -> bool {
    t is GenerateText || t is AnalyzeText || t is RunLangChain || t is RunLangGraph
}

/// The backend call for an AI action with input `input`.
pub open spec fn backend_request(t: ActionType, input: String) -> BackendRequest {
    match t {
        ActionType::GenerateText(p) => BackendRequest::GenerateText(p),
        ActionType::AnalyzeText(x) => BackendRequest::AnalyzeText(x),
        ActionType::RunLangChain(c) => BackendRequest::RunChain(c, input),
        _ => BackendRequest::RunGraph(t->RunLangGraph_0, input),
    }
}

/// Status word, key, argument and second entry of the report of a direct action.
pub open spec fn direct_report(t: ActionType, input: Seq<char>) -> (Seq<char>, Seq<char>, Seq<char>, Option<(Seq<char>, Seq<char>)>) {
    match t {
        ActionType::ReadData(s) => ("data_read"@, "source"@, s@, None),
        ActionType::WriteData(s) => ("data_written"@, "destination"@, s@, Some(("data"@, input))),
        ActionType::ProcessData(s) => ("data_processed"@, "processor"@, s@, Some(("result"@, input))),
        ActionType::SendMessage(s) => ("message_sent"@, "target"@, s@, Some(("message"@, input))),
        ActionType::SendEmail(s) => ("email_sent"@, "config"@, s@, Some(("content"@, input))),
        ActionType::PostWebhook(s) => ("webhook_posted"@, "url"@, s@, Some(("payload"@, input))),
        ActionType::ExecuteCommand(s) => ("command_executed"@, "command"@, s@, None),
        ActionType::WatchFile(s) => ("file_watch_started"@, "path"@, s@, None),
        ActionType::ScheduleTask(s) => ("task_scheduled"@, "schedule"@, s@, Some(("task"@, input))),
        ActionType::Custom(n, p) => ("custom_action_executed"@, "action"@, n@, Some(("params"@, p@))),
        _ => (Seq::empty(), Seq::empty(), Seq::empty(), None),
    }
}

/// The texts of a report.
pub open spec fn report_view(r: DirectReport) -> (Seq<char>, Seq<char>, Seq<char>, Option<(Seq<char>, Seq<char>)>) {
    (r.status@, r.key@, r.value@, match r.extra {
        Some((k, v)) => Some((k@, v@)),
        None => None,
    })
}

/// Where an action goes: to the backend if it is an AI action and a backend is
/// configured, nowhere if it is one and none is, else it is performed directly.
pub open spec fn route_is(r: Route, t: ActionType, input: String, backend: bool) -> bool {
    if needs_backend(t) {
        if backend {
            r == Route::Backend(backend_request(t, input))
        } else {
            r is Unavailable
        }
    } else {
        r is Direct && report_view(r->Direct_0) == direct_report(t, input@)
    }
}

fn report(status: &str, key: &str, value: &String, extra: Option<(&str, &String)>) -> (r: DirectReport)
    ensures
        r.status@ == status@,
        r.key@ == key@,
        r.value@ == value@,
        r.extra matches Some(e) ==> extra matches Some(x) && e.0@ == x.0@ && e.1@ == x.1@,
        r.extra is None <==> extra is None,
{
    DirectReport {
        status: status.to_string(),
        key: key.to_string(),
        value: value.clone(),
        extra: match extra {
            Some((k, v)) => Some((k.to_string(), v.clone())),
            None => None,
        },
    }
}

/// Decides where an action goes; see `route_is`.
pub fn route_action(action_type: &ActionType, input: &String, backend_available: bool) -> (r: Route)
    ensures
        route_is(r, *action_type, *input, backend_available),
{
    proof {
        reveal_strlit("data_read");
        reveal_strlit("source");
        reveal_strlit("data_written");
        reveal_strlit("destination");
        reveal_strlit("data");
        reveal_strlit("data_processed");
        reveal_strlit("processor");
        reveal_strlit("result");
        reveal_strlit("message_sent");
        reveal_strlit("target");
        reveal_strlit("message");
        reveal_strlit("email_sent");
        reveal_strlit("config");
        reveal_strlit("content");
        reveal_strlit("webhook_posted");
        reveal_strlit("url");
        reveal_strlit("payload");
        reveal_strlit("command_executed");
        reveal_strlit("command");
        reveal_strlit("file_watch_started");
        reveal_strlit("path");
        reveal_strlit("task_scheduled");
        reveal_strlit("schedule");
        reveal_strlit("task");
        reveal_strlit("custom_action_executed");
        reveal_strlit("action");
        reveal_strlit("params");
    }
    match action_type {
        ActionType::GenerateText(p) => if backend_available {
            Route::Backend(BackendRequest::GenerateText(p.clone()))
        } else {
            Route::Unavailable
        },
        ActionType::AnalyzeText(x) => if backend_available {
            Route::Backend(BackendRequest::AnalyzeText(x.clone()))
        } else {
            Route::Unavailable
        },
        ActionType::RunLangChain(c) => if backend_available {
            Route::Backend(BackendRequest::RunChain(c.clone(), input.clone()))
        } else {
            Route::Unavailable
        },
        ActionType::RunLangGraph(c) => if backend_available {
            Route::Backend(BackendRequest::RunGraph(c.clone(), input.clone()))
        } else {
            Route::Unavailable
        },
        ActionType::ReadData(s) => Route::Direct(report("data_read", "source", s, None)),
        ActionType::WriteData(s) => Route::Direct(report("data_written", "destination", s, Some(("data", input)))),
        ActionType::ProcessData(s) => Route::Direct(report("data_processed", "processor", s, Some(("result", input)))),
        ActionType::SendMessage(s) => Route::Direct(report("message_sent", "target", s, Some(("message", input)))),
        ActionType::SendEmail(s) => Route::Direct(report("email_sent", "config", s, Some(("content", input)))),
        ActionType::PostWebhook(s) => Route::Direct(report("webhook_posted", "url", s, Some(("payload", input)))),
        ActionType::ExecuteCommand(s) => Route::Direct(report("command_executed", "command", s, None)),
        ActionType::WatchFile(s) => Route::Direct(report("file_watch_started", "path", s, None)),
        ActionType::ScheduleTask(s) => Route::Direct(report("task_scheduled", "schedule", s, Some(("task", input)))),
        ActionType::Custom(n, p) => Route::Direct(report("custom_action_executed", "action", n, Some(("params", p)))),
    }
}

/// The error text of an action whose deadline passed.
pub open spec fn timeout_text() -> Seq<char> {
    "timed out"@
}

/// The error text of an AI action without a configured backend.
pub open spec fn unavailable_text() -> Seq<char> {
    "action backend unavailable"@
}

/// Milliseconds in `secs` seconds, at most `u64::MAX`.
pub open spec fn secs_to_ms(secs: u64) -> u64 {
    if secs * 1000 <= u64::MAX {
        (secs * 1000) as u64
    } else {
        u64::MAX
    }
}

/// Whether `r` is the result of action `action_id` that ended with `outcome` after
/// `elapsed_ms`, its deadline being `timeout_seconds`.
pub open spec fn is_result_of(
    r: ExecutionResult,
    action_id: u128,
    outcome: ActionOutcome,
    elapsed_ms: u64,
    timeout_seconds: u64,
) -> bool {
    &&& r.action_id == action_id
    &&& r.memory_used == 0
    &&& r.resources_accessed@.len() == 0
    &&& match outcome {
        ActionOutcome::Succeeded(out) => r.success && r.output_data == Some(out)
            && r.error_message is None && r.execution_time_ms == elapsed_ms,
        ActionOutcome::Failed(msg) => !r.success && r.output_data is None && r.error_message
            == Some(msg) && r.execution_time_ms == elapsed_ms,
        ActionOutcome::TimedOut => !r.success && r.output_data is None && (r.error_message matches Some(
            m,
        ) && m@ == timeout_text()) && r.execution_time_ms == secs_to_ms(timeout_seconds),
        ActionOutcome::Unavailable => !r.success && r.output_data is None && (r.error_message matches Some(
            m,
        ) && m@ == unavailable_text()) && r.execution_time_ms == elapsed_ms,
    }
}

/// `a` as it ends: `Completed` with the output on success, else `Failed` with the
/// result's error, completed at `now`.
pub open spec fn is_finished(a: AgentAction, old: AgentAction, r: ExecutionResult, now: UnixSeconds) -> bool {
    &&& a.id == old.id
    &&& a.agent_id == old.agent_id
    &&& a.action_type == old.action_type
    &&& a.input_data == old.input_data
    &&& a.started_at == old.started_at
    &&& a.completed_at == Some(now)
    &&& if r.success {
        a.status == ActionStatus::Completed && a.output_data == r.output_data
            && a.error_message == old.error_message
    } else {
        a.status == ActionStatus::Failed(r.error_message->Some_0) && a.error_message
            == r.error_message && a.output_data == old.output_data
    }
}

/// `c` marked as cancelled.
pub open spec fn cancelled(c: ExecutionContext) -> ExecutionContext {
    ExecutionContext { current_status: ActionStatus::Cancelled, ..c }
}

/// Position of the first context of action `id` in `s`.
pub open spec fn first_context(s: Seq<ExecutionContext>, id: u128) -> int {
    choose|i: int|
        0 <= i < s.len() && s[i].action_id == id && forall|j: int|
            0 <= j < i ==> #[trigger] s[j].action_id != id
}

/// Whether an action of this id is in flight in `s`.
pub open spec fn has_context(s: Seq<ExecutionContext>, id: u128) -> bool {
    exists|i: int| 0 <= i < s.len() && s[i].action_id == id
}

/// Whether an action of this id is in `q`.
pub open spec fn has_queued(q: Seq<AgentAction>, id: u128) -> bool {
    exists|i: int| 0 <= i < q.len() && q[i].id == id
}

/// No action id occurs twice among the queued actions `q` and the contexts `a`.
pub open spec fn pending_ids_unique(q: Seq<AgentAction>, a: Seq<ExecutionContext>) -> bool {
    &&& forall|i: int, j: int| 0 <= i < j < q.len() ==> q[i].id != q[j].id
    &&& forall|i: int, j: int| 0 <= i < j < a.len() ==> a[i].action_id != a[j].action_id
    &&& forall|i: int, j: int| 0 <= i < q.len() && 0 <= j < a.len() ==> q[i].id != a[j].action_id
}

/// Runs one agent's actions under its concurrency bound.
pub struct AgentExecutor {
    agent_id: AgentId,
    config: AgentConfig,
    backend_available: bool,
    queue: Vec<AgentAction>,
    active: Vec<ExecutionContext>,
    is_running: bool,
}

impl AgentExecutor {
    pub closed spec fn agent(&self) -> AgentId {
        self.agent_id
    }

    pub closed spec fn configuration(&self) -> AgentConfig {
        self.config
    }

    pub open spec fn max_concurrent(&self) -> nat {
        self.configuration().max_concurrent_actions as nat
    }

    pub closed spec fn has_backend(&self) -> bool {
        self.backend_available
    }

    /// Actions waiting, in submission order.
    pub closed spec fn queue(&self) -> Seq<AgentAction> {
        self.queue@
    }

    /// Contexts of the actions in flight, in dispatch order.
    pub closed spec fn active(&self) -> Seq<ExecutionContext> {
        self.active@
    }

    pub closed spec fn running(&self) -> bool {
        self.is_running
    }

    /// At most `max_concurrent_actions` actions in flight, all `Running` and all of this
    /// executor's agent; the queue within its capacity; no action id twice among the
    /// queued and the in-flight actions.
    pub open spec fn wf(&self) -> bool {
        &&& self.active().len() <= self.max_concurrent()
        &&& self.queue().len() <= ACTION_QUEUE_CAPACITY
        &&& forall|i: int| 0 <= i < self.active().len() ==> #[trigger] self.active()[i].current_status is Running
        &&& forall|i: int| 0 <= i < self.active().len() ==> #[trigger] self.active()[i].agent_id == self.agent()
        &&& pending_ids_unique(self.queue(), self.active())
    }

    /// Whether an action of this id is queued or in flight.
    pub open spec fn is_pending(&self, id: u128) -> bool {
        has_queued(self.queue(), id) || has_context(self.active(), id)
    }

    /// A stopped executor for `agent_id`. A backend is available where the configuration
    /// holds script parameters.
    pub fn new(agent_id: AgentId, config: AgentConfig) -> (r: AgentExecutor)
        ensures
            r.wf(),
            r.agent() == agent_id,
            r.configuration() == config,
            r.has_backend() == config.python_config.is_some(),
            r.queue().len() == 0,
            r.active().len() == 0,
            !r.running(),
    {
        let backend_available = config.python_config.is_some();
        AgentExecutor {
            agent_id,
            config,
            backend_available,
            queue: Vec::new(),
            active: Vec::new(),
            is_running: false,
        }
    }

    pub fn agent_id(&self) -> (r: AgentId)
        ensures
            r == self.agent(),
    {
        self.agent_id
    }

    pub fn is_running(&self) -> (r: bool)
        ensures
            r == self.running(),
    {
        self.is_running
    }

    pub fn start(&mut self)
        requires
            old(self).wf(),
        ensures
            final(self).wf(),
            final(self).running(),
            final(self).agent() == old(self).agent(),
            final(self).configuration() == old(self).configuration(),
            final(self).has_backend() == old(self).has_backend(),
            final(self).queue() == old(self).queue(),
            final(self).active() == old(self).active(),
    {
        self.is_running = true;
    }

    /// Stops the executor and cancels every action in flight: each context comes back
    /// marked `Cancelled`, and none is left active. Queued actions stay queued.
    pub fn stop(&mut self) -> (r: Vec<ExecutionContext>)
        requires
            old(self).wf(),
        ensures
            final(self).wf(),
            !final(self).running(),
            final(self).agent() == old(self).agent(),
            final(self).configuration() == old(self).configuration(),
            final(self).has_backend() == old(self).has_backend(),
            final(self).queue() == old(self).queue(),
            final(self).active().len() == 0,
            r@.len() == old(self).active().len(),
            forall|i: int| 0 <= i < r@.len() ==> #[trigger] r@[i] == cancelled(old(self).active()[i]),
    {
        self.is_running = false;
        let mut taken: Vec<ExecutionContext> = Vec::new();
        std::mem::swap(&mut taken, &mut self.active);
        let ghost before = taken@;
        let mut out: Vec<ExecutionContext> = Vec::new();
        let mut rest = taken;
        while rest.len() > 0
            invariant
                out@.len() + rest@.len() == before.len(),
                rest@ == before.subrange(out@.len() as int, before.len() as int),
                forall|i: int| 0 <= i < out@.len() ==> #[trigger] out@[i] == cancelled(before[i]),
            decreases rest@.len(),
        {
            let mut ctx = rest.remove(0);
            proof {
                let k = out@.len() as int;
                assert(ctx == before[k]);
                assert(rest@ =~= before.subrange(k + 1, before.len() as int));
            }
            ctx.current_status = ActionStatus::Cancelled;
            out.push(ctx);
        }
        out
    }

    /// Queues `action`. Fails while the executor is stopped, when the queue is full, and
    /// when an action of the same id is queued or in flight already.
    pub fn execute_action(&mut self, action: AgentAction) -> (r: Result<(), AgentSpaceError>)
        requires
            old(self).wf(),
        ensures
            final(self).wf(),
            final(self).running() == old(self).running(),
            final(self).agent() == old(self).agent(),
            final(self).configuration() == old(self).configuration(),
            final(self).has_backend() == old(self).has_backend(),
            final(self).active() == old(self).active(),
            !old(self).running() ==> r == Err::<(), AgentSpaceError>(AgentSpaceError::NotRunning),
            old(self).running() && old(self).queue().len() >= ACTION_QUEUE_CAPACITY ==> r == Err::<
                (),
                AgentSpaceError,
            >(AgentSpaceError::QueueFull),
            old(self).running() && old(self).queue().len() < ACTION_QUEUE_CAPACITY && old(self).is_pending(action.id)
                ==> r == Err::<(), AgentSpaceError>(AgentSpaceError::AlreadyExists(action.id)),
            r is Err ==> final(self).queue() == old(self).queue(),
            r is Ok <==> old(self).running() && old(self).queue().len() < ACTION_QUEUE_CAPACITY
                && !old(self).is_pending(action.id),
            r is Ok ==> final(self).queue() == old(self).queue().push(action),
    {
        if !self.is_running {
            return Err(AgentSpaceError::NotRunning);
        }
        if self.queue.len() >= ACTION_QUEUE_CAPACITY {
            return Err(AgentSpaceError::QueueFull);
        }
        if self.is_pending_exec(action.id) {
            return Err(AgentSpaceError::AlreadyExists(action.id));
        }
        let ghost q = self.queue@;
        let id = action.id;
        self.queue.push(action);
        proof {
            assert forall|i: int, j: int| 0 <= i < j < self.queue@.len() implies self.queue@[i].id != self.queue@[j].id by {
                if j == q.len() {
                    assert(q[i].id != id);
                } else {
                    assert(q[i].id != q[j].id);
                }
            }
            assert forall|i: int, j: int| 0 <= i < self.queue@.len() && 0 <= j < self.active@.len() implies self.queue@[i].id != self.active@[j].action_id by {
                if i == q.len() {
                    assert(self.active@[j].action_id != id);
                } else {
                    assert(q[i].id != self.active@[j].action_id);
                }
            }
        }
        Ok(())
    }

    /// Whether an action of this id is queued or in flight.
    pub fn is_pending_exec(&self, id: u128) -> (r: bool)
        ensures
            r == self.is_pending(id),
    {
        let mut i: usize = 0;
        while i < self.queue.len()
            invariant
                i <= self.queue@.len(),
                forall|j: int| 0 <= j < i ==> self.queue@[j].id != id,
            decreases self.queue.len() - i,
        {
            if self.queue[i].id == id {
                return true;
            }
            i += 1;
        }
        let mut k: usize = 0;
        while k < self.active.len()
            invariant
                k <= self.active@.len(),
                !has_queued(self.queue@, id),
                forall|j: int| 0 <= j < k ==> self.active@[j].action_id != id,
            decreases self.active.len() - k,
        {
            if self.active[k].action_id == id {
                return true;
            }
            k += 1;
        }
        false
    }

    /// A snapshot of the contexts in flight.
    pub fn get_active_actions(&self) -> (r: Vec<ExecutionContext>)
        requires
            self.wf(),
        ensures
            r@.len() == self.active().len(),
            forall|i: int| 0 <= i < r@.len() ==> #[trigger] r@[i]@ == self.active()[i]@,
            r@.len() <= self.max_concurrent(),
            forall|i: int| 0 <= i < r@.len() ==> (#[trigger] r@[i]).agent_id == self.agent()
                && r@[i].current_status is Running,
            forall|i: int, j: int| 0 <= i < j < r@.len() ==> r@[i].action_id != r@[j].action_id,
    {
        let mut r: Vec<ExecutionContext> = Vec::new();
        let mut i: usize = 0;
        while i < self.active.len()
            invariant
                self.wf(),
                i <= self.active@.len(),
                r@.len() == i,
                forall|j: int| 0 <= j < i ==> #[trigger] r@[j]@ == self.active@[j]@,
            decreases self.active.len() - i,
        {
            r.push(self.active[i].clone());
            i += 1;
        }
        proof {
            assert forall|a: int, b: int| 0 <= a < b < r@.len() implies r@[a].action_id != r@[b].action_id by {
                assert(r@[a]@ == self.active@[a]@);
                assert(r@[b]@ == self.active@[b]@);
            }
            assert forall|a: int| 0 <= a < r@.len() implies (#[trigger] r@[a]).agent_id == self.agent()
                && r@[a].current_status is Running by {
                assert(r@[a]@ == self.active@[a]@);
            }
        }
        r
    }

    /// Number of actions in flight.
    pub fn active_count(&self) -> (r: usize)
        ensures
            r == self.active().len(),
    {
        self.active.len()
    }

    /// Number of actions waiting.
    pub fn queued_count(&self) -> (r: usize)
        ensures
            r == self.queue().len(),
    {
        self.queue.len()
    }

    /// Starts the oldest queued action if the executor runs and a concurrency permit is
    /// free: the action leaves the queue, becomes `Running` with start time `now`, and
    /// its context, started at `now_ms`, joins the active set. Otherwise nothing changes.
    pub fn dispatch_next(&mut self, now: UnixSeconds, now_ms: u64) -> (r: Option<Dispatch>)
        requires
            old(self).wf(),
        ensures
            final(self).wf(),
            final(self).running() == old(self).running(),
            final(self).agent() == old(self).agent(),
            final(self).configuration() == old(self).configuration(),
            final(self).has_backend() == old(self).has_backend(),
            r is Some <==> old(self).running() && old(self).queue().len() > 0
                && old(self).active().len() < old(self).max_concurrent(),
            r is None ==> final(self).queue() == old(self).queue() && final(self).active()
                == old(self).active(),
            r matches Some(d) ==> ({
                let a = old(self).queue()[0];
                &&& final(self).queue() == old(self).queue().drop_first()
                &&& d.action == AgentAction { status: ActionStatus::Running, started_at: now, ..a }
                &&& d.context.action_id == a.id
                &&& d.context.agent_id == old(self).agent()
                &&& d.context.started_at_ms == now_ms
                &&& d.context.timeout_seconds == old(self).configuration().timeout_seconds
                &&& d.context.retry_count == 0
                &&& d.context.max_retries == old(self).configuration().retry_attempts
                &&& d.context.environment@ == old(self).configuration().environment_variables@
                &&& d.context.input_data == a.input_data
                &&& d.context.current_status == ActionStatus::Running
                &&& final(self).active().len() == old(self).active().len() + 1
                &&& final(self).active().drop_last() == old(self).active()
                &&& final(self).active().last()@ == d.context@
                &&& route_is(d.route, a.action_type, a.input_data, old(self).has_backend())
            }),
    {
        if !self.is_running || self.queue.len() == 0
            || self.active.len() >= self.config.max_concurrent_actions as usize {
            return None;
        }
        let mut action = self.queue.remove(0);
        let ghost a = action;
        let ctx = ExecutionContext {
            action_id: action.id,
            agent_id: self.agent_id,
            started_at_ms: now_ms,
            timeout_seconds: self.config.timeout_seconds,
            retry_count: 0,
            max_retries: self.config.retry_attempts,
            environment: clone_pairs(&self.config.environment_variables),
            input_data: action.input_data.clone(),
            current_status: ActionStatus::Running,
        };
        let copy = ctx.clone();
        self.active.push(copy);
        action.status = ActionStatus::Running;
        action.started_at = now;
        let route = route_action(&action.action_type, &action.input_data, self.backend_available);
        assert(self.queue@ =~= old(self).queue@.drop_first());
        assert(self.active@.drop_last() =~= old(self).active@);
        Some(Dispatch { context: ctx, action, route })
    }

    fn find_active(&self, action_id: u128) -> (r: Option<usize>)
        ensures
            r matches Some(i) ==> i < self.active().len() && i == first_context(self.active(), action_id),
            r is Some ==> has_context(self.active(), action_id),
            r is None ==> !has_context(self.active(), action_id),
    {
        let mut i: usize = 0;
        while i < self.active.len()
            invariant
                i <= self.active@.len(),
                forall|j: int| 0 <= j < i ==> #[trigger] self.active@[j].action_id != action_id,
            decreases self.active.len() - i,
        {
            if self.active[i].action_id == action_id {
                proof {
                    let s = self.active@;
                    assert(0 <= i < s.len() && s[i as int].action_id == action_id && forall|j: int|
                        0 <= j < i ==> #[trigger] s[j].action_id != action_id);
                    assert(has_context(s, action_id));
                    let c = first_context(s, action_id);
                    if c < i {
                        assert(s[c].action_id == action_id);
                    } else if c > i {
                        assert(s[i as int].action_id != action_id);
                    }
                }
                return Some(i);
            }
            i += 1;
        }
        None
    }

    /// Takes back a dispatched action with its outcome. Its context leaves the active
    /// set, the permit is freed, and the result, the action in its terminal state and
    /// the announcing message type come back. `None`, and nothing changes, where the
    /// action is not in flight (it was cancelled by `stop`).
    pub fn complete(
        &mut self,
        action: AgentAction,
        outcome: ActionOutcome,
        now: UnixSeconds,
        elapsed_ms: u64,
    ) -> (r: Option<Completion>)
        requires
            old(self).wf(),
        ensures
            final(self).wf(),
            final(self).running() == old(self).running(),
            final(self).agent() == old(self).agent(),
            final(self).configuration() == old(self).configuration(),
            final(self).has_backend() == old(self).has_backend(),
            final(self).queue() == old(self).queue(),
            r is Some <==> has_context(old(self).active(), action.id),
            r is None ==> final(self).active() == old(self).active(),
            !has_context(final(self).active(), action.id),
            r matches Some(c) ==> ({
                let i = first_context(old(self).active(), action.id);
                &&& final(self).active() == old(self).active().remove(i)
                &&& is_result_of(
                    c.result,
                    action.id,
                    outcome,
                    elapsed_ms,
                    old(self).active()[i].timeout_seconds,
                )
                &&& is_finished(c.action, action, c.result, now)
                &&& c.announcement == if c.result.success {
                    MessageType::ActionCompleted
                } else {
                    MessageType::ActionFailed
                }
            }),
    {
        let i = match self.find_active(action.id) {
            Some(i) => i,
            None => return None,
        };
        let ghost before = self.active@;
        let ctx = self.active.remove(i);
        proof {
            if has_context(self.active@, action.id) {
                let w = choose|w: int| 0 <= w < self.active@.len() && self.active@[w].action_id == action.id;
                let w0 = if w < i { w } else { w + 1 };
                assert(before[w0].action_id == action.id);
                if w0 < i {
                    assert(before[w0].action_id != before[i as int].action_id);
                } else {
                    assert(before[i as int].action_id != before[w0].action_id);
                }
            }
            reveal_strlit("timed out");
            reveal_strlit("action backend unavailable");
            assert forall|j: int| 0 <= j < self.active@.len() implies #[trigger] self.active@[j].current_status is Running by {
                if j < i {
                    assert(old(self).active@[j].current_status is Running);
                } else {
                    assert(old(self).active@[j + 1].current_status is Running);
                }
            }
        }
        let result = match outcome {
            ActionOutcome::Succeeded(out) => ExecutionResult {
                action_id: action.id,
                success: true,
                output_data: Some(out),
                error_message: None,
                execution_time_ms: elapsed_ms,
                memory_used: 0,
                resources_accessed: Vec::new(),
            },
            ActionOutcome::Failed(msg) => ExecutionResult {
                action_id: action.id,
                success: false,
                output_data: None,
                error_message: Some(msg),
                execution_time_ms: elapsed_ms,
                memory_used: 0,
                resources_accessed: Vec::new(),
            },
            ActionOutcome::TimedOut => ExecutionResult {
                action_id: action.id,
                success: false,
                output_data: None,
                error_message: Some(String::from_str("timed out")),
                execution_time_ms: if ctx.timeout_seconds <= u64::MAX / 1000 {
                    ctx.timeout_seconds * 1000
                } else {
                    u64::MAX
                },
                memory_used: 0,
                resources_accessed: Vec::new(),
            },
            ActionOutcome::Unavailable => ExecutionResult {
                action_id: action.id,
                success: false,
                output_data: None,
                error_message: Some(String::from_str("action backend unavailable")),
                execution_time_ms: elapsed_ms,
                memory_used: 0,
                resources_accessed: Vec::new(),
            },
        };
        let mut done = action;
        done.completed_at = Some(now);
        let announcement = if result.success {
            done.status = ActionStatus::Completed;
            done.output_data = clone_opt_string(&result.output_data);
            MessageType::ActionCompleted
        } else {
            let msg = match &result.error_message {
                Some(m) => m.clone(),
                None => String::new(),
            };
            done.status = ActionStatus::Failed(msg);
            done.error_message = clone_opt_string(&result.error_message);
            MessageType::ActionFailed
        };
        Some(Completion { action: done, result, announcement })
    }
}

/// Concurrency bound: however many actions were submitted, an executor never has
/// more than `max_concurrent_actions` of them in flight.
pub proof fn lemma_concurrency_bound(e: &AgentExecutor)
    requires
        e.wf(),
    ensures
        e.active().len() <= e.configuration().max_concurrent_actions,
{
}

} // verus!
