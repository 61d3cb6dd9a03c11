//! Domain model of the runtime: agents, their configuration, status and actions.

use vstd::prelude::*;
use vstd::string::*;

use crate::outside::{new_uuid, unix_now};

verus! {

/// Opaque identity of an agent (the 128 bits of a UUID).
pub type AgentId = u128;

/// Seconds since the Unix epoch, UTC.
pub type UnixSeconds = i64;

/// Clones a vector of strings, element for element.
pub fn clone_strings(v: &Vec<String>) -> (r: Vec<String>)
    ensures
        r@ == v@,
{
    let mut r: Vec<String> = Vec::new();
    let mut i: usize = 0;
    while i < v.len()
        invariant
            i <= v.len(),
            r@ == v@.subrange(0, i as int),
        decreases v.len() - i,
    {
        r.push(v[i].clone());
        i += 1;
    }
    assert(r@ =~= v@);
    r
}

/// Clones a vector of string pairs, element for element.
pub fn clone_pairs(v: &Vec<(String, String)>) -> (r: Vec<(String, String)>)
    ensures
        r@ == v@,
{
    let mut r: Vec<(String, String)> = Vec::new();
    let mut i: usize = 0;
    while i < v.len()
        invariant
            i <= v.len(),
            r@ == v@.subrange(0, i as int),
        decreases v.len() - i,
    {
        let (a, b) = &v[i];
        r.push((a.clone(), b.clone()));
        i += 1;
    }
    assert(r@ =~= v@);
    r
}

/// Creation and last-update instants of a record.
#[derive(Debug, Clone, Copy)]
pub struct Timestamp {
    pub created_at: UnixSeconds,
    pub updated_at: UnixSeconds,
}

impl Timestamp {
    /// Both instants set to the current time.
    pub fn now() -> (r: Timestamp)
        ensures
            r.created_at == r.updated_at,
    {
        let now = unix_now();
        Timestamp { created_at: now, updated_at: now }
    }
}

/// Scheduling priority of an agent.
#[derive(Debug, Clone, Copy, PartialEq, Eq, Structural)]
pub enum Priority {
    Low,
    Normal,
    High,
    Critical,
}

impl Priority {
    /// Numeric rank: 1 for `Low` up to 4 for `Critical`.
    pub fn rank(&self) -> (r: u8)
        ensures
            1 <= r <= 4,
            *self == Priority::Low <==> r == 1,
            *self == Priority::Critical <==> r == 4,
    {
        match self {
            Priority::Low => 1,
            Priority::Normal => 2,
            Priority::High => 3,
            Priority::Critical => 4,
        }
    }
}

/// How an agent's actions are run.
#[derive(Debug, Clone, Copy, PartialEq, Eq, Structural)]
pub enum ExecutionMode {
    Synchronous,
    Asynchronous,
    Background,
    Scheduled,
}

/// Lifecycle state of an agent.
#[derive(Debug)]
pub enum AgentStatus {
    Draft,
    Ready,
    Running,
    Paused,
    Error(String),
    Stopped,
}

impl Clone for AgentStatus {
    fn clone(&self) -> (r: Self)
        ensures
            r == *self,
    {
        match self {
            AgentStatus::Draft => AgentStatus::Draft,
            AgentStatus::Ready => AgentStatus::Ready,
            AgentStatus::Running => AgentStatus::Running,
            AgentStatus::Paused => AgentStatus::Paused,
            AgentStatus::Error(m) => AgentStatus::Error(m.clone()),
            AgentStatus::Stopped => AgentStatus::Stopped,
        }
    }
}

/// Parameters of an agent run by the embedded script backend.
#[derive(Debug, Clone)]
pub struct PythonAgentConfig {
    pub entry_point: String,
    pub requirements: Vec<String>,
    pub virtual_env: Option<String>,
    pub langchain_config: Option<LangChainConfig>,
    pub langgraph_config: Option<LangGraphConfig>,
}

/// Parameters of an agent written for a JavaScript runtime.
#[derive(Debug, Clone)]
pub struct JavaScriptAgentConfig {
    pub entry_point: String,
    pub dependencies: Vec<String>,
    pub node_version: Option<String>,
}

/// Model parameters of a chain run by the script backend.
/// The sampling temperature is held in thousandths (700 for 0.7).
#[derive(Debug, Clone)]
pub struct LangChainConfig {
    pub model_provider: String,
    pub model_name: String,
    pub temperature_milli: u32,
    pub max_tokens: u32,
    pub memory_type: String,
    pub tools: Vec<String>,
}

/// Parameters of a workflow graph run by the script backend.
#[derive(Debug, Clone)]
pub struct LangGraphConfig {
    pub workflow_file: String,
    pub state_schema: String,
    pub checkpointing: bool,
    pub parallel_execution: bool,
}

/// Execution configuration of an agent.
#[derive(Debug)]
pub struct AgentConfig {
    pub version: String,
    pub execution_mode: ExecutionMode,
    pub priority: Priority,
    pub max_concurrent_actions: u32,
    pub timeout_seconds: u64,
    pub retry_attempts: u32,
    pub memory_limit_mb: u64,
    /// Environment variables, in insertion order, keys unique.
    pub environment_variables: Vec<(String, String)>,
    pub data_sources: Vec<String>,
    pub triggers: Vec<String>,
    pub permissions: Vec<String>,
    pub python_config: Option<PythonAgentConfig>,
    pub javascript_config: Option<JavaScriptAgentConfig>,
}

/// `c` carries the same settings as `d`; script and JavaScript parameters are only
/// known to be present or absent alike.
pub open spec fn same_settings(c: AgentConfig, d: AgentConfig) -> bool {
    &&& c.version == d.version
    &&& c.execution_mode == d.execution_mode
    &&& c.priority == d.priority
    &&& c.max_concurrent_actions == d.max_concurrent_actions
    &&& c.timeout_seconds == d.timeout_seconds
    &&& c.retry_attempts == d.retry_attempts
    &&& c.memory_limit_mb == d.memory_limit_mb
    &&& c.environment_variables@ == d.environment_variables@
    &&& c.data_sources@ == d.data_sources@
    &&& c.triggers@ == d.triggers@
    &&& c.permissions@ == d.permissions@
    &&& c.python_config.is_some() == d.python_config.is_some()
    &&& c.javascript_config.is_some() == d.javascript_config.is_some()
}

impl Clone for AgentConfig {
    fn clone(&self) -> (r: Self)
        ensures
            same_settings(r, *self),
    {
        AgentConfig {
            version: self.version.clone(),
            execution_mode: self.execution_mode,
            priority: self.priority,
            max_concurrent_actions: self.max_concurrent_actions,
            timeout_seconds: self.timeout_seconds,
            retry_attempts: self.retry_attempts,
            memory_limit_mb: self.memory_limit_mb,
            environment_variables: clone_pairs(&self.environment_variables),
            data_sources: clone_strings(&self.data_sources),
            triggers: clone_strings(&self.triggers),
            permissions: clone_strings(&self.permissions),
            python_config: match &self.python_config {
                Some(p) => Some(p.clone()),
                None => None,
            },
            javascript_config: match &self.javascript_config {
                Some(j) => Some(j.clone()),
                None => None,
            },
        }
    }
}

/// The defaults of a new agent's configuration.
pub open spec fn is_default_config(c: AgentConfig) -> bool {
    &&& c.version@ == "1.0.0"@
    &&& c.execution_mode == ExecutionMode::Asynchronous
    &&& c.priority == Priority::Normal
    &&& c.max_concurrent_actions == 5
    &&& c.timeout_seconds == 300
    &&& c.retry_attempts == 3
    &&& c.memory_limit_mb == 256
    &&& c.environment_variables@.len() == 0
    &&& c.data_sources@.len() == 0
    &&& c.triggers@.len() == 0
    &&& c.permissions@.len() == 0
    &&& c.python_config.is_none()
    &&& c.javascript_config.is_none()
}

impl Default for AgentConfig {
    fn default() -> (r: AgentConfig)
        ensures
            is_default_config(r),
    {
        proof {
            reveal_strlit("1.0.0");
        }
        AgentConfig {
            version: String::from_str("1.0.0"),
            execution_mode: ExecutionMode::Asynchronous,
            priority: Priority::Normal,
            max_concurrent_actions: 5,
            timeout_seconds: 300,
            retry_attempts: 3,
            memory_limit_mb: 256,
            environment_variables: Vec::new(),
            data_sources: Vec::new(),
            triggers: Vec::new(),
            permissions: Vec::new(),
            python_config: None,
            javascript_config: None,
        }
    }
}

/// Specialisations of a personal assistant.
#[derive(Debug, Clone, Copy, PartialEq, Eq, Structural)]
pub enum PersonalAssistantType {
    GeneralPurpose,
    ScheduleManager,
    TaskCoordinator,
    CommunicationManager,
}

/// Fields a research assistant works in.
#[derive(Debug, Clone, Copy, PartialEq, Eq, Structural)]
pub enum ResearchDomain {
    Academic,
    Business,
    Technology,
    Health,
    Finance,
    General,
}

/// How deep a research assistant digs.
#[derive(Debug, Clone, Copy, PartialEq, Eq, Structural)]
pub enum ResearchDepth {
    Summary,
    Detailed,
    Comprehensive,
    Expert,
}

/// Working methods of a productivity manager.
#[derive(Debug)]
pub enum ProductivityMethodology {
    GettingThingsDone,
    TimeBlocking,
    Pomodoro,
    Kanban,
    Custom(String),
}

/// Specialisation of an agent, with the parameters of each kind.
/// Alert thresholds are held in thousandths; custom settings are JSON texts.
#[derive(Debug)]
pub enum AgentTemplate {
    PersonalAssistant { specialization: PersonalAssistantType },
    ResearchAssistant { domain: ResearchDomain, depth: ResearchDepth },
    ProductivityManager { methodology: ProductivityMethodology },
    DataAnalyst { data_types: Vec<String>, analysis_types: Vec<String> },
    FinanceTracker { account_types: Vec<String>, reporting_frequency: String },
    HealthMonitor { metrics: Vec<String>, tracking_frequency: String },
    ContentCreator { content_types: Vec<String>, platforms: Vec<String> },
    LearningCompanion { subjects: Vec<String>, learning_style: String },
    JournalAssistant { journal_type: String, frequency: String },
    DeveloperCompanion {
        languages: Vec<String>,
        frameworks: Vec<String>,
        specializations: Vec<String>,
    },
    SystemMonitor { monitored_systems: Vec<String>, alert_thresholds_milli: Vec<(String, i64)> },
    DataCurator { data_sources: Vec<String>, curation_rules: Vec<String> },
    CustomAgent { custom_type: String, custom_config: Vec<(String, String)> },
}

/// Permission-like tags of what an agent may do.
#[derive(Debug)]
pub enum AgentCapability {
    ReadFiles,
    WriteFiles,
    AccessDatabase,
    AccessInternet,
    SendEmail,
    SendNotifications,
    MakeApiCalls,
    WebhookReceiver,
    TextGeneration,
    TextAnalysis,
    ImageAnalysis,
    CodeGeneration,
    ExecuteCommands,
    FileSystemWatch,
    NetworkMonitoring,
    ProcessManagement,
    Custom(String),
}

/// Execution counters of an agent. The average is the integer mean of
/// `total_runtime_ms` over `total_executions`.
#[derive(Debug)]
pub struct AgentMetrics {
    pub total_executions: u64,
    pub successful_executions: u64,
    pub failed_executions: u64,
    pub average_execution_time_ms: u64,
    pub last_execution: Option<UnixSeconds>,
    pub total_runtime_ms: u64,
    pub memory_usage_mb: u64,
    pub cpu_usage_permille: u32,
    pub data_processed_bytes: u64,
    pub actions_performed: u64,
    pub errors_encountered: u64,
    pub custom_metrics: Vec<(String, i64)>,
}

/// All counters zero, nothing recorded.
pub open spec fn is_zero_metrics(m: AgentMetrics) -> bool {
    &&& m.total_executions == 0
    &&& m.successful_executions == 0
    &&& m.failed_executions == 0
    &&& m.average_execution_time_ms == 0
    &&& m.last_execution.is_none()
    &&& m.total_runtime_ms == 0
    &&& m.memory_usage_mb == 0
    &&& m.cpu_usage_permille == 0
    &&& m.data_processed_bytes == 0
    &&& m.actions_performed == 0
    &&& m.errors_encountered == 0
    &&& m.custom_metrics@.len() == 0
}

impl Default for AgentMetrics {
    fn default() -> (r: AgentMetrics)
        ensures
            is_zero_metrics(r),
    {
        AgentMetrics {
            total_executions: 0,
            successful_executions: 0,
            failed_executions: 0,
            average_execution_time_ms: 0,
            last_execution: None,
            total_runtime_ms: 0,
            memory_usage_mb: 0,
            cpu_usage_permille: 0,
            data_processed_bytes: 0,
            actions_performed: 0,
            errors_encountered: 0,
            custom_metrics: Vec::new(),
        }
    }
}

/// A configured unit of automation.
#[derive(Debug)]
pub struct Agent {
    pub id: AgentId,
    pub name: String,
    pub description: String,
    pub template: AgentTemplate,
    pub config: AgentConfig,
    pub status: AgentStatus,
    pub capabilities: Vec<AgentCapability>,
    pub metrics: AgentMetrics,
    pub timestamps: Timestamp,
}

/// A configuration that registration accepts: a non-empty name, a timeout and a
/// concurrency bound above zero.
pub open spec fn is_valid_agent(a: Agent) -> bool {
    a.name@.len() > 0 && a.config.timeout_seconds > 0 && a.config.max_concurrent_actions > 0
}

/// The first rule that `a` breaks, in the order name, timeout, concurrency.
pub open spec fn validation_error(a: Agent) -> crate::error::ValidationError {
    if a.name@.len() == 0 {
        crate::error::ValidationError::EmptyName
    } else if a.config.timeout_seconds == 0 {
        crate::error::ValidationError::ZeroTimeout
    } else {
        crate::error::ValidationError::ZeroConcurrency
    }
}

/// Checks an agent's configuration before it is registered.
pub fn validate_agent(agent: &Agent) -> (r: Result<(), crate::error::ValidationError>)
    ensures
        r is Ok <==> is_valid_agent(*agent),
        r matches Err(e) ==> e == validation_error(*agent),
{
    if agent.name.as_str().is_empty() {
        return Err(crate::error::ValidationError::EmptyName);
    }
    if agent.config.timeout_seconds == 0 {
        return Err(crate::error::ValidationError::ZeroTimeout);
    }
    if agent.config.max_concurrent_actions == 0 {
        return Err(crate::error::ValidationError::ZeroConcurrency);
    }
    Ok(())
}

impl Agent {
    /// A new agent in `Draft`, with a fresh id, default configuration and zero metrics.
    pub fn new(name: String, template: AgentTemplate) -> (r: Agent)
        ensures
            r.name == name,
            r.template == template,
            r.description@.len() == 0,
            r.status == AgentStatus::Draft,
            is_default_config(r.config),
            is_zero_metrics(r.metrics),
            r.capabilities@.len() == 0,
    {
        Agent {
            id: new_uuid(),
            name,
            description: String::new(),
            template,
            config: AgentConfig::default(),
            status: AgentStatus::Draft,
            capabilities: Vec::new(),
            metrics: AgentMetrics::default(),
            timestamps: Timestamp::now(),
        }
    }

    /// Whether the agent is processing actions.
    pub fn is_active(&self) -> (r: bool)
        ensures
            r <==> self.status is Running,
    {
        matches!(self.status, AgentStatus::Running)
    }

    /// Whether the agent may be handed actions.
    pub fn can_execute(&self) -> (r: bool)
        ensures
            r <==> (self.status is Ready || self.status is Running),
    {
        matches!(self.status, AgentStatus::Ready | AgentStatus::Running)
    }

    /// Whether one more execution of `execution_time_ms` can be counted without overflow.
    pub open spec fn can_record(&self, execution_time_ms: u64) -> bool {
        &&& self.metrics.total_executions < u64::MAX
        &&& self.metrics.successful_executions < u64::MAX
        &&& self.metrics.failed_executions < u64::MAX
        &&& self.metrics.total_runtime_ms + execution_time_ms <= u64::MAX
    }

    /// `self` with one more execution counted, finished at `now`.
    pub open spec fn recorded(&self, execution_time_ms: u64, success: bool, now: UnixSeconds) -> Agent {
        let total = (self.metrics.total_executions + 1) as u64;
        let runtime = (self.metrics.total_runtime_ms + execution_time_ms) as u64;
        Agent {
            metrics: AgentMetrics {
                total_executions: total,
                successful_executions: if success {
                    (self.metrics.successful_executions + 1) as u64
                } else {
                    self.metrics.successful_executions
                },
                failed_executions: if success {
                    self.metrics.failed_executions
                } else {
                    (self.metrics.failed_executions + 1) as u64
                },
                total_runtime_ms: runtime,
                average_execution_time_ms: runtime / total,
                last_execution: Some(now),
                ..self.metrics
            },
            timestamps: Timestamp { updated_at: now, ..self.timestamps },
            ..*self
        }
    }

    /// Records one execution that took `execution_time_ms` and finished at `now`: the
    /// counters and the mean duration are updated.
    pub fn update_metrics_at(&mut self, execution_time_ms: u64, success: bool, now: UnixSeconds)
        requires
            old(self).can_record(execution_time_ms),
        ensures
            *final(self) == old(self).recorded(execution_time_ms, success, now),
    {
        self.metrics.total_executions = self.metrics.total_executions + 1;
        if success {
            self.metrics.successful_executions = self.metrics.successful_executions + 1;
        } else {
            self.metrics.failed_executions = self.metrics.failed_executions + 1;
        }
        self.metrics.total_runtime_ms = self.metrics.total_runtime_ms + execution_time_ms;
        self.metrics.average_execution_time_ms = self.metrics.total_runtime_ms
            / self.metrics.total_executions;
        self.metrics.last_execution = Some(now);
        self.timestamps.updated_at = now;
    }

    /// `update_metrics_at` at the current time.
    pub fn update_metrics(&mut self, execution_time_ms: u64, success: bool)
        requires
            old(self).can_record(execution_time_ms),
        ensures
            *final(self) == old(self).recorded(
                execution_time_ms,
                success,
                final(self).timestamps.updated_at,
            ),
    {
        let now = unix_now();
        self.update_metrics_at(execution_time_ms, success, now);
    }
}

/// Kinds of work an action performs, with its argument.
/// The payload of `Custom` is a JSON text.
#[derive(Debug)]
pub enum ActionType {
    ReadData(String),
    WriteData(String),
    ProcessData(String),
    SendMessage(String),
    SendEmail(String),
    PostWebhook(String),
    GenerateText(String),
    AnalyzeText(String),
    RunLangChain(String),
    RunLangGraph(String),
    ExecuteCommand(String),
    WatchFile(String),
    ScheduleTask(String),
    Custom(String, String),
}

impl Clone for ActionType {
    fn clone(&self) -> (r: Self)
        ensures
            r == *self,
    {
        match self {
            ActionType::ReadData(s) => ActionType::ReadData(s.clone()),
            ActionType::WriteData(s) => ActionType::WriteData(s.clone()),
            ActionType::ProcessData(s) => ActionType::ProcessData(s.clone()),
            ActionType::SendMessage(s) => ActionType::SendMessage(s.clone()),
            ActionType::SendEmail(s) => ActionType::SendEmail(s.clone()),
            ActionType::PostWebhook(s) => ActionType::PostWebhook(s.clone()),
            ActionType::GenerateText(s) => ActionType::GenerateText(s.clone()),
            ActionType::AnalyzeText(s) => ActionType::AnalyzeText(s.clone()),
            ActionType::RunLangChain(s) => ActionType::RunLangChain(s.clone()),
            ActionType::RunLangGraph(s) => ActionType::RunLangGraph(s.clone()),
            ActionType::ExecuteCommand(s) => ActionType::ExecuteCommand(s.clone()),
            ActionType::WatchFile(s) => ActionType::WatchFile(s.clone()),
            ActionType::ScheduleTask(s) => ActionType::ScheduleTask(s.clone()),
            ActionType::Custom(n, p) => ActionType::Custom(n.clone(), p.clone()),
        }
    }
}

/// Progress of an action: `Pending`, then `Running`, then one terminal state.
#[derive(Debug)]
pub enum ActionStatus {
    Pending,
    Running,
    Completed,
    Failed(String),
    Cancelled,
}

impl Clone for ActionStatus {
    fn clone(&self) -> (r: Self)
        ensures
            r == *self,
    {
        match self {
            ActionStatus::Pending => ActionStatus::Pending,
            ActionStatus::Running => ActionStatus::Running,
            ActionStatus::Completed => ActionStatus::Completed,
            ActionStatus::Failed(m) => ActionStatus::Failed(m.clone()),
            ActionStatus::Cancelled => ActionStatus::Cancelled,
        }
    }
}

impl ActionStatus {
    /// Whether no further transition is possible.
    pub fn is_terminal(&self) -> (r: bool)
        ensures
            r <==> (self is Completed || self is Failed || self is Cancelled),
    {
        matches!(self, ActionStatus::Completed | ActionStatus::Failed(_) | ActionStatus::Cancelled)
    }
}

/// One unit of work of an agent. Input and output are JSON texts.
#[derive(Debug)]
pub struct AgentAction {
    pub id: u128,
    pub agent_id: AgentId,
    pub action_type: ActionType,
    pub input_data: String,
    pub output_data: Option<String>,
    pub status: ActionStatus,
    pub started_at: UnixSeconds,
    pub completed_at: Option<UnixSeconds>,
    pub error_message: Option<String>,
}

pub fn clone_opt_string(s: &Option<String>) -> (r: Option<String>)
    ensures
        r == *s,
{
    match s {
        Some(x) => Some(x.clone()),
        None => None,
    }
}

impl Clone for AgentAction {
    fn clone(&self) -> (r: Self)
        ensures
            r == *self,
    {
        AgentAction {
            id: self.id,
            agent_id: self.agent_id,
            action_type: self.action_type.clone(),
            input_data: self.input_data.clone(),
            output_data: clone_opt_string(&self.output_data),
            status: self.status.clone(),
            started_at: self.started_at,
            completed_at: self.completed_at,
            error_message: clone_opt_string(&self.error_message),
        }
    }
}

impl AgentAction {
    /// A new `Pending` action of `agent_id`, with a fresh id.
    pub fn new(agent_id: AgentId, action_type: ActionType, input_data: String) -> (r: AgentAction)
        ensures
            r.agent_id == agent_id,
            r.action_type == action_type,
            r.input_data == input_data,
            r.status == ActionStatus::Pending,
            r.output_data.is_none(),
            r.completed_at.is_none(),
            r.error_message.is_none(),
    {
        AgentAction {
            id: new_uuid(),
            agent_id,
            action_type,
            input_data,
            output_data: None,
            status: ActionStatus::Pending,
            started_at: unix_now(),
            completed_at: None,
            error_message: None,
        }
    }
}

} // verus!
