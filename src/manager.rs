//! Stored forms of agent status and template, and counts over agents.

use vstd::prelude::*;
use vstd::string::*;

use crate::error::AgentSpaceError;
use crate::types::{Agent, AgentId, AgentStatus, AgentTemplate, UnixSeconds};

verus! {

/// The stored text of a status; an error keeps its message after `"Error: "`.
pub open spec fn status_text(s: AgentStatus) -> Seq<char> {
    match s {
        AgentStatus::Draft => "Draft"@,
        AgentStatus::Ready => "Ready"@,
        AgentStatus::Running => "Running"@,
        AgentStatus::Paused => "Paused"@,
        AgentStatus::Error(m) => "Error: "@ + m@,
        AgentStatus::Stopped => "Stopped"@,
    }
}

/// The status a stored text stands for: after `"Error: "` an error with the rest as
/// message, one of the five names, else an error that names the unknown text.
pub open spec fn status_of_text(t: Seq<char>) -> AgentStatus {
    if t.len() >= 7 && t.subrange(0, 7) == "Error: "@ {
        AgentStatus::Error(string_of(t.subrange(7, t.len() as int)))
    } else if t == "Draft"@ {
        AgentStatus::Draft
    } else if t == "Ready"@ {
        AgentStatus::Ready
    } else if t == "Running"@ {
        AgentStatus::Running
    } else if t == "Paused"@ {
        AgentStatus::Paused
    } else if t == "Stopped"@ {
        AgentStatus::Stopped
    } else {
        AgentStatus::Error(string_of("Unknown status: "@ + t))
    }
}

/// The string whose characters are `t`.
pub open spec fn string_of(t: Seq<char>) -> String {
    choose|s: String| s@ == t
}

/// Converts a status to its stored text.
pub fn status_to_string(status: &AgentStatus) -> (r: String)
    ensures
        r@ == status_text(*status),
{
    proof {
        reveal_strlit("Draft");
        reveal_strlit("Ready");
        reveal_strlit("Running");
        reveal_strlit("Paused");
        reveal_strlit("Error: ");
        reveal_strlit("Stopped");
    }
    match status {
        AgentStatus::Draft => String::from_str("Draft"),
        AgentStatus::Ready => String::from_str("Ready"),
        AgentStatus::Running => String::from_str("Running"),
        AgentStatus::Paused => String::from_str("Paused"),
        AgentStatus::Error(m) => String::from_str("Error: ").concat(m.as_str()),
        AgentStatus::Stopped => String::from_str("Stopped"),
    }
}

/// Whether two strings hold the same characters.
pub(crate) fn same_chars(a: &str, b: &str) -> (r: bool)
    ensures
        r == (a@ == b@),
{
    let n = a.unicode_len();
    if n != b.unicode_len() {
        return false;
    }
    let mut i: usize = 0;
    while i < n
        invariant
            n == a@.len(),
            n == b@.len(),
            i <= n,
            forall|j: int| 0 <= j < i ==> a@[j] == b@[j],
        decreases n - i,
    {
        if a.get_char(i) != b.get_char(i) {
            return false;
        }
        i += 1;
    }
    assert(a@ =~= b@);
    true
}

fn starts_with_error(t: &str) -> (r: bool)
    ensures
        r == (t@.len() >= 7 && t@.subrange(0, 7) == "Error: "@),
{
    proof {
        reveal_strlit("Error: ");
    }
    let n = t.unicode_len();
    if n < 7 {
        return false;
    }
    let head = t.substring_char(0, 7);
    same_chars(head, "Error: ")
}

/// Reads a status back from its stored text.
pub fn string_to_status(text: &str) -> (r: AgentStatus)
    ensures
        r is Error ==> status_of_text(text@) is Error && r->Error_0@ == status_of_text(text@)->Error_0@,
        !(r is Error) ==> r == status_of_text(text@),
{
    proof {
        reveal_strlit("Draft");
        reveal_strlit("Ready");
        reveal_strlit("Running");
        reveal_strlit("Paused");
        reveal_strlit("Stopped");
        reveal_strlit("Unknown status: ");
    }
    if starts_with_error(text) {
        let n = text.unicode_len();
        let rest = text.substring_char(7, n);
        let m = rest.to_string();
        proof {
            let t = text@.subrange(7, text@.len() as int);
            assert(m@ == t);
            assert(string_of(t)@ == t) by {
                assert(exists|s: String| s@ == t);
            }
        }
        return AgentStatus::Error(m);
    }
    if same_chars(text, "Draft") {
        AgentStatus::Draft
    } else if same_chars(text, "Ready") {
        AgentStatus::Ready
    } else if same_chars(text, "Running") {
        AgentStatus::Running
    } else if same_chars(text, "Paused") {
        AgentStatus::Paused
    } else if same_chars(text, "Stopped") {
        AgentStatus::Stopped
    } else {
        let m = String::from_str("Unknown status: ").concat(text);
        proof {
            let t = "Unknown status: "@ + text@;
            assert(string_of(t)@ == t) by {
                assert(exists|s: String| s@ == t);
            }
        }
        AgentStatus::Error(m)
    }
}

/// Status round trip: reading back the stored text of a status gives the same status
/// (for an error, one with the same message).
pub proof fn lemma_status_round_trip(s: AgentStatus)
    ensures
        !(s is Error) ==> status_of_text(status_text(s)) == s,
        s is Error ==> status_of_text(status_text(s)) is Error && status_of_text(status_text(s))->Error_0@
            == s->Error_0@,
{
    reveal_strlit("Draft");
    reveal_strlit("Ready");
    reveal_strlit("Running");
    reveal_strlit("Paused");
    reveal_strlit("Error: ");
    reveal_strlit("Stopped");
    match s {
        AgentStatus::Error(m) => {
            let t = "Error: "@ + m@;
            assert(t.subrange(0, 7) =~= "Error: "@);
            assert(t.subrange(7, t.len() as int) =~= m@);
            assert(string_of(m@)@ == m@) by {
                assert(exists|x: String| x@ == m@);
            }
        },
        _ => {
            let t = status_text(s);
            if t.len() >= 7 {
                assert(t.subrange(0, 7) != "Error: "@) by {
                    assert(t.subrange(0, 7)[0] != "Error: "@[0]);
                }
            }
            assert(t[0] != 'E');
            if !(s is Draft) {
                assert(t != "Draft"@) by {
                    if t.len() == 5 {
                        assert(t[0] != "Draft"@[0]);
                    }
                }
            }
            if !(s is Draft || s is Ready) {
                assert(t != "Ready"@) by {
                    if t.len() == 5 {
                        assert(t[0] != "Ready"@[0]);
                    }
                }
            }
            if !(s is Draft || s is Ready || s is Running) {
                assert(t != "Running"@) by {
                    if t.len() == 7 {
                        assert(t[0] != "Running"@[0]);
                    }
                }
            }
            if s is Stopped {
                assert(t != "Paused"@);
            }
        },
    }
}

/// The name of a template's kind.
pub open spec fn template_kind(t: AgentTemplate) -> Seq<char> {
    match t {
        AgentTemplate::PersonalAssistant { .. } => "PersonalAssistant"@,
        AgentTemplate::ResearchAssistant { .. } => "ResearchAssistant"@,
        AgentTemplate::ProductivityManager { .. } => "ProductivityManager"@,
        AgentTemplate::DataAnalyst { .. } => "DataAnalyst"@,
        AgentTemplate::FinanceTracker { .. } => "FinanceTracker"@,
        AgentTemplate::HealthMonitor { .. } => "HealthMonitor"@,
        AgentTemplate::ContentCreator { .. } => "ContentCreator"@,
        AgentTemplate::LearningCompanion { .. } => "LearningCompanion"@,
        AgentTemplate::JournalAssistant { .. } => "JournalAssistant"@,
        AgentTemplate::DeveloperCompanion { .. } => "DeveloperCompanion"@,
        AgentTemplate::SystemMonitor { .. } => "SystemMonitor"@,
        AgentTemplate::DataCurator { .. } => "DataCurator"@,
        AgentTemplate::CustomAgent { .. } => "CustomAgent"@,
    }
}

/// The stored name of a template's kind.
pub fn get_template_type(template: &AgentTemplate) -> (r: String)
    ensures
        r@ == template_kind(*template),
{
    proof {
        reveal_strlit("PersonalAssistant");
        reveal_strlit("ResearchAssistant");
        reveal_strlit("ProductivityManager");
        reveal_strlit("DataAnalyst");
        reveal_strlit("FinanceTracker");
        reveal_strlit("HealthMonitor");
        reveal_strlit("ContentCreator");
        reveal_strlit("LearningCompanion");
        reveal_strlit("JournalAssistant");
        reveal_strlit("DeveloperCompanion");
        reveal_strlit("SystemMonitor");
        reveal_strlit("DataCurator");
        reveal_strlit("CustomAgent");
    }
    match template {
        AgentTemplate::PersonalAssistant { .. } => String::from_str("PersonalAssistant"),
        AgentTemplate::ResearchAssistant { .. } => String::from_str("ResearchAssistant"),
        AgentTemplate::ProductivityManager { .. } => String::from_str("ProductivityManager"),
        AgentTemplate::DataAnalyst { .. } => String::from_str("DataAnalyst"),
        AgentTemplate::FinanceTracker { .. } => String::from_str("FinanceTracker"),
        AgentTemplate::HealthMonitor { .. } => String::from_str("HealthMonitor"),
        AgentTemplate::ContentCreator { .. } => String::from_str("ContentCreator"),
        AgentTemplate::LearningCompanion { .. } => String::from_str("LearningCompanion"),
        AgentTemplate::JournalAssistant { .. } => String::from_str("JournalAssistant"),
        AgentTemplate::DeveloperCompanion { .. } => String::from_str("DeveloperCompanion"),
        AgentTemplate::SystemMonitor { .. } => String::from_str("SystemMonitor"),
        AgentTemplate::DataCurator { .. } => String::from_str("DataCurator"),
        AgentTemplate::CustomAgent { .. } => String::from_str("CustomAgent"),
    }
}

/// Counts of agents by status.
#[derive(Debug, Clone, Copy, PartialEq, Eq, Structural)]
pub struct AgentStatistics {
    pub total_agents: u64,
    pub running_agents: u64,
    pub ready_agents: u64,
    pub paused_agents: u64,
    pub error_agents: u64,
}

/// Statuses of kind `kind`: `Running` 0, `Ready` 1, `Paused` 2, `Error` 3.
pub open spec fn status_in(kind: int) -> spec_fn(AgentStatus) -> bool {
    |s: AgentStatus| if kind == 0 {
        s is Running
    } else if kind == 1 {
        s is Ready
    } else if kind == 2 {
        s is Paused
    } else {
        s is Error
    }
}

/// Counts the given statuses: all, `Running`, `Ready`, `Paused` and `Error`.
pub fn count_statuses(statuses: &Vec<AgentStatus>) -> (r: AgentStatistics)
    ensures
        r.total_agents == statuses@.len(),
        r.running_agents == statuses@.filter(status_in(0)).len(),
        r.ready_agents == statuses@.filter(status_in(1)).len(),
        r.paused_agents == statuses@.filter(status_in(2)).len(),
        r.error_agents == statuses@.filter(status_in(3)).len(),
{
    let mut st = AgentStatistics {
        total_agents: statuses.len() as u64,
        running_agents: 0,
        ready_agents: 0,
        paused_agents: 0,
        error_agents: 0,
    };
    let mut i: usize = 0;
    while i < statuses.len()
        invariant
            i <= statuses@.len(),
            st.total_agents == statuses@.len(),
            st.running_agents == statuses@.subrange(0, i as int).filter(status_in(0)).len(),
            st.ready_agents == statuses@.subrange(0, i as int).filter(status_in(1)).len(),
            st.paused_agents == statuses@.subrange(0, i as int).filter(status_in(2)).len(),
            st.error_agents == statuses@.subrange(0, i as int).filter(status_in(3)).len(),
        decreases statuses.len() - i,
    {
        let ghost pre = statuses@.subrange(0, i as int);
        let ghost x = statuses@[i as int];
        proof {
            assert(statuses@.subrange(0, i + 1) =~= pre.push(x));
            pre.lemma_filter_push(x, status_in(0));
            pre.lemma_filter_push(x, status_in(1));
            pre.lemma_filter_push(x, status_in(2));
            pre.lemma_filter_push(x, status_in(3));
            pre.lemma_filter_len(status_in(0));
            pre.lemma_filter_len(status_in(1));
            pre.lemma_filter_len(status_in(2));
            pre.lemma_filter_len(status_in(3));
        }
        match &statuses[i] {
            AgentStatus::Running => {
                st.running_agents = st.running_agents + 1;
            },
            AgentStatus::Ready => {
                st.ready_agents = st.ready_agents + 1;
            },
            AgentStatus::Paused => {
                st.paused_agents = st.paused_agents + 1;
            },
            AgentStatus::Error(_) => {
                st.error_agents = st.error_agents + 1;
            },
            _ => {},
        }
        i += 1;
    }
    assert(statuses@.subrange(0, statuses@.len() as int) =~= statuses@);
    st
}

/// The indexed columns of an agent's row in the agents table.
#[derive(Debug)]
pub struct AgentRecord {
    pub id: AgentId,
    pub name: String,
    pub description: String,
    pub template_type: String,
    pub status: String,
    pub created_at: UnixSeconds,
    pub updated_at: UnixSeconds,
}

impl Clone for AgentRecord {
    fn clone(&self) -> (r: Self)
        ensures
            r == *self,
    {
        AgentRecord {
            id: self.id,
            name: self.name.clone(),
            description: self.description.clone(),
            template_type: self.template_type.clone(),
            status: self.status.clone(),
            created_at: self.created_at,
            updated_at: self.updated_at,
        }
    }
}

/// `r` is the row of `a`.
pub open spec fn is_row_of(r: AgentRecord, a: Agent) -> bool {
    &&& r.id == a.id
    &&& r.name == a.name
    &&& r.description == a.description
    &&& r.template_type@ == template_kind(a.template)
    &&& r.status@ == status_text(a.status)
    &&& r.created_at == a.timestamps.created_at
    &&& r.updated_at == a.timestamps.updated_at
}

impl AgentRecord {
    /// The row of `agent`.
    pub fn of(agent: &Agent) -> (r: AgentRecord)
        ensures
            is_row_of(r, *agent),
            r.id == agent.id,
            r.name == agent.name,
            r.description == agent.description,
            r.template_type@ == template_kind(agent.template),
            r.status@ == status_text(agent.status),
            r.created_at == agent.timestamps.created_at,
            r.updated_at == agent.timestamps.updated_at,
    {
        AgentRecord {
            id: agent.id,
            name: agent.name.clone(),
            description: agent.description.clone(),
            template_type: get_template_type(&agent.template),
            status: status_to_string(&agent.status),
            created_at: agent.timestamps.created_at,
            updated_at: agent.timestamps.updated_at,
        }
    }
}

/// Whether `q` occurs in `s`.
pub open spec fn occurs_in(q: Seq<char>, s: Seq<char>) -> bool {
    exists|i: int| 0 <= i <= s.len() - q.len() && #[trigger] s.subrange(i, i + q.len()) == q
}

fn occurs(q: &str, s: &str) -> (r: bool)
    ensures
        r == occurs_in(q@, s@),
{
    let n = s.unicode_len();
    let m = q.unicode_len();
    if m > n {
        proof {
            assert forall|i: int| 0 <= i <= s@.len() - q@.len() implies #[trigger] s@.subrange(i, i + q@.len()) != q@ by {
            }
        }
        return false;
    }
    let mut i: usize = 0;
    while i <= n - m
        invariant
            n == s@.len(),
            m == q@.len(),
            m <= n,
            i <= n - m + 1,
            forall|k: int| 0 <= k < i ==> #[trigger] s@.subrange(k, k + m) != q@,
        decreases n - m + 1 - i,
    {
        let mut j: usize = 0;
        let mut same = true;
        while j < m && same
            invariant
                n == s@.len(),
                m == q@.len(),
                i + m <= n,
                j <= m,
                same ==> forall|t: int| 0 <= t < j ==> s@[i + t] == q@[t],
                !same ==> s@.subrange(i as int, i + m) != q@,
            decreases m - j,
        {
            if s.get_char(i + j) != q.get_char(j) {
                same = false;
                proof {
                    assert(s@.subrange(i as int, i + m)[j as int] != q@[j as int]);
                }
            }
            j += 1;
        }
        if same {
            proof {
                assert(s@.subrange(i as int, i + m) =~= q@);
            }
            return true;
        }
        if i == n - m {
            return false;
        }
        i += 1;
    }
    false
}

/// Rows whose name or description contains `q`.
pub open spec fn record_matches(q: Seq<char>) -> spec_fn(AgentRecord) -> bool {
    |r: AgentRecord| occurs_in(q, r.name@) || occurs_in(q, r.description@)
}

/// Rows stored with status text `t`.
pub open spec fn record_in_status(t: Seq<char>) -> spec_fn(AgentRecord) -> bool {
    |r: AgentRecord| r.status@ == t
}

/// No two rows share an id.
pub open spec fn unique_record_ids(s: Seq<AgentRecord>) -> bool {
    forall|i: int, j: int| 0 <= i < j < s.len() ==> s[i].id != s[j].id
}

/// Whether `s` holds a row of this id.
pub open spec fn has_record_of(s: Seq<AgentRecord>, id: AgentId) -> bool {
    exists|i: int| 0 <= i < s.len() && s[i].id == id
}

/// Position of the row `id` in `s`.
pub open spec fn record_index(s: Seq<AgentRecord>, id: AgentId) -> int {
    choose|i: int| 0 <= i < s.len() && s[i].id == id
}

/// The row of each agent in `s`.
pub open spec fn row_map(s: Seq<AgentRecord>) -> Map<AgentId, AgentRecord> {
    Map::new(|a: AgentId| has_record_of(s, a), |a: AgentId| s[record_index(s, a)])
}

proof fn lemma_row_index(s: Seq<AgentRecord>, k: int)
    requires
        unique_record_ids(s),
        0 <= k < s.len(),
    ensures
        has_record_of(s, s[k].id),
        record_index(s, s[k].id) == k,
{
    let a = s[k].id;
    assert(has_record_of(s, a));
    let c = record_index(s, a);
    if c != k {
        if c < k {
            assert(s[c].id != s[k].id);
        } else {
            assert(s[k].id != s[c].id);
        }
    }
}

proof fn lemma_row_update(s: Seq<AgentRecord>, i: int, x: AgentRecord)
    requires
        unique_record_ids(s),
        0 <= i < s.len(),
        x.id == s[i].id,
    ensures
        unique_record_ids(s.update(i, x)),
        row_map(s.update(i, x)) == row_map(s).insert(x.id, x),
{
    let t = s.update(i, x);
    assert forall|p: int, q: int| 0 <= p < q < t.len() implies t[p].id != t[q].id by {
        assert(s[p].id != s[q].id);
    }
    assert forall|a: AgentId| #[trigger] has_record_of(t, a) == has_record_of(s, a) by {
        if has_record_of(s, a) {
            let k = record_index(s, a);
            assert(t[k].id == a);
        }
        if has_record_of(t, a) {
            let k = record_index(t, a);
            assert(s[k].id == a);
        }
    }
    assert forall|a: AgentId| has_record_of(t, a) implies #[trigger] record_index(t, a) == record_index(s, a) by {
        let k = record_index(t, a);
        assert(s[k].id == a);
        lemma_row_index(s, k);
    }
    lemma_row_index(t, i);
    assert(row_map(t) =~= row_map(s).insert(x.id, x));
}

proof fn lemma_row_push(s: Seq<AgentRecord>, x: AgentRecord)
    requires
        unique_record_ids(s),
        !has_record_of(s, x.id),
    ensures
        unique_record_ids(s.push(x)),
        row_map(s.push(x)) == row_map(s).insert(x.id, x),
{
    let t = s.push(x);
    let n = s.len() as int;
    assert forall|p: int, q: int| 0 <= p < q < t.len() implies t[p].id != t[q].id by {
        if q == n {
            assert(s[p].id != x.id);
        } else {
            assert(s[p].id != s[q].id);
        }
    }
    assert forall|a: AgentId| #[trigger] has_record_of(t, a) == (has_record_of(s, a) || a == x.id) by {
        if has_record_of(s, a) {
            let k = record_index(s, a);
            assert(t[k].id == a);
        }
        if a == x.id {
            assert(t[n].id == a);
        }
        if has_record_of(t, a) && a != x.id {
            let k = record_index(t, a);
            assert(s[k].id == a);
        }
    }
    assert forall|a: AgentId| has_record_of(s, a) implies #[trigger] record_index(t, a) == record_index(s, a) by {
        let k = record_index(s, a);
        assert(t[k].id == a);
        lemma_row_index(t, k);
    }
    lemma_row_index(t, n);
    assert(row_map(t) =~= row_map(s).insert(x.id, x));
}

/// The agents table: one row per agent, keyed by id, in order of registration.
pub struct AgentManager {
    rows: Vec<AgentRecord>,
}

impl AgentManager {
    pub closed spec fn rows(&self) -> Seq<AgentRecord> {
        self.rows@
    }

    pub open spec fn wf(&self) -> bool {
        unique_record_ids(self.rows())
    }

    pub fn new() -> (r: AgentManager)
        ensures
            r.wf(),
            r.rows().len() == 0,
    {
        AgentManager { rows: Vec::new() }
    }

    fn find(&self, id: AgentId) -> (r: Option<usize>)
        requires
            self.wf(),
        ensures
            r matches Some(i) ==> i < self.rows().len() && self.rows()[i as int].id == id
                && record_index(self.rows(), id) == i,
            r is Some <==> has_record_of(self.rows(), id),
    {
        let mut i: usize = 0;
        while i < self.rows.len()
            invariant
                unique_record_ids(self.rows@),
                i <= self.rows@.len(),
                forall|j: int| 0 <= j < i ==> self.rows@[j].id != id,
            decreases self.rows.len() - i,
        {
            if self.rows[i].id == id {
                proof {
                    let s = self.rows@;
                    assert(has_record_of(s, id));
                    let c = record_index(s, id);
                    if c != i {
                        if c < i {
                            assert(s[c].id != s[i as int].id);
                        } else {
                            assert(s[i as int].id != s[c].id);
                        }
                    }
                }
                return Some(i);
            }
            i += 1;
        }
        None
    }

    /// Adds the row of a new agent; a second row for the same id is refused.
    pub fn register_agent(&mut self, record: AgentRecord) -> (r: Result<(), AgentSpaceError>)
        requires
            old(self).wf(),
        ensures
            final(self).wf(),
            r is Ok <==> !has_record_of(old(self).rows(), record.id),
            r is Err ==> r == Err::<(), AgentSpaceError>(AgentSpaceError::AlreadyExists(record.id))
                && final(self).rows() == old(self).rows(),
            r is Ok ==> final(self).rows() == old(self).rows().push(record),
    {
        if self.find(record.id).is_some() {
            return Err(AgentSpaceError::AlreadyExists(record.id));
        }
        let ghost before = self.rows@;
        let id = record.id;
        self.rows.push(record);
        proof {
            let n = before.len() as int;
            assert forall|a: int, b: int| 0 <= a < b < self.rows@.len() implies self.rows@[a].id
                != self.rows@[b].id by {
                if b == n {
                    assert(before[a].id != id);
                } else {
                    assert(before[a].id != before[b].id);
                }
            }
        }
        Ok(())
    }

    /// Replaces the row of an agent already in the table.
    pub fn save_agent(&mut self, record: AgentRecord) -> (r: Result<(), AgentSpaceError>)
        requires
            old(self).wf(),
        ensures
            final(self).wf(),
            r is Ok <==> has_record_of(old(self).rows(), record.id),
            r is Err ==> r == Err::<(), AgentSpaceError>(AgentSpaceError::NotFound(record.id))
                && final(self).rows() == old(self).rows(),
            r is Ok ==> final(self).rows() == old(self).rows().update(
                record_index(old(self).rows(), record.id),
                record,
            ),
    {
        let i = match self.find(record.id) {
            Some(i) => i,
            None => return Err(AgentSpaceError::NotFound(record.id)),
        };
        let ghost before = self.rows@;
        self.rows.set(i, record);
        proof {
            assert forall|a: int, b: int| 0 <= a < b < self.rows@.len() implies self.rows@[a].id
                != self.rows@[b].id by {
                assert(before[a].id != before[b].id);
            }
        }
        Ok(())
    }

    /// Stores `record`: in place of the row of the same id, or as a new row.
    pub fn upsert_agent(&mut self, record: AgentRecord)
        requires
            old(self).wf(),
        ensures
            final(self).wf(),
            row_map(final(self).rows()) == row_map(old(self).rows()).insert(record.id, record),
    {
        match self.find(record.id) {
            Some(i) => {
                proof {
                    lemma_row_update(self.rows@, i as int, record);
                }
                self.rows.set(i, record);
            },
            None => {
                proof {
                    lemma_row_push(self.rows@, record);
                }
                self.rows.push(record);
            },
        }
    }

    /// The row of `agent_id`, if there is one.
    pub fn load_agent(&self, agent_id: AgentId) -> (r: Option<AgentRecord>)
        requires
            self.wf(),
        ensures
            r is Some <==> has_record_of(self.rows(), agent_id),
            r matches Some(x) ==> x == self.rows()[record_index(self.rows(), agent_id)],
    {
        match self.find(agent_id) {
            Some(i) => Some(self.rows[i].clone()),
            None => None,
        }
    }

    /// Every row, in order of registration.
    pub fn load_all_agents(&self) -> (r: Vec<AgentRecord>)
        ensures
            r@ == self.rows(),
    {
        let mut r: Vec<AgentRecord> = Vec::new();
        let mut i: usize = 0;
        while i < self.rows.len()
            invariant
                i <= self.rows@.len(),
                r@ == self.rows@.subrange(0, i as int),
            decreases self.rows.len() - i,
        {
            r.push(self.rows[i].clone());
            i += 1;
        }
        assert(r@ =~= self.rows@);
        r
    }

    /// Removes the row of `agent_id`, if there is one.
    pub fn delete_agent(&mut self, agent_id: AgentId)
        requires
            old(self).wf(),
        ensures
            final(self).wf(),
            has_record_of(old(self).rows(), agent_id) ==> final(self).rows() == old(self).rows().remove(
                record_index(old(self).rows(), agent_id),
            ),
            !has_record_of(old(self).rows(), agent_id) ==> final(self).rows() == old(self).rows(),
    {
        if let Some(i) = self.find(agent_id) {
            let ghost before = self.rows@;
            self.rows.remove(i);
            proof {
                assert forall|a: int, b: int| 0 <= a < b < self.rows@.len() implies self.rows@[a].id
                    != self.rows@[b].id by {
                    let a0 = if a < i { a } else { a + 1 };
                    let b0 = if b < i { b } else { b + 1 };
                    assert(before[a0].id != before[b0].id);
                }
            }
        }
    }

    /// The rows whose stored status is that of `status`, in table order.
    pub fn get_agents_by_status(&self, status: &AgentStatus) -> (r: Vec<AgentRecord>)
        ensures
            r@ == self.rows().filter(record_in_status(status_text(*status))),
    {
        let text = status_to_string(status);
        let mut r: Vec<AgentRecord> = Vec::new();
        let mut i: usize = 0;
        while i < self.rows.len()
            invariant
                i <= self.rows@.len(),
                text@ == status_text(*status),
                r@ == self.rows@.subrange(0, i as int).filter(record_in_status(text@)),
            decreases self.rows.len() - i,
        {
            proof {
                assert(self.rows@.subrange(0, i + 1) =~= self.rows@.subrange(0, i as int).push(self.rows@[i as int]));
                self.rows@.subrange(0, i as int).lemma_filter_push(self.rows@[i as int], record_in_status(text@));
            }
            if self.rows[i].status == text {
                r.push(self.rows[i].clone());
            }
            i += 1;
        }
        assert(self.rows@.subrange(0, self.rows@.len() as int) =~= self.rows@);
        r
    }

    /// The rows whose name or description contains `query`, in table order.
    pub fn search_agents(&self, query: &str) -> (r: Vec<AgentRecord>)
        ensures
            r@ == self.rows().filter(record_matches(query@)),
    {
        let mut r: Vec<AgentRecord> = Vec::new();
        let mut i: usize = 0;
        while i < self.rows.len()
            invariant
                i <= self.rows@.len(),
                r@ == self.rows@.subrange(0, i as int).filter(record_matches(query@)),
            decreases self.rows.len() - i,
        {
            proof {
                assert(self.rows@.subrange(0, i + 1) =~= self.rows@.subrange(0, i as int).push(self.rows@[i as int]));
                self.rows@.subrange(0, i as int).lemma_filter_push(self.rows@[i as int], record_matches(query@));
            }
            if occurs(query, self.rows[i].name.as_str()) || occurs(query, self.rows[i].description.as_str()) {
                r.push(self.rows[i].clone());
            }
            i += 1;
        }
        assert(self.rows@.subrange(0, self.rows@.len() as int) =~= self.rows@);
        r
    }

    /// Counts of all rows and of those stored as `Running`, `Ready`, `Paused` and as
    /// an error.
    pub fn get_agent_statistics(&self) -> (r: AgentStatistics)
        ensures
            r.total_agents == self.rows().len(),
            r.running_agents == self.rows().filter(record_in_status("Running"@)).len(),
            r.ready_agents == self.rows().filter(record_in_status("Ready"@)).len(),
            r.paused_agents == self.rows().filter(record_in_status("Paused"@)).len(),
            r.error_agents == self.rows().filter(record_is_error()).len(),
    {
        proof {
            reveal_strlit("Running");
            reveal_strlit("Ready");
            reveal_strlit("Paused");
        }
        let mut st = AgentStatistics {
            total_agents: self.rows.len() as u64,
            running_agents: 0,
            ready_agents: 0,
            paused_agents: 0,
            error_agents: 0,
        };
        let mut i: usize = 0;
        while i < self.rows.len()
            invariant
                i <= self.rows@.len(),
                st.total_agents == self.rows@.len(),
                st.running_agents == self.rows@.subrange(0, i as int).filter(record_in_status("Running"@)).len(),
                st.ready_agents == self.rows@.subrange(0, i as int).filter(record_in_status("Ready"@)).len(),
                st.paused_agents == self.rows@.subrange(0, i as int).filter(record_in_status("Paused"@)).len(),
                st.error_agents == self.rows@.subrange(0, i as int).filter(record_is_error()).len(),
            decreases self.rows.len() - i,
        {
            let ghost pre = self.rows@.subrange(0, i as int);
            let ghost x = self.rows@[i as int];
            proof {
                assert(self.rows@.subrange(0, i + 1) =~= pre.push(x));
                pre.lemma_filter_push(x, record_in_status("Running"@));
                pre.lemma_filter_push(x, record_in_status("Ready"@));
                pre.lemma_filter_push(x, record_in_status("Paused"@));
                pre.lemma_filter_push(x, record_is_error());
                pre.lemma_filter_len(record_in_status("Running"@));
                pre.lemma_filter_len(record_in_status("Ready"@));
                pre.lemma_filter_len(record_in_status("Paused"@));
                pre.lemma_filter_len(record_is_error());
            }
            let text = self.rows[i].status.as_str();
            if same_chars(text, "Running") {
                st.running_agents = st.running_agents + 1;
            }
            if same_chars(text, "Ready") {
                st.ready_agents = st.ready_agents + 1;
            }
            if same_chars(text, "Paused") {
                st.paused_agents = st.paused_agents + 1;
            }
            if starts_with_error(text) {
                st.error_agents = st.error_agents + 1;
            }
            i += 1;
        }
        assert(self.rows@.subrange(0, self.rows@.len() as int) =~= self.rows@);
        st
    }
}

/// Rows stored with an error status.
pub open spec fn record_is_error() -> spec_fn(AgentRecord) -> bool {
    |r: AgentRecord| r.status@.len() >= 7 && r.status@.subrange(0, 7) == "Error: "@
}

} // verus!
