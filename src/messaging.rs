//! Message bus: direct delivery to per-agent inboxes, fan-out to broadcast
//! subscribers, and a bounded history of everything sent.

use vstd::prelude::*;
use vstd::string::*;

use crate::error::AgentSpaceError;
use crate::outside::{new_uuid, unix_now};
use crate::types::{AgentId, UnixSeconds};

verus! {

/// Messages an agent inbox holds before a send to it fails.
pub const INBOX_CAPACITY: usize = 100;

/// Messages a broadcast subscription holds; beyond that the oldest are lost.
pub const BROADCAST_CAPACITY: usize = 1000;

/// What a message is about.
#[derive(Debug)]
pub enum MessageType {
    AgentStarted,
    AgentStopped,
    AgentPaused,
    AgentResumed,
    AgentError,
    ActionRequested,
    ActionStarted,
    ActionCompleted,
    ActionFailed,
    DataUpdated,
    DataRequested,
    DataShared,
    TriggerFired,
    TriggerCreated,
    TriggerDeleted,
    TaskDelegation,
    ResourceRequest,
    ResourceRelease,
    StatusUpdate,
    Custom(String),
}

impl Clone for MessageType {
    fn clone(&self) -> (r: Self)
        ensures
            r == *self,
    {
        match self {
            MessageType::AgentStarted => MessageType::AgentStarted,
            MessageType::AgentStopped => MessageType::AgentStopped,
            MessageType::AgentPaused => MessageType::AgentPaused,
            MessageType::AgentResumed => MessageType::AgentResumed,
            MessageType::AgentError => MessageType::AgentError,
            MessageType::ActionRequested => MessageType::ActionRequested,
            MessageType::ActionStarted => MessageType::ActionStarted,
            MessageType::ActionCompleted => MessageType::ActionCompleted,
            MessageType::ActionFailed => MessageType::ActionFailed,
            MessageType::DataUpdated => MessageType::DataUpdated,
            MessageType::DataRequested => MessageType::DataRequested,
            MessageType::DataShared => MessageType::DataShared,
            MessageType::TriggerFired => MessageType::TriggerFired,
            MessageType::TriggerCreated => MessageType::TriggerCreated,
            MessageType::TriggerDeleted => MessageType::TriggerDeleted,
            MessageType::TaskDelegation => MessageType::TaskDelegation,
            MessageType::ResourceRequest => MessageType::ResourceRequest,
            MessageType::ResourceRelease => MessageType::ResourceRelease,
            MessageType::StatusUpdate => MessageType::StatusUpdate,
            MessageType::Custom(n) => MessageType::Custom(n.clone()),
        }
    }
}

/// The human-readable name of a message type.
pub open spec fn type_label(t: MessageType) -> Seq<char> {
    match t {
        MessageType::AgentStarted => "Agent Started"@,
        MessageType::AgentStopped => "Agent Stopped"@,
        MessageType::AgentPaused => "Agent Paused"@,
        MessageType::AgentResumed => "Agent Resumed"@,
        MessageType::AgentError => "Agent Error"@,
        MessageType::ActionRequested => "Action Requested"@,
        MessageType::ActionStarted => "Action Started"@,
        MessageType::ActionCompleted => "Action Completed"@,
        MessageType::ActionFailed => "Action Failed"@,
        MessageType::DataUpdated => "Data Updated"@,
        MessageType::DataRequested => "Data Requested"@,
        MessageType::DataShared => "Data Shared"@,
        MessageType::TriggerFired => "Trigger Fired"@,
        MessageType::TriggerCreated => "Trigger Created"@,
        MessageType::TriggerDeleted => "Trigger Deleted"@,
        MessageType::TaskDelegation => "Task Delegation"@,
        MessageType::ResourceRequest => "Resource Request"@,
        MessageType::ResourceRelease => "Resource Release"@,
        MessageType::StatusUpdate => "Status Update"@,
        MessageType::Custom(n) => "Custom: "@ + n@,
    }
}

impl MessageType {
    /// The human-readable name, `"Custom: <name>"` for a custom type.
    pub fn to_string(&self) -> (r: String)
        ensures
            r@ == type_label(*self),
    {
        proof {
            reveal_strlit("Agent Started");
            reveal_strlit("Agent Stopped");
            reveal_strlit("Agent Paused");
            reveal_strlit("Agent Resumed");
            reveal_strlit("Agent Error");
            reveal_strlit("Action Requested");
            reveal_strlit("Action Started");
            reveal_strlit("Action Completed");
            reveal_strlit("Action Failed");
            reveal_strlit("Data Updated");
            reveal_strlit("Data Requested");
            reveal_strlit("Data Shared");
            reveal_strlit("Trigger Fired");
            reveal_strlit("Trigger Created");
            reveal_strlit("Trigger Deleted");
            reveal_strlit("Task Delegation");
            reveal_strlit("Resource Request");
            reveal_strlit("Resource Release");
            reveal_strlit("Status Update");
            reveal_strlit("Custom: ");
        }
        match self {
            MessageType::AgentStarted => String::from_str("Agent Started"),
            MessageType::AgentStopped => String::from_str("Agent Stopped"),
            MessageType::AgentPaused => String::from_str("Agent Paused"),
            MessageType::AgentResumed => String::from_str("Agent Resumed"),
            MessageType::AgentError => String::from_str("Agent Error"),
            MessageType::ActionRequested => String::from_str("Action Requested"),
            MessageType::ActionStarted => String::from_str("Action Started"),
            MessageType::ActionCompleted => String::from_str("Action Completed"),
            MessageType::ActionFailed => String::from_str("Action Failed"),
            MessageType::DataUpdated => String::from_str("Data Updated"),
            MessageType::DataRequested => String::from_str("Data Requested"),
            MessageType::DataShared => String::from_str("Data Shared"),
            MessageType::TriggerFired => String::from_str("Trigger Fired"),
            MessageType::TriggerCreated => String::from_str("Trigger Created"),
            MessageType::TriggerDeleted => String::from_str("Trigger Deleted"),
            MessageType::TaskDelegation => String::from_str("Task Delegation"),
            MessageType::ResourceRequest => String::from_str("Resource Request"),
            MessageType::ResourceRelease => String::from_str("Resource Release"),
            MessageType::StatusUpdate => String::from_str("Status Update"),
            MessageType::Custom(n) => String::from_str("Custom: ").concat(n.as_str()),
        }
    }
}

/// A message between agents; without a target it is a broadcast.
/// The payload is a JSON text.
#[derive(Debug)]
pub struct InterAgentMessage {
    pub id: u128,
    pub from_agent: AgentId,
    pub to_agent: Option<AgentId>,
    pub message_type: MessageType,
    pub payload: String,
    pub timestamp: UnixSeconds,
}

impl Clone for InterAgentMessage {
    fn clone(&self) -> (r: Self)
        ensures
            r == *self,
    {
        InterAgentMessage {
            id: self.id,
            from_agent: self.from_agent,
            to_agent: self.to_agent,
            message_type: self.message_type.clone(),
            payload: self.payload.clone(),
            timestamp: self.timestamp,
        }
    }
}

impl InterAgentMessage {
    /// A message with a fresh id, stamped with the current time.
    pub fn new(
        from_agent: AgentId,
        to_agent: Option<AgentId>,
        message_type: MessageType,
        payload: String,
    ) -> (r: InterAgentMessage)
        ensures
            r.from_agent == from_agent,
            r.to_agent == to_agent,
            r.message_type == message_type,
            r.payload == payload,
    {
        InterAgentMessage {
            id: new_uuid(),
            from_agent,
            to_agent,
            message_type,
            payload,
            timestamp: unix_now(),
        }
    }

    /// A message to every subscriber.
    pub fn broadcast(from_agent: AgentId, message_type: MessageType, payload: String) -> (r:
        InterAgentMessage)
        ensures
            r.from_agent == from_agent,
            r.to_agent.is_none(),
            r.message_type == message_type,
            r.payload == payload,
    {
        Self::new(from_agent, None, message_type, payload)
    }

    /// A message to one agent.
    pub fn direct(
        from_agent: AgentId,
        to_agent: AgentId,
        message_type: MessageType,
        payload: String,
    ) -> (r: InterAgentMessage)
        ensures
            r.from_agent == from_agent,
            r.to_agent == Some(to_agent),
            r.message_type == message_type,
            r.payload == payload,
    {
        Self::new(from_agent, Some(to_agent), message_type, payload)
    }

    pub fn is_broadcast(&self) -> (r: bool)
        ensures
            r <==> self.to_agent.is_none(),
    {
        self.to_agent.is_none()
    }

    pub fn is_direct(&self) -> (r: bool)
        ensures
            r <==> self.to_agent.is_some(),
    {
        self.to_agent.is_some()
    }
}

/// The inbound queue of one registered agent.
#[derive(Debug)]
pub struct Inbox {
    pub agent_id: AgentId,
    pub messages: Vec<InterAgentMessage>,
    /// The receiving side has gone away: sends to it fail.
    pub closed: bool,
}

/// `s` with `m` appended, then cut to its last `max` entries.
pub open spec fn bounded_push<T>(s: Seq<T>, m: T, max: nat) -> Seq<T> {
    let t = s.push(m);
    if t.len() > max {
        t.subrange(t.len() - max, t.len() as int)
    } else {
        t
    }
}

/// The last `n` entries of `s`, or all of them where there are fewer.
pub open spec fn last_n<T>(s: Seq<T>, n: nat) -> Seq<T> {
    if s.len() > n {
        s.subrange(s.len() - n, s.len() as int)
    } else {
        s
    }
}

/// `ms` appended one after the other to a history bounded by `max`.
pub open spec fn push_all<T>(h: Seq<T>, ms: Seq<T>, max: nat) -> Seq<T>
    decreases ms.len(),
{
    if ms.len() == 0 {
        h
    } else {
        bounded_push(push_all(h, ms.drop_last(), max), ms.last(), max)
    }
}

/// History bound: appending messages one by one to a history of at most `max`
/// entries leaves exactly the last `max` of all of them (all, where there are
/// fewer), oldest first.
pub proof fn lemma_history_bound<T>(h: Seq<T>, ms: Seq<T>, max: nat)
    requires
        h.len() <= max,
    ensures
        push_all(h, ms, max) == last_n(h + ms, max),
        push_all(h, ms, max).len() == if h.len() + ms.len() > max {
            max as int
        } else {
            (h.len() + ms.len()) as int
        },
    decreases ms.len(),
{
    if ms.len() == 0 {
        assert(h + ms =~= h);
    } else {
        lemma_history_bound(h, ms.drop_last(), max);
        let all = h + ms;
        let prev = h + ms.drop_last();
        assert(all =~= prev.push(ms.last()));
        let p = last_n(prev, max);
        let t = p.push(ms.last());
        if t.len() > max {
            assert(t.subrange(t.len() - max, t.len() as int) =~= all.subrange(
                all.len() - max,
                all.len() as int,
            ));
        } else {
            assert(t =~= all);
        }
    }
}

/// Messages with id `id`.
pub open spec fn with_id(id: u128) -> spec_fn(InterAgentMessage) -> bool {
    |x: InterAgentMessage| x.id == id
}

/// Whether `m` concerns agent `a`, as sender or as target.
pub open spec fn concerns(m: InterAgentMessage, a: AgentId) -> bool {
    m.from_agent == a || m.to_agent == Some(a)
}

/// Messages that concern agent `a`.
pub open spec fn msg_concerns(a: AgentId) -> spec_fn(InterAgentMessage) -> bool {
    |m: InterAgentMessage| concerns(m, a)
}

/// The last `limit` entries of `s`, all of them without a limit.
pub open spec fn recent(s: Seq<InterAgentMessage>, limit: Option<usize>) -> Seq<InterAgentMessage> {
    match limit {
        Some(n) => last_n(s, n as nat),
        None => s,
    }
}

/// No two inboxes belong to the same agent.
pub open spec fn unique_inbox_ids(s: Seq<Inbox>) -> bool {
    forall|i: int, j: int| 0 <= i < j < s.len() ==> s[i].agent_id != s[j].agent_id
}

/// Whether `s` holds an inbox of agent `a`.
pub open spec fn has_inbox(s: Seq<Inbox>, a: AgentId) -> bool {
    exists|i: int| 0 <= i < s.len() && s[i].agent_id == a
}

/// Position of the inbox of agent `a` in `s`.
pub open spec fn inbox_index(s: Seq<Inbox>, a: AgentId) -> int {
    choose|i: int| 0 <= i < s.len() && s[i].agent_id == a
}

/// What an inbox holds: its queued messages, oldest first, and whether it is closed.
pub open spec fn inbox_state(b: Inbox) -> (Seq<InterAgentMessage>, bool) {
    (b.messages@, b.closed)
}

/// The inboxes of `s` by agent.
pub open spec fn inbox_map(s: Seq<Inbox>) -> Map<AgentId, (Seq<InterAgentMessage>, bool)> {
    Map::new(|a: AgentId| has_inbox(s, a), |a: AgentId| inbox_state(s[inbox_index(s, a)]))
}

proof fn lemma_index_unique(s: Seq<Inbox>, k: int)
    requires
        unique_inbox_ids(s),
        0 <= k < s.len(),
    ensures
        has_inbox(s, s[k].agent_id),
        inbox_index(s, s[k].agent_id) == k,
{
    let a = s[k].agent_id;
    assert(has_inbox(s, a));
    let c = inbox_index(s, a);
    if c != k {
        if c < k {
            assert(s[c].agent_id != s[k].agent_id);
        } else {
            assert(s[k].agent_id != s[c].agent_id);
        }
    }
}

proof fn lemma_inbox_update(s: Seq<Inbox>, i: int, x: Inbox)
    requires
        unique_inbox_ids(s),
        0 <= i < s.len(),
        x.agent_id == s[i].agent_id,
    ensures
        unique_inbox_ids(s.update(i, x)),
        inbox_map(s.update(i, x)) == inbox_map(s).insert(x.agent_id, inbox_state(x)),
{
    let t = s.update(i, x);
    assert forall|p: int, q: int| 0 <= p < q < t.len() implies t[p].agent_id != t[q].agent_id by {
        assert(s[p].agent_id != s[q].agent_id);
    }
    assert forall|a: AgentId| #[trigger] has_inbox(t, a) == has_inbox(s, a) by {
        if has_inbox(s, a) {
            let k = inbox_index(s, a);
            assert(t[k].agent_id == a);
        }
        if has_inbox(t, a) {
            let k = inbox_index(t, a);
            assert(s[k].agent_id == a);
        }
    }
    assert forall|a: AgentId| has_inbox(t, a) implies #[trigger] inbox_index(t, a) == inbox_index(s, a) by {
        let k = inbox_index(t, a);
        assert(s[k].agent_id == a);
        lemma_index_unique(s, k);
    }
    lemma_index_unique(t, i);
    assert(inbox_map(t) =~= inbox_map(s).insert(x.agent_id, inbox_state(x)));
}

proof fn lemma_inbox_push(s: Seq<Inbox>, x: Inbox)
    requires
        unique_inbox_ids(s),
        !has_inbox(s, x.agent_id),
    ensures
        unique_inbox_ids(s.push(x)),
        inbox_map(s.push(x)) == inbox_map(s).insert(x.agent_id, inbox_state(x)),
{
    let t = s.push(x);
    let n = s.len() as int;
    assert forall|p: int, q: int| 0 <= p < q < t.len() implies t[p].agent_id != t[q].agent_id by {
        if q == n {
            assert(s[p].agent_id != x.agent_id);
        } else {
            assert(s[p].agent_id != s[q].agent_id);
        }
    }
    assert forall|a: AgentId| #[trigger] has_inbox(t, a) == (has_inbox(s, a) || a == x.agent_id) by {
        if has_inbox(s, a) {
            let k = inbox_index(s, a);
            assert(t[k].agent_id == a);
        }
        if a == x.agent_id {
            assert(t[n].agent_id == a);
        }
        if has_inbox(t, a) && a != x.agent_id {
            let k = inbox_index(t, a);
            assert(s[k].agent_id == a);
        }
    }
    assert forall|a: AgentId| has_inbox(s, a) implies #[trigger] inbox_index(t, a) == inbox_index(s, a) by {
        let k = inbox_index(s, a);
        assert(t[k].agent_id == a);
        lemma_index_unique(t, k);
    }
    lemma_index_unique(t, n);
    assert(inbox_map(t) =~= inbox_map(s).insert(x.agent_id, inbox_state(x)));
}

proof fn lemma_inbox_remove(s: Seq<Inbox>, i: int)
    requires
        unique_inbox_ids(s),
        0 <= i < s.len(),
    ensures
        unique_inbox_ids(s.remove(i)),
        inbox_map(s.remove(i)) == inbox_map(s).remove(s[i].agent_id),
{
    let t = s.remove(i);
    let gone = s[i].agent_id;
    assert forall|p: int, q: int| 0 <= p < q < t.len() implies t[p].agent_id != t[q].agent_id by {
        let p0 = if p < i { p } else { p + 1 };
        let q0 = if q < i { q } else { q + 1 };
        assert(s[p0].agent_id != s[q0].agent_id);
    }
    assert forall|a: AgentId| #[trigger] has_inbox(t, a) == (has_inbox(s, a) && a != gone) by {
        if has_inbox(s, a) && a != gone {
            let k = inbox_index(s, a);
            assert(k != i);
            let k2 = if k < i { k } else { k - 1 };
            assert(t[k2].agent_id == a);
        }
        if has_inbox(t, a) {
            let k = inbox_index(t, a);
            let k0 = if k < i { k } else { k + 1 };
            assert(s[k0].agent_id == a);
            if a == gone {
                lemma_index_unique(s, k0);
                lemma_index_unique(s, i);
            }
        }
    }
    assert forall|a: AgentId| has_inbox(t, a) implies #[trigger] t[inbox_index(t, a)] == s[inbox_index(s, a)] by {
        let k = inbox_index(t, a);
        let k0 = if k < i { k } else { k + 1 };
        assert(s[k0].agent_id == a);
        lemma_index_unique(s, k0);
    }
    assert(inbox_map(t) =~= inbox_map(s).remove(gone));
}

/// Counts of what went through a bus: messages kept, agents registered, and the kept
/// messages by type name and by sender, each key once, in order of first appearance.
#[derive(Debug)]
pub struct MessageStatistics {
    pub total_messages: usize,
    pub registered_agents: usize,
    pub message_types: Vec<(String, usize)>,
    pub messages_per_agent: Vec<(AgentId, usize)>,
}

/// Messages sent by `a`.
pub open spec fn sent_by(a: AgentId) -> spec_fn(InterAgentMessage) -> bool {
    |m: InterAgentMessage| m.from_agent == a
}

/// Messages whose type is named `l`.
pub open spec fn labelled(l: Seq<char>) -> spec_fn(InterAgentMessage) -> bool {
    |m: InterAgentMessage| type_label(m.message_type) == l
}

/// `t` counts the messages of `h` by sender: each sender of `h` once, with its count.
pub open spec fn is_sender_tally(t: Seq<(AgentId, usize)>, h: Seq<InterAgentMessage>) -> bool {
    &&& forall|i: int, j: int| 0 <= i < j < t.len() ==> t[i].0 != t[j].0
    &&& forall|i: int| 0 <= i < t.len() ==> #[trigger] t[i].1 == h.filter(sent_by(t[i].0)).len()
    &&& forall|k: int| 0 <= k < h.len() ==> has_sender_key(t, #[trigger] h[k].from_agent)
}

/// Whether the tally `t` has an entry for sender `a`.
pub open spec fn has_sender_key(t: Seq<(AgentId, usize)>, a: AgentId) -> bool {
    exists|i: int| 0 <= i < t.len() && t[i].0 == a
}

/// Whether the tally `t` has an entry for the type named `l`.
pub open spec fn has_type_key(t: Seq<(String, usize)>, l: Seq<char>) -> bool {
    exists|i: int| 0 <= i < t.len() && t[i].0@ == l
}

/// `t` counts the messages of `h` by type name: each name of `h` once, with its count.
pub open spec fn is_type_tally(t: Seq<(String, usize)>, h: Seq<InterAgentMessage>) -> bool {
    &&& forall|i: int, j: int| 0 <= i < j < t.len() ==> t[i].0@ != t[j].0@
    &&& forall|i: int| 0 <= i < t.len() ==> #[trigger] t[i].1 == h.filter(labelled(t[i].0@)).len()
    &&& forall|k: int| 0 <= k < h.len() ==> has_type_key(t, type_label(#[trigger] h[k].message_type))
}

proof fn lemma_filter_none(s: Seq<InterAgentMessage>, p: spec_fn(InterAgentMessage) -> bool)
    requires
        forall|k: int| 0 <= k < s.len() ==> !p(#[trigger] s[k]),
    ensures
        s.filter(p).len() == 0,
{
    if s.filter(p).len() > 0 {
        s.lemma_filter_pred(p, 0);
        let x = s.filter(p)[0];
        assert(s.filter(p).contains(x));
        s.lemma_filter_contains_rev(p, x);
        let k = choose|k: int| 0 <= k < s.len() && s[k] == x;
        assert(!p(s[k]));
    }
}

fn tally_senders(h: &Vec<InterAgentMessage>) -> (r: Vec<(AgentId, usize)>)
    ensures
        is_sender_tally(r@, h@),
{
    let mut t: Vec<(AgentId, usize)> = Vec::new();
    let mut i: usize = 0;
    while i < h.len()
        invariant
            i <= h@.len(),
            is_sender_tally(t@, h@.subrange(0, i as int)),
        decreases h.len() - i,
    {
        let ghost pre = h@.subrange(0, i as int);
        let ghost m = h@[i as int];
        let ghost old_t = t@;
        proof {
            assert(h@.subrange(0, i + 1) =~= pre.push(m));
        }
        let a = h[i].from_agent;
        let mut j: usize = 0;
        let mut found: Option<usize> = None;
        while j < t.len() && found.is_none()
            invariant
                t@ == old_t,
                j <= t@.len(),
                found matches Some(f) ==> f < t@.len() && t@[f as int].0 == a,
                found is None ==> forall|k: int| 0 <= k < j ==> t@[k].0 != a,
            decreases t.len() - j,
        {
            if t[j].0 == a {
                found = Some(j);
            }
            j += 1;
        }
        match found {
            Some(f) => {
                let (k, c) = t[f];
                proof {
                    pre.lemma_filter_len(sent_by(a));
                }
                t.set(f, (k, c + 1));
            },
            None => {
                proof {
                    assert forall|k: int| 0 <= k < pre.len() implies !sent_by(a)(#[trigger] pre[k]) by {
                        assert(has_sender_key(old_t, pre[k].from_agent));
                        let w = choose|w: int| 0 <= w < old_t.len() && old_t[w].0 == pre[k].from_agent;
                        assert(old_t[w].0 != a);
                    }
                    lemma_filter_none(pre, sent_by(a));
                }
                t.push((a, 1));
            },
        }
        proof {
            let s2 = pre.push(m);
            assert forall|x: int, y: int| 0 <= x < y < t@.len() implies t@[x].0 != t@[y].0 by {
                if y < old_t.len() {
                    assert(old_t[x].0 != old_t[y].0);
                } else {
                    assert(old_t[x].0 != a);
                }
            }
            assert forall|e: int| 0 <= e < t@.len() implies #[trigger] t@[e].1 == s2.filter(sent_by(t@[e].0)).len() by {
                pre.lemma_filter_push(m, sent_by(t@[e].0));
            }
            assert forall|k: int| 0 <= k < s2.len() implies has_sender_key(t@, #[trigger] s2[k].from_agent) by {
                if k < pre.len() {
                    assert(pre[k] == s2[k]);
                    assert(has_sender_key(old_t, pre[k].from_agent));
                    let w = choose|w: int| 0 <= w < old_t.len() && old_t[w].0 == pre[k].from_agent;
                    assert(t@[w].0 == s2[k].from_agent);
                } else {
                    match found {
                        Some(f) => {
                            assert(t@[f as int].0 == s2[k].from_agent);
                        },
                        None => {
                            assert(t@[old_t.len() as int].0 == s2[k].from_agent);
                        },
                    }
                }
            }
        }
        i += 1;
    }
    assert(h@.subrange(0, h@.len() as int) =~= h@);
    t
}

fn tally_types(h: &Vec<InterAgentMessage>) -> (r: Vec<(String, usize)>)
    ensures
        is_type_tally(r@, h@),
{
    let mut t: Vec<(String, usize)> = Vec::new();
    let mut i: usize = 0;
    while i < h.len()
        invariant
            i <= h@.len(),
            is_type_tally(t@, h@.subrange(0, i as int)),
        decreases h.len() - i,
    {
        let ghost pre = h@.subrange(0, i as int);
        let ghost m = h@[i as int];
        let ghost old_t = t@;
        proof {
            assert(h@.subrange(0, i + 1) =~= pre.push(m));
        }
        let a = h[i].message_type.to_string();
        let mut j: usize = 0;
        let mut found: Option<usize> = None;
        while j < t.len() && found.is_none()
            invariant
                t@ == old_t,
                j <= t@.len(),
                found matches Some(f) ==> f < t@.len() && t@[f as int].0@ == a@,
                found is None ==> forall|k: int| 0 <= k < j ==> t@[k].0@ != a@,
            decreases t.len() - j,
        {
            if t[j].0 == a {
                found = Some(j);
            }
            j += 1;
        }
        match found {
            Some(f) => {
                let k = t[f].0.clone();
                let c = t[f].1;
                proof {
                    pre.lemma_filter_len(labelled(a@));
                }
                t.set(f, (k, c + 1));
            },
            None => {
                proof {
                    assert forall|k: int| 0 <= k < pre.len() implies !labelled(a@)(#[trigger] pre[k]) by {
                        assert(has_type_key(old_t, type_label(pre[k].message_type)));
                        let w = choose|w: int| 0 <= w < old_t.len() && old_t[w].0@ == type_label(pre[k].message_type);
                        assert(old_t[w].0@ != a@);
                    }
                    lemma_filter_none(pre, labelled(a@));
                }
                t.push((a, 1));
            },
        }
        proof {
            let s2 = pre.push(m);
            assert forall|x: int, y: int| 0 <= x < y < t@.len() implies t@[x].0@ != t@[y].0@ by {
                if y < old_t.len() {
                    assert(old_t[x].0@ != old_t[y].0@);
                } else {
                    assert(old_t[x].0@ != a@);
                }
            }
            assert forall|e: int| 0 <= e < t@.len() implies #[trigger] t@[e].1 == s2.filter(labelled(t@[e].0@)).len() by {
                pre.lemma_filter_push(m, labelled(t@[e].0@));
            }
            assert forall|k: int| 0 <= k < s2.len() implies has_type_key(t@, type_label(#[trigger] s2[k].message_type)) by {
                if k < pre.len() {
                    assert(pre[k] == s2[k]);
                    assert(has_type_key(old_t, type_label(pre[k].message_type)));
                    let w = choose|w: int| 0 <= w < old_t.len() && old_t[w].0@ == type_label(pre[k].message_type);
                    assert(t@[w].0@ == type_label(s2[k].message_type));
                } else {
                    match found {
                        Some(f) => {
                            assert(t@[f as int].0@ == type_label(s2[k].message_type));
                        },
                        None => {
                            assert(t@[old_t.len() as int].0@ == type_label(s2[k].message_type));
                        },
                    }
                }
            }
        }
        i += 1;
    }
    assert(h@.subrange(0, h@.len() as int) =~= h@);
    t
}

/// Routes messages between agents and to broadcast subscribers.
pub struct MessageBus {
    inboxes: Vec<Inbox>,
    subscribers: Vec<Vec<InterAgentMessage>>,
    message_history: Vec<InterAgentMessage>,
    max_history_size: usize,
    is_running: bool,
}

impl MessageBus {
    /// Each registered agent's inbox.
    pub closed spec fn inboxes(&self) -> Map<AgentId, (Seq<InterAgentMessage>, bool)> {
        inbox_map(self.inboxes@)
    }

    /// The queue of each broadcast subscription, by subscription number.
    pub closed spec fn subscriptions(&self) -> Seq<Seq<InterAgentMessage>> {
        Seq::new(self.subscribers@.len(), |i: int| self.subscribers@[i]@)
    }

    /// Every message sent and kept, oldest first.
    pub closed spec fn history(&self) -> Seq<InterAgentMessage> {
        self.message_history@
    }

    pub closed spec fn max_history(&self) -> nat {
        self.max_history_size as nat
    }

    pub closed spec fn running(&self) -> bool {
        self.is_running
    }

    pub closed spec fn wf(&self) -> bool {
        &&& unique_inbox_ids(self.inboxes@)
        &&& self.message_history@.len() <= self.max_history_size
    }

    /// A stopped bus with no agents, no subscribers and an empty history that keeps
    /// at most `max_history_size` messages.
    pub fn new(max_history_size: usize) -> (r: MessageBus)
        ensures
            r.wf(),
            !r.running(),
            r.inboxes() == Map::<AgentId, (Seq<InterAgentMessage>, bool)>::empty(),
            r.subscriptions().len() == 0,
            r.history().len() == 0,
            r.max_history() == max_history_size,
    {
        let r = MessageBus {
            inboxes: Vec::new(),
            subscribers: Vec::new(),
            message_history: Vec::new(),
            max_history_size,
            is_running: false,
        };
        assert(r.inboxes() =~= Map::<AgentId, (Seq<InterAgentMessage>, bool)>::empty());
        r
    }

    pub fn start(&mut self)
        requires
            old(self).wf(),
        ensures
            final(self).wf(),
            final(self).running(),
            final(self).inboxes() == old(self).inboxes(),
            final(self).subscriptions() == old(self).subscriptions(),
            final(self).history() == old(self).history(),
            final(self).max_history() == old(self).max_history(),
    {
        self.is_running = true;
    }

    /// Stops the bus and drops every agent inbox.
    pub fn stop(&mut self)
        requires
            old(self).wf(),
        ensures
            final(self).wf(),
            !final(self).running(),
            final(self).inboxes() == Map::<AgentId, (Seq<InterAgentMessage>, bool)>::empty(),
            final(self).subscriptions() == old(self).subscriptions(),
            final(self).history() == old(self).history(),
            final(self).max_history() == old(self).max_history(),
    {
        self.is_running = false;
        self.inboxes = Vec::new();
        assert(self.inboxes() =~= Map::<AgentId, (Seq<InterAgentMessage>, bool)>::empty());
    }

    pub fn is_running(&self) -> (r: bool)
        ensures
            r == self.running(),
    {
        self.is_running
    }

    fn find_inbox(&self, agent_id: AgentId) -> (r: Option<usize>)
        requires
            self.wf(),
        ensures
            r matches Some(i) ==> i < self.inboxes@.len() && self.inboxes@[i as int].agent_id
                == agent_id && inbox_index(self.inboxes@, agent_id) == i,
            r is None ==> !has_inbox(self.inboxes@, agent_id),
            r is None <==> !self.inboxes().contains_key(agent_id),
    {
        let mut i: usize = 0;
        while i < self.inboxes.len()
            invariant
                self.wf(),
                i <= self.inboxes@.len(),
                forall|j: int| 0 <= j < i ==> self.inboxes@[j].agent_id != agent_id,
            decreases self.inboxes.len() - i,
        {
            if self.inboxes[i].agent_id == agent_id {
                proof {
                    lemma_index_unique(self.inboxes@, i as int);
                }
                return Some(i);
            }
            i += 1;
        }
        None
    }

    /// Gives `agent_id` a new, empty, open inbox, in place of any earlier one.
    /// Fails while the bus is stopped.
    pub fn register_agent(&mut self, agent_id: AgentId) -> (r: Result<(), AgentSpaceError>)
        requires
            old(self).wf(),
        ensures
            final(self).wf(),
            final(self).running() == old(self).running(),
            final(self).history() == old(self).history(),
            final(self).max_history() == old(self).max_history(),
            final(self).subscriptions() == old(self).subscriptions(),
            old(self).running() <==> r is Ok,
            r is Err ==> r == Err::<(), AgentSpaceError>(AgentSpaceError::NotRunning),
            r is Err ==> final(self).inboxes() == old(self).inboxes(),
            r is Ok ==> final(self).inboxes() == old(self).inboxes().insert(agent_id, (Seq::empty(), false)),
    {
        if !self.is_running {
            return Err(AgentSpaceError::NotRunning);
        }
        let fresh = Inbox { agent_id, messages: Vec::new(), closed: false };
        assert(inbox_state(fresh) == (Seq::<InterAgentMessage>::empty(), false));
        match self.find_inbox(agent_id) {
            Some(i) => {
                proof {
                    lemma_inbox_update(self.inboxes@, i as int, fresh);
                }
                self.inboxes.set(i, fresh);
            },
            None => {
                proof {
                    lemma_inbox_push(self.inboxes@, fresh);
                }
                self.inboxes.push(fresh);
            },
        }
        Ok(())
    }

    /// Drops the inbox of `agent_id`, if there is one.
    pub fn unregister_agent(&mut self, agent_id: AgentId)
        requires
            old(self).wf(),
        ensures
            final(self).wf(),
            final(self).running() == old(self).running(),
            final(self).history() == old(self).history(),
            final(self).max_history() == old(self).max_history(),
            final(self).subscriptions() == old(self).subscriptions(),
            final(self).inboxes() == old(self).inboxes().remove(agent_id),
    {
        match self.find_inbox(agent_id) {
            Some(i) => {
                proof {
                    lemma_inbox_remove(self.inboxes@, i as int);
                }
                self.inboxes.remove(i);
            },
            None => {
                assert(self.inboxes() =~= self.inboxes().remove(agent_id));
            },
        }
    }

    /// Marks the inbox of `agent_id` as closed: its receiver has gone away.
    pub fn close_inbox(&mut self, agent_id: AgentId)
        requires
            old(self).wf(),
        ensures
            final(self).wf(),
            final(self).running() == old(self).running(),
            final(self).history() == old(self).history(),
            final(self).max_history() == old(self).max_history(),
            final(self).subscriptions() == old(self).subscriptions(),
            final(self).inboxes() == if old(self).inboxes().contains_key(agent_id) {
                old(self).inboxes().insert(agent_id, (old(self).inboxes()[agent_id].0, true))
            } else {
                old(self).inboxes()
            },
    {
        if let Some(i) = self.find_inbox(agent_id) {
            let mut inbox = self.inboxes.remove(i);
            inbox.closed = true;
            proof {
                lemma_inbox_update(old(self).inboxes@, i as int, inbox);
                assert(old(self).inboxes@.remove(i as int).insert(i as int, inbox) =~= old(self).inboxes@.update(i as int, inbox));
            }
            self.inboxes.insert(i, inbox);
        }
    }

    /// Takes the oldest message from the inbox of `agent_id`.
    pub fn receive(&mut self, agent_id: AgentId) -> (r: Option<InterAgentMessage>)
        requires
            old(self).wf(),
        ensures
            final(self).wf(),
            final(self).running() == old(self).running(),
            final(self).history() == old(self).history(),
            final(self).max_history() == old(self).max_history(),
            final(self).subscriptions() == old(self).subscriptions(),
            old(self).inboxes().contains_key(agent_id) && old(self).inboxes()[agent_id].0.len() > 0 ==> r == Some(old(self).inboxes()[agent_id].0[0])
                && final(self).inboxes() == old(self).inboxes().insert(agent_id, (old(self).inboxes()[agent_id].0.drop_first(), old(self).inboxes()[agent_id].1)),
            !(old(self).inboxes().contains_key(agent_id) && old(self).inboxes()[agent_id].0.len() > 0) ==> r is None && final(self).inboxes() == old(self).inboxes(),
    {
        if let Some(i) = self.find_inbox(agent_id) {
            if self.inboxes[i].messages.len() > 0 {
                let mut inbox = self.inboxes.remove(i);
                let m = inbox.messages.remove(0);
                proof {
                    assert(inbox.messages@ =~= old(self).inboxes@[i as int].messages@.drop_first());
                    lemma_inbox_update(old(self).inboxes@, i as int, inbox);
                    assert(old(self).inboxes@.remove(i as int).insert(i as int, inbox) =~= old(self).inboxes@.update(i as int, inbox));
                }
                self.inboxes.insert(i, inbox);
                return Some(m);
            }
        }
        None
    }

    /// Opens a broadcast subscription that receives every broadcast from now on.
    /// Returns its number.
    pub fn subscribe_broadcast(&mut self) -> (r: usize)
        requires
            old(self).wf(),
        ensures
            final(self).wf(),
            final(self).running() == old(self).running(),
            final(self).history() == old(self).history(),
            final(self).max_history() == old(self).max_history(),
            final(self).inboxes() == old(self).inboxes(),
            r == old(self).subscriptions().len(),
            final(self).subscriptions() == old(self).subscriptions().push(Seq::empty()),
    {
        let r = self.subscribers.len();
        self.subscribers.push(Vec::new());
        assert(self.subscriptions() =~= old(self).subscriptions().push(Seq::empty()));
        r
    }

    /// Takes the oldest message of broadcast subscription `subscription`.
    pub fn receive_broadcast(&mut self, subscription: usize) -> (r: Option<InterAgentMessage>)
        requires
            old(self).wf(),
        ensures
            final(self).wf(),
            final(self).running() == old(self).running(),
            final(self).history() == old(self).history(),
            final(self).max_history() == old(self).max_history(),
            final(self).inboxes() == old(self).inboxes(),
            subscription < old(self).subscriptions().len() && old(self).subscriptions()[subscription as int].len() > 0 ==> r == Some(old(self).subscriptions()[subscription as int][0])
                && final(self).subscriptions() == old(self).subscriptions().update(subscription as int, old(self).subscriptions()[subscription as int].drop_first()),
            !(subscription < old(self).subscriptions().len() && old(self).subscriptions()[subscription as int].len() > 0) ==> r is None && final(self).subscriptions() == old(self).subscriptions(),
    {
        if subscription < self.subscribers.len() && self.subscribers[subscription].len() > 0 {
            let mut q = self.subscribers.remove(subscription);
            let m = q.remove(0);
            self.subscribers.insert(subscription, q);
            assert(self.subscriptions() =~= old(self).subscriptions().update(subscription as int, old(self).subscriptions()[subscription as int].drop_first()));
            Some(m)
        } else {
            None
        }
    }

    fn add_to_history(&mut self, message: InterAgentMessage)
        requires
            old(self).wf(),
        ensures
            final(self).wf(),
            final(self).running() == old(self).running(),
            final(self).max_history() == old(self).max_history(),
            final(self).inboxes() == old(self).inboxes(),
            final(self).subscriptions() == old(self).subscriptions(),
            final(self).history() == bounded_push(old(self).history(), message, old(self).max_history()),
    {
        self.message_history.push(message);
        if self.message_history.len() > self.max_history_size {
            let excess = self.message_history.len() - self.max_history_size;
            let kept = self.message_history.split_off(excess);
            self.message_history = kept;
        }
    }

    fn broadcast_message(&mut self, message: &InterAgentMessage)
        requires
            old(self).wf(),
        ensures
            final(self).wf(),
            final(self).running() == old(self).running(),
            final(self).max_history() == old(self).max_history(),
            final(self).inboxes() == old(self).inboxes(),
            final(self).history() == old(self).history(),
            final(self).subscriptions().len() == old(self).subscriptions().len(),
            forall|i: int| 0 <= i < old(self).subscriptions().len() ==> #[trigger] final(self).subscriptions()[i]
                == bounded_push(old(self).subscriptions()[i], *message, BROADCAST_CAPACITY as nat),
    {
        let ghost old_subs = old(self).subscriptions();
        let mut subs: Vec<Vec<InterAgentMessage>> = Vec::new();
        let mut i: usize = 0;
        while i < self.subscribers.len()
            invariant
                i <= self.subscribers@.len(),
                old_subs == Seq::new(self.subscribers@.len(), |j: int| self.subscribers@[j]@),
                subs@.len() == i,
                forall|j: int| 0 <= j < i ==> #[trigger] subs@[j]@ == bounded_push(old_subs[j], *message, BROADCAST_CAPACITY as nat),
            decreases self.subscribers.len() - i,
        {
            let mut q: Vec<InterAgentMessage> = Vec::new();
            let mut k: usize = if self.subscribers[i].len() >= BROADCAST_CAPACITY { self.subscribers[i].len() - (BROADCAST_CAPACITY - 1) } else { 0 };
            let ghost src = self.subscribers@[i as int]@;
            let ghost start = k as int;
            while k < self.subscribers[i].len()
                invariant
                    i < self.subscribers@.len(),
                    src == self.subscribers@[i as int]@,
                    0 <= start <= k <= src.len(),
                    q@ == src.subrange(start, k as int),
                decreases src.len() - k,
            {
                q.push(self.subscribers[i][k].clone());
                k += 1;
            }
            q.push(message.clone());
            proof {
                let t = src.push(*message);
                if t.len() > BROADCAST_CAPACITY {
                    assert(q@ =~= t.subrange(t.len() - BROADCAST_CAPACITY, t.len() as int));
                } else {
                    assert(q@ =~= t);
                }
            }
            subs.push(q);
            i += 1;
        }
        self.subscribers = subs;
        assert(self.subscriptions().len() == old_subs.len());
    }

    /// Sends a message: it is first appended to the history, then delivered to its
    /// target's inbox or, without a target, to every broadcast subscription.
    /// A stopped bus refuses it and records nothing. A send to an agent without an
    /// inbox, or to a closed or full one, fails after the message was recorded.
    pub fn send_message(&mut self, message: InterAgentMessage) -> (r: Result<(), AgentSpaceError>)
        requires
            old(self).wf(),
        ensures
            final(self).wf(),
            final(self).running() == old(self).running(),
            final(self).max_history() == old(self).max_history(),
            !old(self).running() ==> r == Err::<(), AgentSpaceError>(AgentSpaceError::NotRunning)
                && final(self).history() == old(self).history()
                && final(self).inboxes() == old(self).inboxes()
                && final(self).subscriptions() == old(self).subscriptions(),
            old(self).running() ==> final(self).history() == bounded_push(old(self).history(), message, old(self).max_history()),
            old(self).running() && message.to_agent is None ==> r is Ok
                && final(self).inboxes() == old(self).inboxes()
                && final(self).subscriptions().len() == old(self).subscriptions().len()
                && forall|i: int| 0 <= i < old(self).subscriptions().len() ==> #[trigger] final(self).subscriptions()[i]
                    == bounded_push(old(self).subscriptions()[i], message, BROADCAST_CAPACITY as nat),
            old(self).running() && message.to_agent is Some ==> final(self).subscriptions() == old(self).subscriptions(),
            old(self).running() && message.to_agent is Some ==> ({
                let t = message.to_agent->Some_0;
                if !old(self).inboxes().contains_key(t) {
                r == Err::<(), AgentSpaceError>(AgentSpaceError::NotRegistered(t)) && final(self).inboxes() == old(self).inboxes()
            } else if old(self).inboxes()[t].1 || old(self).inboxes()[t].0.len() >= INBOX_CAPACITY {
                r == Err::<(), AgentSpaceError>(AgentSpaceError::SendFailed(t)) && final(self).inboxes() == old(self).inboxes()
            } else {
                r is Ok && final(self).inboxes() == old(self).inboxes().insert(t, (old(self).inboxes()[t].0.push(message), false))
            }}),
    {
        if !self.is_running {
            return Err(AgentSpaceError::NotRunning);
        }
        let copy = message.clone();
        self.add_to_history(copy);
        match message.to_agent {
            Some(target) => {
                let i = match self.find_inbox(target) {
                    Some(i) => i,
                    None => return Err(AgentSpaceError::NotRegistered(target)),
                };
                if self.inboxes[i].closed || self.inboxes[i].messages.len() >= INBOX_CAPACITY {
                    return Err(AgentSpaceError::SendFailed(target));
                }
                let ghost before = self.inboxes@;
                let mut inbox = self.inboxes.remove(i);
                inbox.messages.push(message);
                proof {
                    lemma_inbox_update(before, i as int, inbox);
                    assert(before.remove(i as int).insert(i as int, inbox) =~= before.update(i as int, inbox));
                }
                self.inboxes.insert(i, inbox);
                Ok(())
            },
            None => {
                self.broadcast_message(&message);
                Ok(())
            },
        }
    }

    /// The last `limit` messages of the history, oldest first; all of them without a limit.
    pub fn get_message_history(&self, limit: Option<usize>) -> (r: Vec<InterAgentMessage>)
        requires
            self.wf(),
        ensures
            r@ == recent(self.history(), limit),
    {
        let len = self.message_history.len();
        let start = match limit {
            Some(n) => if len > n { len - n } else { 0 },
            None => 0,
        };
        let mut r: Vec<InterAgentMessage> = Vec::new();
        let mut i = start;
        while i < len
            invariant
                len == self.message_history@.len(),
                start <= i <= len,
                r@ == self.message_history@.subrange(start as int, i as int),
            decreases len - i,
        {
            r.push(self.message_history[i].clone());
            i += 1;
        }
        assert(r@ =~= recent(self.history(), limit));
        r
    }

    /// The last `limit` messages sent by or to `agent_id`, oldest first.
    pub fn get_agent_messages(&self, agent_id: AgentId, limit: Option<usize>) -> (r: Vec<InterAgentMessage>)
        requires
            self.wf(),
        ensures
            r@ == recent(self.history().filter(msg_concerns(agent_id)), limit),
    {
        let mut all: Vec<InterAgentMessage> = Vec::new();
        let mut i: usize = 0;
        while i < self.message_history.len()
            invariant
                i <= self.message_history@.len(),
                all@ == self.message_history@.subrange(0, i as int).filter(msg_concerns(agent_id)),
            decreases self.message_history.len() - i,
        {
            proof {
                assert(self.message_history@.subrange(0, i + 1) =~= self.message_history@.subrange(0, i as int).push(self.message_history@[i as int]));
                self.message_history@.subrange(0, i as int).lemma_filter_push(self.message_history@[i as int], msg_concerns(agent_id));
            }
            let m = &self.message_history[i];
            let hit = m.from_agent == agent_id || match m.to_agent {
                Some(t) => t == agent_id,
                None => false,
            };
            if hit {
                all.push(m.clone());
            }
            i += 1;
        }
        assert(self.message_history@.subrange(0, self.message_history@.len() as int) =~= self.message_history@);
        let len = all.len();
        match limit {
            Some(n) => {
                if len > n {
                    let tail = all.split_off(len - n);
                    return tail;
                }
                all
            },
            None => all,
        }
    }

    /// Counts: messages kept, registered agents, kept messages by type name and by sender.
    pub fn get_message_statistics(&self) -> (r: MessageStatistics)
        requires
            self.wf(),
        ensures
            r.total_messages == self.history().len(),
            r.registered_agents == self.inboxes().len(),
            is_type_tally(r.message_types@, self.history()),
            is_sender_tally(r.messages_per_agent@, self.history()),
    {
        proof {
            lemma_inbox_count(self.inboxes@);
        }
        MessageStatistics {
            total_messages: self.message_history.len(),
            registered_agents: self.inboxes.len(),
            message_types: tally_types(&self.message_history),
            messages_per_agent: tally_senders(&self.message_history),
        }
    }

    /// Empties the history.
    pub fn clear_history(&mut self)
        requires
            old(self).wf(),
        ensures
            final(self).wf(),
            final(self).running() == old(self).running(),
            final(self).max_history() == old(self).max_history(),
            final(self).inboxes() == old(self).inboxes(),
            final(self).subscriptions() == old(self).subscriptions(),
            final(self).history().len() == 0,
    {
        self.message_history = Vec::new();
    }
}

proof fn lemma_inbox_count(s: Seq<Inbox>)
    requires
        unique_inbox_ids(s),
    ensures
        inbox_map(s).len() == s.len(),
    decreases s.len(),
{
    if s.len() == 0 {
        assert(inbox_map(s) =~= Map::<AgentId, (Seq<InterAgentMessage>, bool)>::empty());
    } else {
        let p = s.drop_last();
        assert(unique_inbox_ids(p));
        lemma_inbox_count(p);
        assert(!has_inbox(p, s.last().agent_id)) by {
            if has_inbox(p, s.last().agent_id) {
                let k = inbox_index(p, s.last().agent_id);
                assert(s[k].agent_id != s[s.len() - 1].agent_id);
            }
        }
        lemma_inbox_push(p, s.last());
        assert(p.push(s.last()) =~= s);
        assert(inbox_map(p).dom().finite()) by {
            lemma_inbox_dom_finite(p);
        }
    }
}

proof fn lemma_inbox_dom_finite(s: Seq<Inbox>)
    ensures
        inbox_map(s).dom().finite(),
{
    let ids = Set::new(|i: int| 0 <= i < s.len()).map(|i: int| s[i].agent_id);
    assert(Set::new(|i: int| 0 <= i < s.len()) =~= vstd::set_lib::set_int_range(0, s.len() as int));
    vstd::set_lib::lemma_int_range(0, s.len() as int);
    Set::new(|i: int| 0 <= i < s.len()).lemma_map_finite(|i: int| s[i].agent_id);
    assert(inbox_map(s).dom() =~= ids) by {
        assert forall|a: AgentId| inbox_map(s).dom().contains(a) implies ids.contains(a) by {
            let k = inbox_index(s, a);
            assert(Set::new(|i: int| 0 <= i < s.len()).contains(k));
        }
    }
}


proof fn lemma_last_only(s: Seq<InterAgentMessage>, m: InterAgentMessage, p: spec_fn(InterAgentMessage) -> bool)
    requires
        s.len() > 0,
        s.last() == m,
        p(m),
        forall|i: int| 0 <= i < s.len() - 1 ==> s[i].id != m.id,
    ensures
        s.filter(p).filter(with_id(m.id)).len() == 1,
{
    let q = s.drop_last();
    assert(q.push(m) =~= s);
    q.lemma_filter_push(m, p);
    let f = q.filter(p);
    f.lemma_filter_push(m, with_id(m.id));
    assert forall|k: int| 0 <= k < f.len() implies !with_id(m.id)(#[trigger] f[k]) by {
        assert(f.contains(f[k]));
        q.lemma_filter_contains_rev(p, f[k]);
        let w = choose|w: int| 0 <= w < q.len() && q[w] == f[k];
        assert(s[w].id != m.id);
    }
    lemma_filter_none(f, with_id(m.id));
}

/// Delivery once: a direct message whose id neither the target's inbox nor the history
/// held, sent with success on a bus that keeps at least one message, is in the inbox
/// exactly once and in the history of the target exactly once.
pub proof fn lemma_delivered_once(
    inbox: Seq<InterAgentMessage>,
    history: Seq<InterAgentMessage>,
    m: InterAgentMessage,
    max: nat,
    target: AgentId,
)
    requires
        max > 0,
        m.to_agent == Some(target),
        forall|i: int| 0 <= i < inbox.len() ==> inbox[i].id != m.id,
        forall|i: int| 0 <= i < history.len() ==> history[i].id != m.id,
    ensures
        inbox.push(m).filter(with_id(m.id)).len() == 1,
        bounded_push(history, m, max).filter(msg_concerns(target)).filter(with_id(m.id)).len() == 1,
{
    let all = |x: InterAgentMessage| true;
    let s = inbox.push(m);
    assert(s.filter(all) =~= s) by {
        lemma_filter_all(s, all);
    }
    lemma_last_only(s, m, all);
    let t = history.push(m);
    let b = bounded_push(history, m, max);
    if t.len() > max {
        assert(b.last() == m);
        assert forall|i: int| 0 <= i < b.len() - 1 implies b[i].id != m.id by {
            assert(b[i] == history[t.len() - max + i]);
        }
        lemma_last_only(b, m, msg_concerns(target));
    } else {
        lemma_last_only(b, m, msg_concerns(target));
    }
}

proof fn lemma_filter_all(s: Seq<InterAgentMessage>, p: spec_fn(InterAgentMessage) -> bool)
    requires
        forall|x: InterAgentMessage| #[trigger] p(x),
    ensures
        s.filter(p) == s,
    decreases s.len(),
{
    if s.len() > 0 {
        lemma_filter_all(s.drop_last(), p);
        s.drop_last().lemma_filter_push(s.last(), p);
        assert(s.drop_last().push(s.last()) =~= s);
    }
}

} // verus!
