//! Schedule rules and the computation of their next fire times.

use vstd::prelude::*;

use crate::calendar::{
    date_of, day_index, days_from_ce, lemma_date_of, lemma_next_month_later, instant_at, is_instant, is_valid_date, next_month, second_of_day,
    split_instant, weekday_of, TimeOfDay, Weekday, MIN_INSTANT, SECONDS_PER_DAY, SECONDS_PER_WEEK,
};
use crate::error::{AgentSpaceError, ScheduleError};
use crate::outside::{
    cron_accepts, cron_next, cron_next_after, date_of_day_number, day_number_of_date, new_uuid,
    unix_now,
};
use crate::types::{AgentAction, AgentId, UnixSeconds};

verus! {

/// When a rule fires. Times of day are UTC.
#[derive(Debug)]
pub enum ScheduleType {
    /// A cron expression of five to seven fields.
    Cron(String),
    /// Every so many seconds after the last fire.
    Interval(u64),
    /// Once, at the given instant.
    Once(UnixSeconds),
    Daily(TimeOfDay),
    Weekly(Weekday, TimeOfDay),
    /// On the given day of the month.
    Monthly(u32, TimeOfDay),
}

impl Clone for ScheduleType {
    fn clone(&self) -> (r: Self)
        ensures
            r == *self,
    {
        match self {
            ScheduleType::Cron(e) => ScheduleType::Cron(e.clone()),
            ScheduleType::Interval(d) => ScheduleType::Interval(*d),
            ScheduleType::Once(t) => ScheduleType::Once(*t),
            ScheduleType::Daily(t) => ScheduleType::Daily(*t),
            ScheduleType::Weekly(w, t) => ScheduleType::Weekly(*w, *t),
            ScheduleType::Monthly(d, t) => ScheduleType::Monthly(*d, *t),
        }
    }
}

/// Today at `t` if that is still ahead of `now`, else tomorrow at `t`.
pub open spec fn daily_next(t: TimeOfDay, now: int) -> int {
    let today = instant_at(day_index(now), t.secs());
    if today > now {
        today
    } else {
        today + 86400
    }
}

/// Days from the weekday of `now` forward to weekday `w`, 0 to 6.
pub open spec fn days_until(w: Weekday, now: int) -> int {
    (w.index() - weekday_of(now) + 7) % 7
}

/// The next `w` at `t` strictly after `now`: today's if it is that day and still ahead.
pub open spec fn weekly_next(w: Weekday, t: TimeOfDay, now: int) -> int {
    let c = instant_at(day_index(now) + days_until(w, now), t.secs());
    if days_until(w, now) == 0 && c <= now {
        c + 604800
    } else {
        c
    }
}

/// Day `day` of month `m` of year `y`, at `t`.
pub open spec fn monthly_at(y: int, m: int, day: int, t: TimeOfDay) -> int {
    instant_at(days_from_ce(y, m, day) - 1, t.secs())
}

/// Day `day` at `t` of the month of `now`, `(y, m)`, if it exists there and is still ahead;
/// else of the next month if it exists there; else of the month after.
pub open spec fn monthly_next(y: int, m: int, day: u32, t: TimeOfDay, now: int) -> Result<
    Option<int>,
    ScheduleError,
> {
    let (y1, m1) = next_month(y, m);
    let (y2, m2) = next_month(y1, m1);
    if is_valid_date(y, m, day as int) && monthly_at(y, m, day as int, t) > now {
        Ok(Some(monthly_at(y, m, day as int, t)))
    } else if is_valid_date(y1, m1, day as int) {
        Ok(Some(monthly_at(y1, m1, day as int, t)))
    } else if is_valid_date(y2, m2, day as int) {
        Ok(Some(monthly_at(y2, m2, day as int, t)))
    } else {
        Err(ScheduleError::InvalidMonthlyDay(day))
    }
}

/// When a rule of type `st` fires next, evaluated at `now`; `Ok(None)` where it never
/// fires again.
pub open spec fn next_fire(st: ScheduleType, now: int) -> Result<Option<int>, ScheduleError> {
    match st {
        ScheduleType::Cron(e) => if cron_accepts(e@) {
            Ok(cron_next(e@, now))
        } else {
            Err(ScheduleError::InvalidCron)
        },
        ScheduleType::Interval(d) => if d == 0 {
            Err(ScheduleError::InvalidInterval)
        } else if now + d > i64::MAX {
            Err(ScheduleError::OutOfRange)
        } else {
            Ok(Some(now + d))
        },
        ScheduleType::Once(t) => if t > now {
            Ok::<Option<int>, ScheduleError>(Some(t as int))
        } else {
            Ok(None)
        },
        ScheduleType::Daily(t) => if t.wf() {
            Ok(Some(daily_next(t, now)))
        } else {
            Err(ScheduleError::InvalidTime)
        },
        ScheduleType::Weekly(w, t) => if t.wf() {
            Ok(Some(weekly_next(w, t, now)))
        } else {
            Err(ScheduleError::InvalidTime)
        },
        ScheduleType::Monthly(day, t) => if t.wf() {
            let today = date_of(day_index(now) + 1);
            monthly_next(today.0, today.1, day, t, now)
        } else {
            Err(ScheduleError::InvalidTime)
        },
    }
}

/// Whether `r` is what the next-fire computation gives for `st` evaluated at `now`.
pub open spec fn is_next_fire(st: ScheduleType, now: int, r: Result<Option<int>, ScheduleError>) -> bool {
    r == next_fire(st, now)
}

/// A computed fire time read as an integer instant.
pub open spec fn lift(x: Result<Option<i64>, ScheduleError>) -> Result<Option<int>, ScheduleError> {
    match x {
        Ok(Some(v)) => Ok(Some(v as int)),
        Ok(None) => Ok(None),
        Err(e) => Err(e),
    }
}

proof fn lemma_daily(t: TimeOfDay, now: int)
    requires
        t.wf(),
        is_instant(now),
    ensures
        daily_next(t, now) > now,
        second_of_day(daily_next(t, now)) == t.secs(),
        daily_next(t, now) - 86400 <= now,
{
    let k = day_index(now);
    assert(now == instant_at(k, second_of_day(now)));
    let c = instant_at(k, t.secs());
    assert(second_of_day(c) == t.secs()) by {
        assert(c - MIN_INSTANT == k * 86400 + t.secs());
    }
    assert(second_of_day(c + 86400) == t.secs()) by {
        assert(c + 86400 - MIN_INSTANT == (k + 1) * 86400 + t.secs());
    }
}

proof fn lemma_weekly(w: Weekday, t: TimeOfDay, now: int)
    requires
        t.wf(),
        is_instant(now),
    ensures
        weekly_next(w, t, now) > now,
        second_of_day(weekly_next(w, t, now)) == t.secs(),
        weekday_of(weekly_next(w, t, now)) == w.index(),
        weekly_next(w, t, now) - 604800 <= now,
{
    let k = day_index(now);
    let u = days_until(w, now);
    assert(now == instant_at(k, second_of_day(now)));
    let c = instant_at(k + u, t.secs());
    assert(day_index(c) == k + u && second_of_day(c) == t.secs()) by {
        assert(c - MIN_INSTANT == (k + u) * 86400 + t.secs());
    }
    assert(day_index(c + 604800) == k + u + 7 && second_of_day(c + 604800) == t.secs()) by {
        assert(c + 604800 - MIN_INSTANT == (k + u + 7) * 86400 + t.secs());
    }
}

/// Computes when a rule of type `schedule_type` fires next, evaluated at `from_time`.
/// `Ok(None)` where it never fires again.
pub fn calculate_next_trigger(schedule_type: &ScheduleType, from_time: UnixSeconds) -> (r: Result<
    Option<UnixSeconds>,
    ScheduleError,
>)
    requires
        is_instant(from_time as int),
    ensures
        lift(r) == next_fire(*schedule_type, from_time as int),
        r matches Ok(Some(x)) ==> x > from_time,
        schedule_type is Daily && r is Ok ==> (r->Ok_0 matches Some(x) && second_of_day(x as int)
            == schedule_type->Daily_0.secs() && x - 86400 <= from_time),
        schedule_type is Weekly && r is Ok ==> (r->Ok_0 matches Some(x) && weekday_of(x as int)
            == schedule_type->Weekly_0.index() && second_of_day(x as int)
            == schedule_type->Weekly_1.secs() && x - 604800 <= from_time),
{
    match schedule_type {
        ScheduleType::Cron(expr) => {
            match cron_next_after(expr.as_str(), from_time) {
                Some(Some(x)) => Ok(Some(x)),
                Some(None) => Ok(None),
                None => Err(ScheduleError::InvalidCron),
            }
        },
        ScheduleType::Interval(d) => {
            let room: u64 = if from_time >= 0 {
                (i64::MAX - from_time) as u64
            } else {
                i64::MAX as u64 + (-from_time) as u64
            };
            if *d == 0 {
                Err(ScheduleError::InvalidInterval)
            } else if *d > room {
                Err(ScheduleError::OutOfRange)
            } else {
                Ok(Some((from_time as i128 + *d as i128) as i64))
            }
        },
        ScheduleType::Once(t) => {
            if *t > from_time {
                Ok(Some(*t))
            } else {
                Ok(None)
            }
        },
        ScheduleType::Daily(t) => {
            if !(t.hour < 24 && t.minute < 60 && t.second < 60) {
                return Err(ScheduleError::InvalidTime);
            }
            proof {
                lemma_daily(*t, from_time as int);
            }
            let (k, _) = split_instant(from_time);
            let today = MIN_INSTANT + k * SECONDS_PER_DAY + t.seconds();
            if today > from_time {
                Ok(Some(today))
            } else {
                Ok(Some(today + SECONDS_PER_DAY))
            }
        },
        ScheduleType::Weekly(w, t) => {
            if !(t.hour < 24 && t.minute < 60 && t.second < 60) {
                return Err(ScheduleError::InvalidTime);
            }
            proof {
                lemma_weekly(*w, *t, from_time as int);
            }
            let (k, _) = split_instant(from_time);
            let current = k % 7;
            let until = (w.num_days_from_monday() as i64 - current + 7) % 7;
            let c = MIN_INSTANT + (k + until) * SECONDS_PER_DAY + t.seconds();
            if until == 0 && c <= from_time {
                Ok(Some(c + SECONDS_PER_WEEK))
            } else {
                Ok(Some(c))
            }
        },
        ScheduleType::Monthly(day, t) => {
            if !(t.hour < 24 && t.minute < 60 && t.second < 60) {
                return Err(ScheduleError::InvalidTime);
            }
            monthly_next_trigger(*day, *t, from_time)
        },
    }
}

fn monthly_next_trigger(day: u32, t: TimeOfDay, from_time: UnixSeconds) -> (r: Result<
    Option<UnixSeconds>,
    ScheduleError,
>)
    requires
        is_instant(from_time as int),
        t.wf(),
    ensures
        is_next_fire(ScheduleType::Monthly(day, t), from_time as int, lift(r)),
        r matches Ok(Some(x)) ==> x > from_time,
{
    let (k, sec) = split_instant(from_time);
    let (y, m, d) = match date_of_day_number((k + 1) as i32) {
        Some(ymd) => ymd,
        None => return Err(ScheduleError::OutOfRange),
    };
    let secs = t.seconds();
    let (y1, m1) = if m == 12 {
        (y + 1, 1u32)
    } else {
        (y, m + 1)
    };
    let (y2, m2) = if m1 == 12 {
        (y1 + 1, 1u32)
    } else {
        (y1, m1 + 1)
    };
    proof {
        assert(next_month(y as int, m as int) == (y1 as int, m1 as int));
        assert(next_month(y1 as int, m1 as int) == (y2 as int, m2 as int));
        lemma_date_of(y as int, m as int, d as int);
    }
    let ghost spec_r = monthly_next(y as int, m as int, day, t, from_time as int);
    let r = if let Some(n0) = day_number_of_date(y, m, day) {
        let c0 = MIN_INSTANT + (n0 as i64 - 1) * SECONDS_PER_DAY + secs;
        if c0 > from_time {
            Ok(Some(c0))
        } else {
            monthly_later(y, m, d, y1, m1, y2, m2, day, t, from_time)
        }
    } else {
        monthly_later(y, m, d, y1, m1, y2, m2, day, t, from_time)
    };
    proof {
        assert(lift(r) == spec_r);
    }
    r
}

fn monthly_later(
    y: i32,
    m: u32,
    d: u32,
    y1: i32,
    m1: u32,
    y2: i32,
    m2: u32,
    day: u32,
    t: TimeOfDay,
    from_time: UnixSeconds,
) -> (r: Result<Option<UnixSeconds>, ScheduleError>)
    requires
        is_instant(from_time as int),
        t.wf(),
        1 <= y <= 9999,
        is_valid_date(y as int, m as int, d as int),
        days_from_ce(y as int, m as int, d as int) == day_index(from_time as int) + 1,
        next_month(y as int, m as int) == (y1 as int, m1 as int),
        next_month(y1 as int, m1 as int) == (y2 as int, m2 as int),
    ensures
        lift(r) == if is_valid_date(y1 as int, m1 as int, day as int) {
            Ok(Some(monthly_at(y1 as int, m1 as int, day as int, t)))
        } else if is_valid_date(y2 as int, m2 as int, day as int) {
            Ok(Some(monthly_at(y2 as int, m2 as int, day as int, t)))
        } else {
            Err(ScheduleError::InvalidMonthlyDay(day))
        },
        r matches Ok(Some(x)) ==> x > from_time,
{
    let secs = t.seconds();
    let ghost k = day_index(from_time as int);
    assert(from_time == instant_at(k, second_of_day(from_time as int)));
    if let Some(n1) = day_number_of_date(y1, m1, day) {
        proof {
            lemma_next_month_later(y as int, m as int, d as int, day as int);
        }
        Ok(Some(MIN_INSTANT + (n1 as i64 - 1) * SECONDS_PER_DAY + secs))
    } else if let Some(n2) = day_number_of_date(y2, m2, day) {
        proof {
            lemma_next_month_later(y as int, m as int, d as int, 1);
            lemma_next_month_later(y1 as int, m1 as int, 1, day as int);
        }
        Ok(Some(MIN_INSTANT + (n2 as i64 - 1) * SECONDS_PER_DAY + secs))
    } else {
        Err(ScheduleError::InvalidMonthlyDay(day))
    }
}

/// A time-based policy that materialises an action for an agent.
#[derive(Debug)]
pub struct ScheduleRule {
    pub id: u128,
    pub agent_id: AgentId,
    pub name: String,
    pub schedule_type: ScheduleType,
    pub action_template: AgentAction,
    pub is_active: bool,
    pub created_at: UnixSeconds,
    pub last_triggered: Option<UnixSeconds>,
    pub next_trigger: Option<UnixSeconds>,
}

impl Clone for ScheduleRule {
    fn clone(&self) -> (r: Self)
        ensures
            r == *self,
    {
        ScheduleRule {
            id: self.id,
            agent_id: self.agent_id,
            name: self.name.clone(),
            schedule_type: self.schedule_type.clone(),
            action_template: self.action_template.clone(),
            is_active: self.is_active,
            created_at: self.created_at,
            last_triggered: self.last_triggered,
            next_trigger: self.next_trigger,
        }
    }
}

impl ScheduleRule {
    /// An active rule with a fresh id that has never fired and has no next fire time yet.
    pub fn new(
        agent_id: AgentId,
        name: String,
        schedule_type: ScheduleType,
        action_template: AgentAction,
    ) -> (r: ScheduleRule)
        ensures
            r.agent_id == agent_id,
            r.name == name,
            r.schedule_type == schedule_type,
            r.action_template == action_template,
            r.is_active,
            r.last_triggered.is_none(),
            r.next_trigger.is_none(),
    {
        ScheduleRule {
            id: new_uuid(),
            agent_id,
            name,
            schedule_type,
            action_template,
            is_active: true,
            created_at: unix_now(),
            last_triggered: None,
            next_trigger: None,
        }
    }
}

/// An action that a rule produced when it fired.
#[derive(Debug)]
pub struct ScheduledAction {
    pub rule_id: u128,
    pub agent_id: AgentId,
    pub action: AgentAction,
    pub scheduled_time: UnixSeconds,
}

/// Counts of the rules in a scheduler.
#[derive(Debug, Clone, Copy, PartialEq, Eq, Structural)]
pub struct SchedulerStatistics {
    pub total_rules: usize,
    pub active_rules: usize,
    pub pending_triggers: usize,
    pub cron_rules: usize,
    pub interval_rules: usize,
    pub once_rules: usize,
    pub daily_rules: usize,
    pub weekly_rules: usize,
    pub monthly_rules: usize,
}

/// No two rules share an id.
pub open spec fn unique_rule_ids(s: Seq<ScheduleRule>) -> bool {
    forall|i: int, j: int| 0 <= i < j < s.len() ==> s[i].id != s[j].id
}

/// Whether `s` holds a rule of this id.
pub open spec fn has_rule(s: Seq<ScheduleRule>, id: u128) -> bool {
    exists|i: int| 0 <= i < s.len() && s[i].id == id
}

/// Position of the rule `id` in `s`.
pub open spec fn rule_index(s: Seq<ScheduleRule>, id: u128) -> int {
    choose|i: int| 0 <= i < s.len() && s[i].id == id
}

/// `r` in place of the rule of the same id, or appended where there is none.
pub open spec fn upsert_rule(s: Seq<ScheduleRule>, r: ScheduleRule) -> Seq<ScheduleRule> {
    if has_rule(s, r.id) {
        s.update(rule_index(s, r.id), r)
    } else {
        s.push(r)
    }
}

/// `rule` as stored for `agent_id` with next fire time `next`.
pub open spec fn with_trigger(rule: ScheduleRule, agent_id: AgentId, next: Option<i64>) -> ScheduleRule {
    ScheduleRule { agent_id, next_trigger: next, ..rule }
}

/// A successful computation that yielded `x`.
pub open spec fn lift_next(x: Option<i64>) -> Result<Option<int>, ScheduleError> {
    match x {
        Some(v) => Ok(Some(v as int)),
        None => Ok(None),
    }
}

/// `next` is the next fire time of `st` as computed at some instant of the years 1 to
/// 9999 (the clock's reading when the rule was stored).
pub open spec fn fires_next_at_some_time(st: ScheduleType, next: Option<i64>) -> bool {
    exists|t: int| is_instant(t) && #[trigger] is_next_fire(st, t, lift_next(next))
}

/// `r` with its active flag and next fire time replaced.
pub open spec fn with_activity(r: ScheduleRule, active: bool, next: Option<i64>) -> ScheduleRule {
    ScheduleRule { is_active: active, next_trigger: next, ..r }
}

/// Whether the rule is due at `now`.
pub open spec fn is_due(r: ScheduleRule, now: int) -> bool {
    r.is_active && (r.next_trigger matches Some(t) && t <= now)
}

/// `new` is `old` fired at `now`: marked as triggered then, with its next fire time
/// computed from `now`, none where that computation fails.
pub open spec fn is_fired(old: ScheduleRule, new: ScheduleRule, now: i64) -> bool {
    &&& new == ScheduleRule { last_triggered: Some(now), next_trigger: new.next_trigger, ..old }
    &&& exists|res: Result<Option<i64>, ScheduleError>|
        is_next_fire(old.schedule_type, now as int, #[trigger] lift(res)) && new.next_trigger
            == match res {
            Ok(x) => x,
            Err(_) => None,
        }
}

/// The action a rule hands out when it fires at `now`.
pub open spec fn fired_action(r: ScheduleRule, now: i64) -> ScheduledAction {
    ScheduledAction { rule_id: r.id, agent_id: r.agent_id, action: r.action_template, scheduled_time: now }
}

/// The actions of the rules of `s` that are due at `now`, in the order of `s`.
pub open spec fn fired_actions(s: Seq<ScheduleRule>, now: i64) -> Seq<ScheduledAction>
    decreases s.len(),
{
    if s.len() == 0 {
        Seq::empty()
    } else if is_due(s.last(), now as int) {
        fired_actions(s.drop_last(), now).push(fired_action(s.last(), now))
    } else {
        fired_actions(s.drop_last(), now)
    }
}

pub open spec fn rule_of_agent(agent_id: AgentId) -> spec_fn(ScheduleRule) -> bool {
    |x: ScheduleRule| x.agent_id == agent_id
}

pub open spec fn rule_is_active() -> spec_fn(ScheduleRule) -> bool {
    |x: ScheduleRule| x.is_active
}

pub open spec fn rule_is_pending() -> spec_fn(ScheduleRule) -> bool {
    |x: ScheduleRule| x.is_active && x.next_trigger is Some
}

/// Rules whose schedule is of the kind numbered `kind`: cron 0, interval 1, once 2,
/// daily 3, weekly 4, monthly 5.
pub open spec fn rule_of_kind(kind: int) -> spec_fn(ScheduleRule) -> bool {
    |x: ScheduleRule| match x.schedule_type {
        ScheduleType::Cron(_) => kind == 0,
        ScheduleType::Interval(_) => kind == 1,
        ScheduleType::Once(_) => kind == 2,
        ScheduleType::Daily(_) => kind == 3,
        ScheduleType::Weekly(_, _) => kind == 4,
        ScheduleType::Monthly(_, _) => kind == 5,
    }
}

/// Owner of all schedule rules; fires those that are due on each tick.
pub struct AgentScheduler {
    rules: Vec<ScheduleRule>,
    is_running: bool,
}

impl View for AgentScheduler {
    type V = Seq<ScheduleRule>;

    closed spec fn view(&self) -> Seq<ScheduleRule> {
        self.rules@
    }
}

impl AgentScheduler {
    pub closed spec fn running(&self) -> bool {
        self.is_running
    }

    /// Rule ids are unique.
    pub open spec fn wf(&self) -> bool {
        unique_rule_ids(self@)
    }

    /// A stopped scheduler without rules.
    pub fn new() -> (r: AgentScheduler)
        ensures
            r.wf(),
            r@.len() == 0,
            !r.running(),
    {
        AgentScheduler { rules: Vec::new(), is_running: false }
    }

    pub fn start(&mut self)
        ensures
            final(self)@ == old(self)@,
            final(self).running(),
    {
        self.is_running = true;
    }

    pub fn stop(&mut self)
        ensures
            final(self)@ == old(self)@,
            !final(self).running(),
    {
        self.is_running = false;
    }

    pub fn is_running(&self) -> (r: bool)
        ensures
            r == self.running(),
    {
        self.is_running
    }

    fn find_rule(&self, id: u128) -> (r: Option<usize>)
        requires
            self.wf(),
        ensures
            r matches Some(i) ==> i < self@.len() && self@[i as int].id == id && rule_index(self@, id)
                == i,
            r is None ==> !has_rule(self@, id),
    {
        let mut i: usize = 0;
        while i < self.rules.len()
            invariant
                self.wf(),
                i <= self.rules@.len(),
                forall|j: int| 0 <= j < i ==> self.rules@[j].id != id,
            decreases self.rules.len() - i,
        {
            if self.rules[i].id == id {
                proof {
                    assert(has_rule(self@, id));
                    let c = rule_index(self@, id);
                    assert(c == i) by {
                        if c != i {
                            assert(unique_rule_ids(self@));
                        }
                    }
                }
                return Some(i);
            }
            i += 1;
        }
        None
    }

    /// Sets the rule's agent, computes its next fire time at `now` and stores it,
    /// in place of a rule of the same id. Nothing changes where the computation fails.
    pub fn add_rule_at(&mut self, agent_id: AgentId, rule: ScheduleRule, now: UnixSeconds) -> (r: Result<u128, AgentSpaceError>)
        requires
            old(self).wf(),
            is_instant(now as int),
        ensures
            final(self).wf(),
            final(self).running() == old(self).running(),
            r is Err ==> final(self)@ == old(self)@,
            r matches Err(e) ==> (e matches AgentSpaceError::Schedule(se) && is_next_fire(
                rule.schedule_type,
                now as int,
                Err(se),
            )),
            r matches Ok(id) ==> id == rule.id,
            r is Ok ==> exists|next: Option<i64>|
                is_next_fire(rule.schedule_type, now as int, #[trigger] lift_next(next))
                    && final(self)@ == upsert_rule(old(self)@, with_trigger(rule, agent_id, next)),
    {
        let next = match calculate_next_trigger(&rule.schedule_type, now) {
            Ok(x) => x,
            Err(e) => return Err(AgentSpaceError::Schedule(e)),
        };
        let ghost old_rules = self@;
        let mut stored = rule;
        stored.agent_id = agent_id;
        stored.next_trigger = next;
        assert(stored == with_trigger(rule, agent_id, next));
        assert(lift_next(next) == lift(Ok(next)));
        let id = stored.id;
        match self.find_rule(id) {
            Some(i) => {
                self.rules.set(i, stored);
                assert forall|a: int, b: int| 0 <= a < b < self@.len() implies self@[a].id
                    != self@[b].id by {
                    assert(old_rules[a].id != old_rules[b].id);
                }
            },
            None => {
                self.rules.push(stored);
                assert forall|a: int, b: int| 0 <= a < b < self@.len() implies self@[a].id
                    != self@[b].id by {
                    if b == old_rules.len() {
                        assert(old_rules[a].id != id);
                    } else {
                        assert(old_rules[a].id != old_rules[b].id);
                    }
                }
            },
        }
        assert(self@ == upsert_rule(old_rules, with_trigger(rule, agent_id, next)));
        Ok(id)
    }

    /// Adds a rule as `add_rule_at` does, evaluated at the current time.
    pub fn add_rule(&mut self, agent_id: AgentId, rule: ScheduleRule) -> (r: Result<u128, AgentSpaceError>)
        requires
            old(self).wf(),
        ensures
            final(self).wf(),
            r is Err ==> final(self)@ == old(self)@,
            r is Err ==> r->Err_0 is Schedule,
            r matches Ok(id) ==> id == rule.id,
            r is Ok ==> exists|next: Option<i64>|
                fires_next_at_some_time(rule.schedule_type, next) && final(self)@ == upsert_rule(
                    old(self)@,
                    #[trigger] with_trigger(rule, agent_id, next),
                ),
    {
        let now = unix_now();
        if now < MIN_INSTANT || now > crate::calendar::MAX_INSTANT {
            return Err(AgentSpaceError::Schedule(ScheduleError::OutOfRange));
        }
        let r = self.add_rule_at(agent_id, rule, now);
        proof {
            if r is Ok {
                let next = choose|next: Option<i64>|
                    is_next_fire(rule.schedule_type, now as int, #[trigger] lift_next(next))
                        && self@ == upsert_rule(old(self)@, with_trigger(rule, agent_id, next));
                assert(is_instant(now as int) && is_next_fire(rule.schedule_type, now as int, lift_next(next)));
                assert(fires_next_at_some_time(rule.schedule_type, next));
            }
        }
        r
    }

    /// Removes the rule `rule_id`.
    pub fn remove_rule(&mut self, rule_id: u128) -> (r: Result<(), AgentSpaceError>)
        requires
            old(self).wf(),
        ensures
            final(self).wf(),
            r is Ok <==> has_rule(old(self)@, rule_id),
            r is Ok ==> final(self)@ == old(self)@.remove(rule_index(old(self)@, rule_id)),
            r is Err ==> r == Err::<(), AgentSpaceError>(AgentSpaceError::NotFound(rule_id))
                && final(self)@ == old(self)@,
    {
        match self.find_rule(rule_id) {
            Some(i) => {
                let ghost old_rules = self@;
                self.rules.remove(i);
                assert forall|a: int, b: int| 0 <= a < b < self@.len() implies self@[a].id
                    != self@[b].id by {
                    let a0 = if a < i { a } else { a + 1 };
                    let b0 = if b < i { b } else { b + 1 };
                    assert(old_rules[a0].id != old_rules[b0].id);
                }
                Ok(())
            },
            None => Err(AgentSpaceError::NotFound(rule_id)),
        }
    }

    /// Replaces the stored rule of the same id, with its next fire time computed at `now`.
    pub fn update_rule_at(&mut self, rule: ScheduleRule, now: UnixSeconds) -> (r: Result<(), AgentSpaceError>)
        requires
            old(self).wf(),
            is_instant(now as int),
        ensures
            final(self).wf(),
            !has_rule(old(self)@, rule.id) ==> r == Err::<(), AgentSpaceError>(
                AgentSpaceError::NotFound(rule.id),
            ),
            r is Err ==> final(self)@ == old(self)@,
            r matches Err(AgentSpaceError::Schedule(se)) ==> is_next_fire(
                rule.schedule_type,
                now as int,
                Err(se),
            ),
            r is Ok ==> has_rule(old(self)@, rule.id) && exists|next: Option<i64>|
                is_next_fire(rule.schedule_type, now as int, #[trigger] lift_next(next))
                    && final(self)@ == old(self)@.update(
                    rule_index(old(self)@, rule.id),
                    ScheduleRule { next_trigger: next, ..rule },
                ),
            has_rule(old(self)@, rule.id) && r is Err ==> r matches Err(AgentSpaceError::Schedule(_)),
    {
        let i = match self.find_rule(rule.id) {
            Some(i) => i,
            None => return Err(AgentSpaceError::NotFound(rule.id)),
        };
        let next = match calculate_next_trigger(&rule.schedule_type, now) {
            Ok(x) => x,
            Err(e) => return Err(AgentSpaceError::Schedule(e)),
        };
        assert(lift_next(next) == lift(Ok(next)));
        let ghost old_rules = self@;
        let mut stored = rule;
        stored.next_trigger = next;
        self.rules.set(i, stored);
        assert forall|a: int, b: int| 0 <= a < b < self@.len() implies self@[a].id
            != self@[b].id by {
            assert(old_rules[a].id != old_rules[b].id);
        }
        Ok(())
    }

    /// Activates or deactivates the rule `rule_id`. An activated rule gets its next fire
    /// time computed at `now`; a deactivated one has none.
    pub fn set_rule_active_at(&mut self, rule_id: u128, active: bool, now: UnixSeconds) -> (r: Result<(), AgentSpaceError>)
        requires
            old(self).wf(),
            is_instant(now as int),
        ensures
            final(self).wf(),
            !has_rule(old(self)@, rule_id) ==> r == Err::<(), AgentSpaceError>(
                AgentSpaceError::NotFound(rule_id),
            ),
            r is Err ==> final(self)@ == old(self)@,
            r is Ok ==> has_rule(old(self)@, rule_id) && exists|next: Option<i64>|
                #[trigger] lift_next(next) == lift_next(next) && (active ==> is_next_fire(
                    old(self)@[rule_index(old(self)@, rule_id)].schedule_type,
                    now as int,
                    lift_next(next),
                )) && (!active ==> next is None) && final(self)@ == old(self)@.update(
                    rule_index(old(self)@, rule_id),
                    ScheduleRule {
                        is_active: active,
                        next_trigger: next,
                        ..old(self)@[rule_index(old(self)@, rule_id)]
                    },
                ),
            has_rule(old(self)@, rule_id) && r is Err ==> active && r matches Err(
                AgentSpaceError::Schedule(_),
            ),
    {
        let i = match self.find_rule(rule_id) {
            Some(i) => i,
            None => return Err(AgentSpaceError::NotFound(rule_id)),
        };
        let mut rule = self.rules[i].clone();
        let next = if active {
            match calculate_next_trigger(&rule.schedule_type, now) {
                Ok(x) => x,
                Err(e) => return Err(AgentSpaceError::Schedule(e)),
            }
        } else {
            None
        };
        assert(active ==> lift_next(next) == lift(Ok(next)));
        let ghost old_rules = self@;
        rule.is_active = active;
        rule.next_trigger = next;
        self.rules.set(i, rule);
        assert forall|a: int, b: int| 0 <= a < b < self@.len() implies self@[a].id
            != self@[b].id by {
            assert(old_rules[a].id != old_rules[b].id);
        }
        Ok(())
    }

    /// `update_rule_at` at the current time.
    pub fn update_rule(&mut self, rule: ScheduleRule) -> (r: Result<(), AgentSpaceError>)
        requires
            old(self).wf(),
        ensures
            final(self).wf(),
            !has_rule(old(self)@, rule.id) ==> r == Err::<(), AgentSpaceError>(
                AgentSpaceError::NotFound(rule.id),
            ),
            r is Err ==> final(self)@ == old(self)@,
            has_rule(old(self)@, rule.id) && r is Err ==> r->Err_0 is Schedule,
            r is Ok ==> has_rule(old(self)@, rule.id) && exists|next: Option<i64>|
                fires_next_at_some_time(rule.schedule_type, next) && final(self)@ == old(self)@.update(
                    rule_index(old(self)@, rule.id),
                    #[trigger] with_trigger(rule, rule.agent_id, next),
                ),
    {
        let now = unix_now();
        if now < MIN_INSTANT || now > crate::calendar::MAX_INSTANT {
            return match self.find_rule(rule.id) {
                Some(_) => Err(AgentSpaceError::Schedule(ScheduleError::OutOfRange)),
                None => Err(AgentSpaceError::NotFound(rule.id)),
            };
        }
        let ghost before = self@;
        let r = self.update_rule_at(rule, now);
        proof {
            if r is Ok {
                let next = choose|next: Option<i64>|
                    is_next_fire(rule.schedule_type, now as int, #[trigger] lift_next(next))
                        && self@ == before.update(
                        rule_index(before, rule.id),
                        ScheduleRule { next_trigger: next, ..rule },
                    );
                assert(with_trigger(rule, rule.agent_id, next) == ScheduleRule { next_trigger: next, ..rule });
                assert(is_instant(now as int) && is_next_fire(rule.schedule_type, now as int, lift_next(next)));
                assert(fires_next_at_some_time(rule.schedule_type, next));
            }
        }
        r
    }

    /// `set_rule_active_at` at the current time.
    pub fn set_rule_active(&mut self, rule_id: u128, active: bool) -> (r: Result<(), AgentSpaceError>)
        requires
            old(self).wf(),
        ensures
            final(self).wf(),
            !has_rule(old(self)@, rule_id) ==> r == Err::<(), AgentSpaceError>(
                AgentSpaceError::NotFound(rule_id),
            ),
            r is Err ==> final(self)@ == old(self)@,
            has_rule(old(self)@, rule_id) && r is Err ==> r->Err_0 is Schedule,
            r is Ok ==> has_rule(old(self)@, rule_id) && exists|next: Option<i64>|
                (active ==> fires_next_at_some_time(
                    old(self)@[rule_index(old(self)@, rule_id)].schedule_type,
                    next,
                )) && (!active ==> next is None) && final(self)@ == old(self)@.update(
                    rule_index(old(self)@, rule_id),
                    #[trigger] with_activity(old(self)@[rule_index(old(self)@, rule_id)], active, next),
                ),
    {
        let now = unix_now();
        if now < MIN_INSTANT || now > crate::calendar::MAX_INSTANT {
            return match self.find_rule(rule_id) {
                Some(_) => Err(AgentSpaceError::Schedule(ScheduleError::OutOfRange)),
                None => Err(AgentSpaceError::NotFound(rule_id)),
            };
        }
        let r = self.set_rule_active_at(rule_id, active, now);
        proof {
            if r is Ok {
                let old_rule = old(self)@[rule_index(old(self)@, rule_id)];
                let next = choose|next: Option<i64>|
                    #[trigger] lift_next(next) == lift_next(next) && (active ==> is_next_fire(
                        old_rule.schedule_type,
                        now as int,
                        lift_next(next),
                    )) && (!active ==> next is None) && self@ == old(self)@.update(
                        rule_index(old(self)@, rule_id),
                        ScheduleRule { is_active: active, next_trigger: next, ..old_rule },
                    );
                if active {
                    assert(is_instant(now as int) && is_next_fire(old_rule.schedule_type, now as int, lift_next(next)));
                }
                assert(with_activity(old_rule, active, next) == ScheduleRule { is_active: active, next_trigger: next, ..old_rule });
            }
        }
        r
    }

    /// The rules of agent `agent_id`, in table order.
    pub fn get_agent_rules(&self, agent_id: AgentId) -> (r: Vec<ScheduleRule>)
        ensures
            r@ == self@.filter(rule_of_agent(agent_id)),
    {
                let mut r: Vec<ScheduleRule> = Vec::new();
        let mut i: usize = 0;
        while i < self.rules.len()
            invariant
                i <= self.rules@.len(),
                r@ == self.rules@.subrange(0, i as int).filter(rule_of_agent(agent_id)),
            decreases self.rules.len() - i,
        {
            proof {
                assert(self.rules@.subrange(0, i + 1) =~= self.rules@.subrange(0, i as int).push(
                    self.rules@[i as int],
                ));
                self.rules@.subrange(0, i as int).lemma_filter_push(self.rules@[i as int], rule_of_agent(agent_id));
            }
            if self.rules[i].agent_id == agent_id {
                r.push(self.rules[i].clone());
            }
            i += 1;
        }
        assert(self.rules@.subrange(0, self.rules@.len() as int) =~= self.rules@);
        r
    }

    /// The active rules, in table order.
    pub fn get_active_rules(&self) -> (r: Vec<ScheduleRule>)
        ensures
            r@ == self@.filter(rule_is_active()),
    {
                let mut r: Vec<ScheduleRule> = Vec::new();
        let mut i: usize = 0;
        while i < self.rules.len()
            invariant
                i <= self.rules@.len(),
                r@ == self.rules@.subrange(0, i as int).filter(rule_is_active()),
            decreases self.rules.len() - i,
        {
            proof {
                assert(self.rules@.subrange(0, i + 1) =~= self.rules@.subrange(0, i as int).push(
                    self.rules@[i as int],
                ));
                self.rules@.subrange(0, i as int).lemma_filter_push(self.rules@[i as int], rule_is_active());
            }
            if self.rules[i].is_active {
                r.push(self.rules[i].clone());
            }
            i += 1;
        }
        assert(self.rules@.subrange(0, self.rules@.len() as int) =~= self.rules@);
        r
    }

    /// Fires every rule that is due at `now`, each once: the rule is marked as triggered
    /// at `now` and its next fire time is computed from `now`. Returns the actions of the
    /// fired rules, in table order.
    pub fn tick(&mut self, now: UnixSeconds) -> (r: Vec<ScheduledAction>)
        requires
            old(self).wf(),
            is_instant(now as int),
        ensures
            final(self).wf(),
            final(self).running() == old(self).running(),
            final(self)@.len() == old(self)@.len(),
            forall|i: int|
                0 <= i < old(self)@.len() ==> if is_due(old(self)@[i], now as int) {
                    is_fired(old(self)@[i], #[trigger] final(self)@[i], now)
                } else {
                    final(self)@[i] == old(self)@[i]
                },
            forall|i: int|
                0 <= i < old(self)@.len() && is_due(old(self)@[i], now as int) ==> ((
                #[trigger] final(self)@[i]).next_trigger matches Some(t) ==> t > now),
            r@ == fired_actions(old(self)@, now),
    {
        let ghost old_rules = self@;
        let mut updated: Vec<ScheduleRule> = Vec::new();
        let mut fired: Vec<ScheduledAction> = Vec::new();
        let mut i: usize = 0;
        while i < self.rules.len()
            invariant
                i <= self.rules@.len(),
                is_instant(now as int),
                self.rules@ == old_rules,
                updated@.len() == i,
                forall|j: int|
                    0 <= j < i ==> if is_due(old_rules[j], now as int) {
                        is_fired(old_rules[j], #[trigger] updated@[j], now)
                    } else {
                        updated@[j] == old_rules[j]
                    },
                forall|j: int|
                    0 <= j < i && is_due(old_rules[j], now as int) ==> ((
                    #[trigger] updated@[j]).next_trigger matches Some(t) ==> t > now),
                fired@ == fired_actions(old_rules.subrange(0, i as int), now),
            decreases self.rules.len() - i,
        {
            let rule = &self.rules[i];
            proof {
                let s = old_rules.subrange(0, i + 1);
                assert(s.drop_last() =~= old_rules.subrange(0, i as int));
                assert(s.last() == old_rules[i as int]);
            }
            let due = match rule.next_trigger {
                Some(t) => rule.is_active && t <= now,
                None => false,
            };
            if due {
                fired.push(
                    ScheduledAction {
                        rule_id: rule.id,
                        agent_id: rule.agent_id,
                        action: rule.action_template.clone(),
                        scheduled_time: now,
                    },
                );
                let res = calculate_next_trigger(&rule.schedule_type, now);
                let next = match res {
                    Ok(x) => x,
                    Err(_) => None,
                };
                let mut refired = rule.clone();
                refired.last_triggered = Some(now);
                refired.next_trigger = next;
                assert(is_next_fire(old_rules[i as int].schedule_type, now as int, lift(res)));
                updated.push(refired);
            } else {
                updated.push(rule.clone());
            }
            i += 1;
        }
        proof {
            assert(old_rules.subrange(0, old_rules.len() as int) =~= old_rules);
            assert forall|a: int, b: int| 0 <= a < b < updated@.len() implies updated@[a].id
                != updated@[b].id by {
                assert(updated@[a].id == old_rules[a].id);
                assert(updated@[b].id == old_rules[b].id);
            }
        }
        self.rules = updated;
        fired
    }

    /// Counts of all rules, the active ones, those with a pending fire time, and each type.
    pub fn get_statistics(&self) -> (r: SchedulerStatistics)
        ensures
            r.total_rules == self@.len(),
            r.active_rules == self@.filter(rule_is_active()).len(),
            r.pending_triggers == self@.filter(rule_is_pending()).len(),
            r.cron_rules == self@.filter(rule_of_kind(0)).len(),
            r.interval_rules == self@.filter(rule_of_kind(1)).len(),
            r.once_rules == self@.filter(rule_of_kind(2)).len(),
            r.daily_rules == self@.filter(rule_of_kind(3)).len(),
            r.weekly_rules == self@.filter(rule_of_kind(4)).len(),
            r.monthly_rules == self@.filter(rule_of_kind(5)).len(),
    {
        let mut st = SchedulerStatistics {
            total_rules: self.rules.len(),
            active_rules: 0,
            pending_triggers: 0,
            cron_rules: 0,
            interval_rules: 0,
            once_rules: 0,
            daily_rules: 0,
            weekly_rules: 0,
            monthly_rules: 0,
        };
        let mut i: usize = 0;
        while i < self.rules.len()
            invariant
                i <= self.rules@.len(),
                st.total_rules == self.rules@.len(),
                st.active_rules == self.rules@.subrange(0, i as int).filter(rule_is_active()).len(),
                st.pending_triggers == self.rules@.subrange(0, i as int).filter(rule_is_pending()).len(),
                st.cron_rules == self.rules@.subrange(0, i as int).filter(rule_of_kind(0)).len(),
                st.interval_rules == self.rules@.subrange(0, i as int).filter(rule_of_kind(1)).len(),
                st.once_rules == self.rules@.subrange(0, i as int).filter(rule_of_kind(2)).len(),
                st.daily_rules == self.rules@.subrange(0, i as int).filter(rule_of_kind(3)).len(),
                st.weekly_rules == self.rules@.subrange(0, i as int).filter(rule_of_kind(4)).len(),
                st.monthly_rules == self.rules@.subrange(0, i as int).filter(rule_of_kind(5)).len(),
            decreases self.rules.len() - i,
        {
            let ghost pre = self.rules@.subrange(0, i as int);
            let ghost x = self.rules@[i as int];
            proof {
                assert(self.rules@.subrange(0, i + 1) =~= pre.push(x));
                pre.lemma_filter_push(x, rule_is_active());
                pre.lemma_filter_push(x, rule_is_pending());
                pre.lemma_filter_push(x, rule_of_kind(0));
                pre.lemma_filter_push(x, rule_of_kind(1));
                pre.lemma_filter_push(x, rule_of_kind(2));
                pre.lemma_filter_push(x, rule_of_kind(3));
                pre.lemma_filter_push(x, rule_of_kind(4));
                pre.lemma_filter_push(x, rule_of_kind(5));
                pre.lemma_filter_len(rule_is_active());
                pre.lemma_filter_len(rule_is_pending());
                pre.lemma_filter_len(rule_of_kind(0));
                pre.lemma_filter_len(rule_of_kind(1));
                pre.lemma_filter_len(rule_of_kind(2));
                pre.lemma_filter_len(rule_of_kind(3));
                pre.lemma_filter_len(rule_of_kind(4));
                pre.lemma_filter_len(rule_of_kind(5));
            }
            let rule = &self.rules[i];
            if rule.is_active {
                st.active_rules = st.active_rules + 1;
                if rule.next_trigger.is_some() {
                    st.pending_triggers = st.pending_triggers + 1;
                }
            }
            match rule.schedule_type {
                ScheduleType::Cron(_) => {
                    st.cron_rules = st.cron_rules + 1;
                },
                ScheduleType::Interval(_) => {
                    st.interval_rules = st.interval_rules + 1;
                },
                ScheduleType::Once(_) => {
                    st.once_rules = st.once_rules + 1;
                },
                ScheduleType::Daily(_) => {
                    st.daily_rules = st.daily_rules + 1;
                },
                ScheduleType::Weekly(_, _) => {
                    st.weekly_rules = st.weekly_rules + 1;
                },
                ScheduleType::Monthly(_, _) => {
                    st.monthly_rules = st.monthly_rules + 1;
                },
            }
            i += 1;
        }
        assert(self.rules@.subrange(0, self.rules@.len() as int) =~= self.rules@);
        st
    }
}

} // verus!
