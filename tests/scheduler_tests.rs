use agent_space::calendar::{TimeOfDay, Weekday};
use agent_space::error::{AgentSpaceError, ScheduleError};
use agent_space::scheduler::{calculate_next_trigger, AgentScheduler, ScheduleRule, ScheduleType};
use agent_space::types::{ActionType, AgentAction};

fn days_from_civil(y: i64, m: i64, d: i64) -> i64 {
    let y = if m <= 2 { y - 1 } else { y };
    let era = if y >= 0 { y } else { y - 399 } / 400;
    let yoe = y - era * 400;
    let mp = (m + 9) % 12;
    let doy = (153 * mp + 2) / 5 + d - 1;
    let doe = yoe * 365 + yoe / 4 - yoe / 100 + doy;
    era * 146097 + doe - 719468
}

fn at(y: i64, m: i64, d: i64, h: i64, min: i64) -> i64 {
    days_from_civil(y, m, d) * 86400 + h * 3600 + min * 60
}

fn hm(h: u32, m: u32) -> TimeOfDay {
    TimeOfDay::new(h, m, 0).unwrap()
}

#[test]
fn daily_after_time_rolls_to_tomorrow() {
    let r = calculate_next_trigger(&ScheduleType::Daily(hm(9, 0)), at(2024, 1, 1, 10, 0));
    assert_eq!(r, Ok(Some(at(2024, 1, 2, 9, 0))));
}

#[test]
fn daily_before_time_fires_today() {
    let r = calculate_next_trigger(&ScheduleType::Daily(hm(9, 0)), at(2024, 1, 1, 8, 0));
    assert_eq!(r, Ok(Some(at(2024, 1, 1, 9, 0))));
}

#[test]
fn daily_at_exact_time_rolls_to_tomorrow() {
    let r = calculate_next_trigger(&ScheduleType::Daily(hm(9, 0)), at(2024, 1, 1, 9, 0));
    assert_eq!(r, Ok(Some(at(2024, 1, 2, 9, 0))));
}

#[test]
fn daily_before_epoch() {
    let r = calculate_next_trigger(&ScheduleType::Daily(hm(0, 30)), at(1969, 12, 31, 23, 0));
    assert_eq!(r, Ok(Some(at(1970, 1, 1, 0, 30))));
}

#[test]
fn monthly_31_in_february_rolls_to_march() {
    let r = calculate_next_trigger(&ScheduleType::Monthly(31, hm(0, 0)), at(2024, 2, 10, 12, 0));
    assert_eq!(r, Ok(Some(at(2024, 3, 31, 0, 0))));
}

#[test]
fn monthly_31_after_january_31_skips_february() {
    let r = calculate_next_trigger(&ScheduleType::Monthly(31, hm(0, 0)), at(2024, 1, 31, 10, 0));
    assert_eq!(r, Ok(Some(at(2024, 3, 31, 0, 0))));
}

#[test]
fn monthly_same_month_when_ahead() {
    let r = calculate_next_trigger(&ScheduleType::Monthly(15, hm(8, 30)), at(2024, 4, 2, 12, 0));
    assert_eq!(r, Ok(Some(at(2024, 4, 15, 8, 30))));
}

#[test]
fn monthly_december_rolls_into_next_year() {
    let r = calculate_next_trigger(&ScheduleType::Monthly(5, hm(6, 0)), at(2023, 12, 20, 0, 0));
    assert_eq!(r, Ok(Some(at(2024, 1, 5, 6, 0))));
}

#[test]
fn monthly_29_february_of_leap_year() {
    let r = calculate_next_trigger(&ScheduleType::Monthly(29, hm(0, 0)), at(2024, 1, 30, 0, 0));
    assert_eq!(r, Ok(Some(at(2024, 2, 29, 0, 0))));
}

#[test]
fn monthly_impossible_day_fails() {
    let r = calculate_next_trigger(&ScheduleType::Monthly(32, hm(0, 0)), at(2024, 1, 1, 0, 0));
    assert_eq!(r, Err(ScheduleError::InvalidMonthlyDay(32)));
    let r = calculate_next_trigger(&ScheduleType::Monthly(0, hm(0, 0)), at(2024, 1, 1, 0, 0));
    assert_eq!(r, Err(ScheduleError::InvalidMonthlyDay(0)));
}

#[test]
fn once_in_past_has_no_trigger() {
    let now = at(2024, 1, 1, 10, 0);
    assert_eq!(calculate_next_trigger(&ScheduleType::Once(now - 1), now), Ok(None));
    assert_eq!(calculate_next_trigger(&ScheduleType::Once(now), now), Ok(None));
    assert_eq!(calculate_next_trigger(&ScheduleType::Once(now + 5), now), Ok(Some(now + 5)));
}

#[test]
fn interval_adds_duration() {
    let now = at(2024, 1, 1, 10, 0);
    assert_eq!(calculate_next_trigger(&ScheduleType::Interval(90), now), Ok(Some(now + 90)));
    assert_eq!(
        calculate_next_trigger(&ScheduleType::Interval(0), now),
        Err(ScheduleError::InvalidInterval)
    );
    assert_eq!(
        calculate_next_trigger(&ScheduleType::Interval(u64::MAX), now),
        Err(ScheduleError::OutOfRange)
    );
}

#[test]
fn weekly_same_day_before_and_after() {
    // 2024-01-01 was a Monday.
    let t = hm(9, 0);
    assert_eq!(
        calculate_next_trigger(&ScheduleType::Weekly(Weekday::Mon, t), at(2024, 1, 1, 8, 0)),
        Ok(Some(at(2024, 1, 1, 9, 0)))
    );
    assert_eq!(
        calculate_next_trigger(&ScheduleType::Weekly(Weekday::Mon, t), at(2024, 1, 1, 10, 0)),
        Ok(Some(at(2024, 1, 8, 9, 0)))
    );
    assert_eq!(
        calculate_next_trigger(&ScheduleType::Weekly(Weekday::Wed, t), at(2024, 1, 1, 10, 0)),
        Ok(Some(at(2024, 1, 3, 9, 0)))
    );
    assert_eq!(
        calculate_next_trigger(&ScheduleType::Weekly(Weekday::Sun, t), at(2024, 1, 6, 23, 0)),
        Ok(Some(at(2024, 1, 7, 9, 0)))
    );
}

#[test]
fn invalid_time_of_day_fails() {
    let bad = TimeOfDay { hour: 24, minute: 0, second: 0 };
    assert!(TimeOfDay::new(24, 0, 0).is_none());
    assert_eq!(
        calculate_next_trigger(&ScheduleType::Daily(bad), at(2024, 1, 1, 0, 0)),
        Err(ScheduleError::InvalidTime)
    );
}

#[test]
fn cron_first_occurrence_after_now() {
    let r = calculate_next_trigger(&ScheduleType::Cron("0 0 9 * * *".to_string()), at(2024, 1, 1, 10, 0));
    assert_eq!(r, Ok(Some(at(2024, 1, 2, 9, 0))));
    let r = calculate_next_trigger(&ScheduleType::Cron("0 0 9 * * *".to_string()), at(2024, 1, 1, 9, 0));
    assert_eq!(r, Ok(Some(at(2024, 1, 2, 9, 0))));
    let r = calculate_next_trigger(&ScheduleType::Cron("0 30 * * * *".to_string()), at(2024, 1, 1, 10, 0));
    assert_eq!(r, Ok(Some(at(2024, 1, 1, 10, 30))));
}

#[test]
fn cron_invalid_expression_fails() {
    let r = calculate_next_trigger(&ScheduleType::Cron("not a cron".to_string()), at(2024, 1, 1, 10, 0));
    assert_eq!(r, Err(ScheduleError::InvalidCron));
}

fn template(agent: u128) -> AgentAction {
    AgentAction::new(agent, ActionType::ReadData("inbox".to_string()), "{}".to_string())
}

#[test]
fn rule_fires_once_per_tick_and_advances() {
    let mut s = AgentScheduler::new();
    s.start();
    let now = at(2024, 1, 1, 8, 0);
    let rule = ScheduleRule::new(7, "morning".to_string(), ScheduleType::Daily(hm(9, 0)), template(7));
    let id = s.add_rule_at(7, rule, now).unwrap();
    let rules = s.get_agent_rules(7);
    assert_eq!(rules.len(), 1);
    assert_eq!(rules[0].next_trigger, Some(at(2024, 1, 1, 9, 0)));

    assert!(s.tick(at(2024, 1, 1, 8, 59)).is_empty());
    let fire = at(2024, 1, 1, 9, 0);
    let fired = s.tick(fire);
    assert_eq!(fired.len(), 1);
    assert_eq!(fired[0].rule_id, id);
    assert_eq!(fired[0].agent_id, 7);
    assert_eq!(fired[0].scheduled_time, fire);
    let rules = s.get_active_rules();
    assert_eq!(rules[0].last_triggered, Some(fire));
    assert_eq!(rules[0].next_trigger, Some(at(2024, 1, 2, 9, 0)));
    assert!(s.tick(fire).is_empty());
}

#[test]
fn rule_table_operations() {
    let mut s = AgentScheduler::new();
    let now = at(2024, 1, 1, 8, 0);
    let bad = ScheduleRule::new(1, "bad".to_string(), ScheduleType::Cron("nope".to_string()), template(1));
    assert_eq!(s.add_rule_at(1, bad, now), Err(AgentSpaceError::Schedule(ScheduleError::InvalidCron)));
    assert_eq!(s.get_statistics().total_rules, 0);

    let once = ScheduleRule::new(1, "once".to_string(), ScheduleType::Once(now + 60), template(1));
    let once_id = once.id;
    s.add_rule_at(1, once, now).unwrap();
    let other = ScheduleRule::new(2, "daily".to_string(), ScheduleType::Daily(hm(9, 0)), template(2));
    let other_id = other.id;
    s.add_rule_at(2, other, now).unwrap();

    assert_eq!(s.set_rule_active_at(once_id, false, now), Ok(()));
    let stats = s.get_statistics();
    assert_eq!(stats.total_rules, 2);
    assert_eq!(stats.active_rules, 1);
    assert_eq!(stats.pending_triggers, 1);
    assert_eq!(stats.once_rules, 1);
    assert_eq!(stats.daily_rules, 1);
    assert_eq!(s.get_active_rules().len(), 1);

    // The once rule fires once, then stays dormant.
    assert_eq!(s.set_rule_active_at(once_id, true, now), Ok(()));
    let fired = s.tick(now + 60);
    assert_eq!(fired.len(), 1);
    assert_eq!(fired[0].rule_id, once_id);
    let rules = s.get_agent_rules(1);
    assert_eq!(rules[0].next_trigger, None);
    assert!(rules[0].is_active);

    assert_eq!(s.remove_rule(other_id), Ok(()));
    assert_eq!(s.remove_rule(other_id), Err(AgentSpaceError::NotFound(other_id)));
    assert_eq!(s.set_rule_active_at(other_id, true, now), Err(AgentSpaceError::NotFound(other_id)));
    let ghost = ScheduleRule::new(3, "ghost".to_string(), ScheduleType::Interval(5), template(3));
    let ghost_id = ghost.id;
    assert_eq!(s.update_rule_at(ghost, now), Err(AgentSpaceError::NotFound(ghost_id)));
}

#[test]
fn rules_evaluated_at_the_current_time() {
    let mut s = AgentScheduler::new();
    let rule = ScheduleRule::new(4, "tick".to_string(), ScheduleType::Interval(3600), template(4));
    let id = rule.id;
    assert_eq!(s.add_rule(4, rule), Ok(id));
    let next = s.get_agent_rules(4)[0].next_trigger.unwrap();
    assert!(next > 1_700_000_000);
    let mut changed = s.get_agent_rules(4).remove(0);
    changed.schedule_type = ScheduleType::Once(1);
    assert_eq!(s.update_rule(changed), Ok(()));
    assert_eq!(s.get_agent_rules(4)[0].next_trigger, None);
    assert_eq!(s.set_rule_active(id, false), Ok(()));
    assert!(!s.get_agent_rules(4)[0].is_active);
}
