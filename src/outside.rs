//! The calls this library makes into other crates, each with the contract it relies on.

use vstd::prelude::*;

use chrono::Datelike;

use crate::calendar::{days_from_ce, is_valid_date};

verus! {

/// Relies on `uuid::Uuid::new_v4`: a random identifier, of which nothing is promised.
#[verifier::external_body]
pub(crate) fn new_uuid() -> (r: u128) {
    uuid::Uuid::new_v4().as_u128()
}

/// Relies on `chrono::Utc::now`: the current time in whole seconds since the Unix epoch.
/// It depends on the machine's clock, so nothing is promised of it.
#[verifier::external_body]
pub(crate) fn unix_now() -> (r: i64) {
    chrono::Utc::now().timestamp()
}

/// Relies on `chrono::NaiveDate::from_num_days_from_ce_opt` with `Datelike::{year, month, day}`:
/// the proleptic Gregorian date of day number `n`, 0001-01-01 being day 1.
/// Day 3652059 is 9999-12-31, so the year lies in 1 to 9999.
#[verifier::external_body]
pub(crate) fn date_of_day_number(n: i32) -> (r: Option<(i32, u32, u32)>)
    requires
        1 <= n <= 3652059,
    ensures
        r.is_some(),
        r matches Some(ymd) ==> is_valid_date(ymd.0 as int, ymd.1 as int, ymd.2 as int),
        r matches Some(ymd) ==> days_from_ce(ymd.0 as int, ymd.1 as int, ymd.2 as int) == n,
        r matches Some(ymd) ==> 1 <= ymd.0 <= 9999,
{
    match chrono::NaiveDate::from_num_days_from_ce_opt(n) {
        Some(date) => Some((date.year(), date.month(), date.day())),
        None => None,
    }
}

/// Relies on `chrono::NaiveDate::from_ymd_opt` and `Datelike::num_days_from_ce`: the day
/// number of a calendar date, 0001-01-01 being day 1, or none where the month or the day
/// does not exist. Years within 200000 of year 0 are in chrono's range.
#[verifier::external_body]
pub(crate) fn day_number_of_date(y: i32, m: u32, d: u32) -> (r: Option<i32>)
    requires
        -200000 <= y <= 200000,
    ensures
        r.is_some() <==> is_valid_date(y as int, m as int, d as int),
        r matches Some(n) ==> n == days_from_ce(y as int, m as int, d as int),
{
    match chrono::NaiveDate::from_ymd_opt(y, m, d) {
        Some(date) => Some(date.num_days_from_ce()),
        None => None,
    }
}

/// Whether `cron::Schedule::from_str` accepts the expression.
pub uninterp spec fn cron_accepts(expr: Seq<char>) -> bool;

/// What `cron::Schedule::after(t).next()` yields for the parsed expression, in seconds.
pub uninterp spec fn cron_next(expr: Seq<char>, t: int) -> Option<int>;

/// Relies on `cron::Schedule::from_str` to parse the expression and on
/// `Schedule::after(..).next()` for its first occurrence; the search of the cron crate
/// starts one second after `t`, so an occurrence lies strictly after `t`.
/// `None` where the expression does not parse.
#[verifier::external_body]
pub(crate) fn cron_next_after(expr: &str, t: i64) -> (r: Option<Option<i64>>)
    requires
        -62135596800 <= t <= 253402300799,
    ensures
        r.is_some() <==> cron_accepts(expr@),
        r matches Some(None) ==> cron_next(expr@, t as int).is_none(),
        r matches Some(Some(x)) ==> cron_next(expr@, t as int) == Some(x as int),
        r matches Some(Some(x)) ==> x > t,
{
    match <cron::Schedule as std::str::FromStr>::from_str(expr) {
        Ok(schedule) => match chrono::DateTime::from_timestamp(t, 0) {
            Some(start) => match schedule.after(&start).next() {
                Some(at) => Some(Some(at.timestamp())),
                None => Some(None),
            },
            None => None,
        },
        Err(_) => None,
    }
}

} // verus!
