//! Instants, times of day and the proleptic Gregorian calendar.
//!
//! An instant is a count of seconds since 1970-01-01T00:00:00Z, without leap
//! seconds. Days are counted from 0001-01-01, which was a Monday.

use vstd::prelude::*;

verus! {

pub const SECONDS_PER_DAY: i64 = 86400;

pub const SECONDS_PER_WEEK: i64 = 604800;

/// 0001-01-01T00:00:00Z.
pub const MIN_INSTANT: i64 = -62135596800;

/// 9999-12-31T23:59:59Z.
pub const MAX_INSTANT: i64 = 253402300799;

/// Whether `t` lies in the years 1 to 9999.
pub open spec fn is_instant(t: int) -> bool {
    MIN_INSTANT <= t <= MAX_INSTANT
}

/// Whole days from 0001-01-01 to the day of `t`.
pub open spec fn day_index(t: int) -> int {
    (t - MIN_INSTANT) / 86400
}

/// Seconds since midnight of the day of `t`.
pub open spec fn second_of_day(t: int) -> int {
    (t - MIN_INSTANT) % 86400
}

/// Day of the week of `t`, counted from Monday (0) to Sunday (6).
pub open spec fn weekday_of(t: int) -> int {
    day_index(t) % 7
}

/// The instant at `secs` seconds past midnight of day `k`.
pub open spec fn instant_at(k: int, secs: int) -> int {
    MIN_INSTANT + k * 86400 + secs
}

/// Leap years of the Gregorian calendar.
pub open spec fn is_leap_year(y: int) -> bool {
    (y % 4 == 0 && y % 100 != 0) || y % 400 == 0
}

/// Days in month `m` of year `y`.
pub open spec fn days_in_month(y: int, m: int) -> int {
    if m == 2 {
        if is_leap_year(y) {
            29
        } else {
            28
        }
    } else if m == 4 || m == 6 || m == 9 || m == 11 {
        30
    } else {
        31
    }
}

/// Whether `d` is a day of month `m` of year `y`.
pub open spec fn is_valid_date(y: int, m: int, d: int) -> bool {
    1 <= m <= 12 && 1 <= d <= days_in_month(y, m)
}

/// Days in the years before year `y`, counted from year 1.
pub open spec fn days_before_year(y: int) -> int {
    let p = y - 1;
    365 * p + p / 4 - p / 100 + p / 400
}

/// Days in the months of year `y` before month `m`.
pub open spec fn days_before_month(y: int, m: int) -> int {
    let common = if m == 1 {
        0int
    } else if m == 2 {
        31
    } else if m == 3 {
        59
    } else if m == 4 {
        90
    } else if m == 5 {
        120
    } else if m == 6 {
        151
    } else if m == 7 {
        181
    } else if m == 8 {
        212
    } else if m == 9 {
        243
    } else if m == 10 {
        273
    } else if m == 11 {
        304
    } else {
        334
    };
    if m > 2 && is_leap_year(y) {
        common + 1
    } else {
        common
    }
}

/// The day's number counted from 0001-01-01 as day 1.
pub open spec fn days_from_ce(y: int, m: int, d: int) -> int {
    days_before_year(y) + days_before_month(y, m) + d
}

/// The month after month `m` of year `y`.
pub open spec fn next_month(y: int, m: int) -> (int, int) {
    if m == 12 {
        (y + 1, 1)
    } else {
        (y, m + 1)
    }
}

/// A year has 366 days if it is a leap year, else 365.
proof fn lemma_year_length(y: int)
    ensures
        days_before_year(y + 1) - days_before_year(y) == if is_leap_year(y) {
            366int
        } else {
            365int
        },
{
    let p = y - 1;
    assert(y / 4 - p / 4 == if y % 4 == 0 { 1int } else { 0int });
    assert(y / 100 - p / 100 == if y % 100 == 0 { 1int } else { 0int });
    assert(y / 400 - p / 400 == if y % 400 == 0 { 1int } else { 0int });
    if y % 100 == 0 {
        assert(y % 4 == 0);
    }
}

/// A date of the following month comes later than any date of this one.
pub proof fn lemma_next_month_later(y: int, m: int, d: int, day: int)
    requires
        is_valid_date(y, m, d),
        is_valid_date(next_month(y, m).0, next_month(y, m).1, day),
    ensures
        days_from_ce(next_month(y, m).0, next_month(y, m).1, day) > days_from_ce(y, m, d),
{
    if m == 12 {
        lemma_year_length(y);
    }
}

/// The date of day number `n`, 0001-01-01 being day 1.
pub open spec fn date_of(n: int) -> (int, int, int) {
    choose|ymd: (int, int, int)| is_valid_date(ymd.0, ymd.1, ymd.2) && days_from_ce(ymd.0, ymd.1, ymd.2) == n
}

proof fn lemma_day_in_year(y: int, m: int, d: int)
    requires
        is_valid_date(y, m, d),
    ensures
        days_before_year(y) < days_from_ce(y, m, d) <= days_before_year(y + 1),
{
    lemma_year_length(y);
}

proof fn lemma_years_ordered(a: int, b: int)
    requires
        a <= b,
    ensures
        days_before_year(a) <= days_before_year(b),
    decreases b - a,
{
    if a < b {
        lemma_years_ordered(a, b - 1);
        lemma_year_length(b - 1);
    }
}

/// Distinct dates have distinct day numbers.
pub proof fn lemma_day_number_injective(y1: int, m1: int, d1: int, y2: int, m2: int, d2: int)
    requires
        is_valid_date(y1, m1, d1),
        is_valid_date(y2, m2, d2),
        days_from_ce(y1, m1, d1) == days_from_ce(y2, m2, d2),
    ensures
        y1 == y2 && m1 == m2 && d1 == d2,
{
    lemma_day_in_year(y1, m1, d1);
    lemma_day_in_year(y2, m2, d2);
    if y1 < y2 {
        lemma_years_ordered(y1 + 1, y2);
    } else if y2 < y1 {
        lemma_years_ordered(y2 + 1, y1);
    } else {
        assert(m1 == m2);
    }
}

/// `date_of` gives back the date of a day number.
pub proof fn lemma_date_of(y: int, m: int, d: int)
    requires
        is_valid_date(y, m, d),
    ensures
        date_of(days_from_ce(y, m, d)) == (y, m, d),
{
    let n = days_from_ce(y, m, d);
    assert(is_valid_date((y, m, d).0, (y, m, d).1, (y, m, d).2) && days_from_ce((y, m, d).0, (y, m, d).1, (y, m, d).2) == n);
    let c = date_of(n);
    lemma_day_number_injective(c.0, c.1, c.2, y, m, d);
}

/// A time of day, to the second.
#[derive(Debug, Clone, Copy, PartialEq, Eq, Structural)]
pub struct TimeOfDay {
    pub hour: u32,
    pub minute: u32,
    pub second: u32,
}

impl TimeOfDay {
    pub open spec fn wf(&self) -> bool {
        self.hour < 24 && self.minute < 60 && self.second < 60
    }

    /// Seconds since midnight.
    pub open spec fn secs(&self) -> int {
        self.hour * 3600 + self.minute * 60 + self.second
    }

    /// The time `hour:minute:second`, if each part is in range.
    pub fn new(hour: u32, minute: u32, second: u32) -> (r: Option<TimeOfDay>)
        ensures
            r.is_some() <==> (hour < 24 && minute < 60 && second < 60),
            r matches Some(t) ==> t.wf() && t.hour == hour && t.minute == minute && t.second
                == second,
    {
        if hour < 24 && minute < 60 && second < 60 {
            Some(TimeOfDay { hour, minute, second })
        } else {
            None
        }
    }

    /// Seconds since midnight.
    pub fn seconds(&self) -> (r: i64)
        requires
            self.wf(),
        ensures
            r == self.secs(),
            0 <= r < 86400,
    {
        (self.hour * 3600 + self.minute * 60 + self.second) as i64
    }
}

/// Days of the week.
#[derive(Debug, Clone, Copy, PartialEq, Eq, Structural)]
pub enum Weekday {
    Mon,
    Tue,
    Wed,
    Thu,
    Fri,
    Sat,
    Sun,
}

impl Weekday {
    pub open spec fn index(&self) -> int {
        match self {
            Weekday::Mon => 0,
            Weekday::Tue => 1,
            Weekday::Wed => 2,
            Weekday::Thu => 3,
            Weekday::Fri => 4,
            Weekday::Sat => 5,
            Weekday::Sun => 6,
        }
    }

    /// Days since the Monday of the same week.
    pub fn num_days_from_monday(&self) -> (r: u32)
        ensures
            r == self.index(),
    {
        match self {
            Weekday::Mon => 0,
            Weekday::Tue => 1,
            Weekday::Wed => 2,
            Weekday::Thu => 3,
            Weekday::Fri => 4,
            Weekday::Sat => 5,
            Weekday::Sun => 6,
        }
    }
}

/// Day index and second of the day of an instant.
pub fn split_instant(t: i64) -> (r: (i64, i64))
    requires
        is_instant(t as int),
    ensures
        r.0 == day_index(t as int),
        r.1 == second_of_day(t as int),
        0 <= r.0 <= 3652058,
        0 <= r.1 < 86400,
        t == instant_at(r.0 as int, r.1 as int),
{
    let s = (t - MIN_INSTANT) as u64;
    let k = s / 86400;
    let sec = s % 86400;
    (k as i64, sec as i64)
}

} // verus!
