//! Calendar arithmetic and the clock.
//!
//! The library holds dates as proleptic-Gregorian day numbers (day 1 =
//! January 1 of year 1) and instants as absolute minutes (day number
//! times 1440 plus the minute of the day).  What only the calendar
//! library can compute — turning a year/month/day into a day number
//! and a weekday, and reading the clock — is wrapped here as trusted
//! calls into chrono; everything downstream works on the plain
//! numbers and is verified.

use vstd::prelude::*;

verus! {

/// Minutes in a day.
pub const MINUTES_PER_DAY: i64 = 1440;

/// Day numbers of every date chrono can represent fit well within
/// this bound (its year range is about ±262000, under 96 million
/// days).
pub const MAX_DAY_NUMBER: i64 = 100_000_000;

/// Bound on absolute minutes: `MAX_DAY_NUMBER * 1440` with headroom.
pub const MAX_INSTANT: i64 = 150_000_000_000;

/// The leap-year rule of the proleptic Gregorian calendar.
pub open spec fn is_leap_year(y: int) -> bool {
    y % 4 == 0 && (y % 100 != 0 || y % 400 == 0)
}

/// Days in a month of the proleptic Gregorian calendar.
pub open spec fn days_in_month(y: int, m: int) -> int {
    if m == 2 {
        if is_leap_year(y) {
            29
        } else {
            28
        }
    } else if m == 4 || m == 6 || m == 9 || m == 11 {
        30
    } else {
        31
    }
}

/// The dates chrono accepts: a real calendar day within its year
/// range of -262143 to 262142.
pub open spec fn valid_ymd(y: int, m: int, d: int) -> bool {
    &&& -262143 <= y <= 262142
    &&& 1 <= m <= 12
    &&& 1 <= d <= days_in_month(y, m)
}

/// The proleptic-Gregorian day number of a calendar date (day 1 =
/// January 1 of year 1), as chrono's `num_days_from_ce` counts it.
pub uninterp spec fn day_number_of(y: int, m: int, d: int) -> int;

/// The weekday index of a calendar date, counted from Sunday = 0, as
/// chrono's `Weekday::num_days_from_sunday` counts it.
pub uninterp spec fn weekday_index_of(y: int, m: int, d: int) -> int;

/// Relies on chrono's `NaiveDate::from_ymd_opt` (documented to return
/// `None` exactly on a nonexistent calendar day or an out-of-range
/// year), `Datelike::num_days_from_ce` (the day number, bounded by
/// chrono's year range and positive from year 1 on) and
/// `Datelike::weekday` with `Weekday::num_days_from_sunday`
/// (documented to range over 0 to 6).  Both results depend on the
/// arguments alone.
#[verifier::external_body]
pub fn resolve_ymd(year: i32, month: u32, day: u32) -> (r: Option<(i64, u8)>)
    ensures
        r is Some <==> valid_ymd(year as int, month as int, day as int),
        r matches Some(p) ==> {
            &&& p.0 == day_number_of(year as int, month as int, day as int)
            &&& p.1 == weekday_index_of(year as int, month as int, day as int)
            &&& p.1 < 7
            &&& -MAX_DAY_NUMBER <= p.0 <= MAX_DAY_NUMBER
            &&& year >= 1 ==> p.0 >= 1
        },
{
    let date = chrono::NaiveDate::from_ymd_opt(year, month, day)?;
    let days = chrono::Datelike::num_days_from_ce(&date) as i64;
    let weekday = chrono::Datelike::weekday(&date).num_days_from_sunday() as u8;
    Some((days, weekday))
}

/// Relies on chrono's `Local::now`: the local calendar day and the
/// second of that day.  The result depends on the system clock and
/// time zone, so nothing relates it to anything else; only the bounds
/// that chrono's date and time types themselves guarantee are stated
/// (`num_days_from_ce` is bounded by the representable year range,
/// `num_seconds_from_midnight` by 0 to 86399).  The call does not
/// return normally on a platform clock set before the Unix epoch,
/// which `Local::now` itself refuses.
#[verifier::external_body]
pub fn clock_now() -> (r: (i64, i64))
    ensures
        -MAX_DAY_NUMBER <= r.0 <= MAX_DAY_NUMBER,
        0 <= r.1 < 86400,
{
    let now = chrono::Local::now().naive_local();
    let days = chrono::Datelike::num_days_from_ce(&now.date()) as i64;
    let seconds = chrono::Timelike::num_seconds_from_midnight(&now.time()) as i64;
    (days, seconds)
}

/// The current day number and the current instant in absolute
/// minutes.  The two are consistent: the instant falls within the
/// returned day.
pub fn now_instant() -> (r: (i64, i64))
    ensures
        -MAX_DAY_NUMBER <= r.0 <= MAX_DAY_NUMBER,
        -MAX_INSTANT <= r.1 <= MAX_INSTANT,
        r.0 * 1440 <= r.1 < r.0 * 1440 + 1440,
{
    let (day, seconds) = clock_now();
    let minute = seconds / 60;
    (day, day * 1440 + minute)
}

/// The lab week a day falls in: whole weeks since the semester start
/// (rounded toward minus infinity), counted from 1, shifted by the
/// subcourse's lag.
pub open spec fn spec_week_number(today: int, sem_start: int, lag_week: int) -> int {
    (today - sem_start) / 7 + 1 + lag_week
}

/// Computes the lab week, or `None` when the shifted week leaves the
/// machine range.
pub fn week_number(today: i64, sem_start: i64, lag_week: i64) -> (r: Option<i64>)
    requires
        -MAX_DAY_NUMBER <= today <= MAX_DAY_NUMBER,
        -MAX_DAY_NUMBER <= sem_start <= MAX_DAY_NUMBER,
    ensures
        r matches Some(w) ==> w == spec_week_number(today as int, sem_start as int, lag_week as int),
        r is None ==> !(i64::MIN <= spec_week_number(
            today as int,
            sem_start as int,
            lag_week as int,
        ) <= i64::MAX),
{
    let diff = today - sem_start;
    let weeks: i64 = if diff >= 0 {
        diff / 7
    } else {
        -((-diff + 6) / 7)
    };
    proof {
        assert(weeks == (today - sem_start) / 7) by (nonlinear_arith)
            requires
                diff == today - sem_start,
                -300_000_000 <= diff <= 300_000_000,
                weeks == if diff >= 0 {
                    (diff as int) / 7
                } else {
                    -(((-diff + 6) as int) / 7)
                },
        ;
    }
    match (weeks + 1).checked_add(lag_week) {
        Some(w) => Some(w),
        None => None,
    }
}

} // verus!
