use vstd::prelude::*;

use crate::text::{padded, push_char, push_padded};

verus! {

/// Whether `y` is a leap year of the proleptic Gregorian calendar.
pub open spec fn leap_year(y: int) -> bool {
    (y % 4 == 0 && y % 100 != 0) || y % 400 == 0
}

pub open spec fn days_in_year(y: int) -> int {
    if leap_year(y) { 366 } else { 365 }
}

/// The length of month `m` (counted from 0 for January) of year `y`.
pub open spec fn month_length(y: int, m: int) -> int {
    if m == 1 {
        if leap_year(y) { 29 } else { 28 }
    } else if m == 3 || m == 5 || m == 8 || m == 10 {
        30
    } else {
        31
    }
}

/// Counting `days` whole days forward from 1 January of year `y`: the year
/// reached, and the day of that year (from 0) on which the count ends.
pub open spec fn year_of(y: int, days: nat) -> (int, nat)
    decreases days,
{
    if days < days_in_year(y) {
        (y, days)
    } else {
        year_of(y + 1, (days - days_in_year(y)) as nat)
    }
}

/// Counting `days` whole days forward from the first day of month `m` of year
/// `y`: the month reached (December at the latest) and the day of that month
/// (from 0) on which the count ends.
pub open spec fn month_of(y: int, m: int, days: nat) -> (int, nat)
    decreases 12 - m,
{
    if m >= 11 || days < month_length(y, m) {
        (m, days)
    } else {
        month_of(y, m + 1, (days - month_length(y, m)) as nat)
    }
}

/// `secs` seconds after 1970-01-01T00:00:00Z, written as `YYYY-MM-DDTHH:MM:SSZ`.
pub open spec fn iso_timestamp(secs: nat) -> Seq<char> {
    let days = secs / 86400;
    let time_of_day = secs % 86400;
    let (y, day_of_year) = year_of(1970, days);
    let (m, day_of_month) = month_of(y, 0, day_of_year);
    padded(y as nat, 4) + seq!['-'] + padded((m + 1) as nat, 2) + seq!['-']
        + padded(day_of_month + 1, 2) + seq!['T'] + padded(time_of_day / 3600, 2)
        + seq![':'] + padded((time_of_day % 3600) / 60, 2) + seq![':']
        + padded(time_of_day % 60, 2) + seq!['Z']
}

pub fn is_leap(y: i64) -> (r: bool)
    ensures
        r == leap_year(y as int),
{
    (y % 4 == 0 && y % 100 != 0) || y % 400 == 0
}

fn year_length(y: u64) -> (r: u64)
    requires
        y <= i64::MAX,
    ensures
        r == days_in_year(y as int),
{
    if is_leap(y as i64) { 366 } else { 365 }
}

fn month_days(y: u64, m: u64) -> (r: u64)
    requires
        y <= i64::MAX,
    ensures
        r == month_length(y as int, m as int),
{
    if m == 1 {
        if is_leap(y as i64) { 29 } else { 28 }
    } else if m == 3 || m == 5 || m == 8 || m == 10 {
        30
    } else {
        31
    }
}

/// Writes a count of seconds since the Unix epoch as an ISO 8601 UTC timestamp.
pub fn format_timestamp(secs: u64) -> (r: String)
    ensures
        r@ == iso_timestamp(secs as nat),
{
    let days = secs / 86400;
    let time_of_day = secs % 86400;
    let mut y: u64 = 1970;
    let mut rest: u64 = days;
    while rest >= year_length(y)
        invariant
            1970 <= y,
            (y - 1970) * 365 + rest <= days,
            days <= u64::MAX / 86400,
            year_of(y as int, rest as nat) == year_of(1970, days as nat),
        decreases rest,
    {
        rest = rest - year_length(y);
        y = y + 1;
    }
    let mut m: u64 = 0;
    while m < 11 && rest >= month_days(y, m)
        invariant
            m <= 11,
            y <= i64::MAX,
            rest <= u64::MAX / 86400,
            month_of(y as int, m as int, rest as nat) == month_of(y as int, 0, year_of(1970, days as nat).1),
        decreases 11 - m,
    {
        rest = rest - month_days(y, m);
        m = m + 1;
    }
    let mut out = String::new();
    push_padded(&mut out, y, 4);
    push_char(&mut out, '-');
    push_padded(&mut out, m + 1, 2);
    push_char(&mut out, '-');
    push_padded(&mut out, rest + 1, 2);
    push_char(&mut out, 'T');
    push_padded(&mut out, time_of_day / 3600, 2);
    push_char(&mut out, ':');
    push_padded(&mut out, (time_of_day % 3600) / 60, 2);
    push_char(&mut out, ':');
    push_padded(&mut out, time_of_day % 60, 2);
    push_char(&mut out, 'Z');
    out
}

/// Relies on `SystemTime::now` and `SystemTime::duration_since`: the whole
/// seconds elapsed since the Unix epoch, or 0 when the clock reads earlier.
#[verifier::external_body]
fn unix_seconds() -> (r: u64) {
    std::time::SystemTime::now()
        .duration_since(std::time::SystemTime::UNIX_EPOCH)
        .unwrap_or_default()
        .as_secs()
}

/// The current time as an ISO 8601 UTC timestamp.
pub fn chrono_now() -> (r: String)
    ensures
        exists|secs: nat| r@ == iso_timestamp(secs),
{
    let secs = unix_seconds();
    format_timestamp(secs)
}

} // verus!
