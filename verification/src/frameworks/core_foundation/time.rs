//! Time: `CFAbsoluteTime` and time zones.
//!
//! Absolute times are `f64` seconds; the float arithmetic on them is done
//! by the caller. Here are the constant, the time-zone answers (times are
//! passed by their bit pattern) and the Gregorian calendar on whole
//! seconds since the Unix epoch.

use vstd::prelude::*;
use super::CFTypeRef;
use crate::environment::Environment;
use crate::objc::nil;

verus! {

/// Seconds between the Unix epoch and Apple's reference date
/// (1 January 2001, 00:00:00 GMT).
pub const SECS_FROM_UNIX_TO_APPLE_EPOCHS: u64 = 978_307_200;

pub type CFTimeZoneRef = CFTypeRef;

/// A `CFAbsoluteTime` by its bit pattern.
pub type CFAbsoluteTimeBits = u64;

/// `CFTimeZoneCopySystem`: null, which stands for GMT.
pub fn CFTimeZoneCopySystem(env: &mut Environment) -> (r: CFTimeZoneRef)
    ensures
        *final(env) == *old(env),
        r == nil,
{
    nil
}

/// `CFTimeZoneGetSecondsFromGMT`: 0, every zone being taken as GMT.
pub fn CFTimeZoneGetSecondsFromGMT(env: &mut Environment, tz: CFTimeZoneRef, at: CFAbsoluteTimeBits) -> (r: i32)
    ensures
        *final(env) == *old(env),
        r == 0,
{
    0
}

/// `CFTimeZoneGetName`: null.
pub fn CFTimeZoneGetName(env: &mut Environment, tz: CFTimeZoneRef) -> (r: CFTypeRef)
    ensures
        *final(env) == *old(env),
        r == nil,
{
    nil
}

/// `CFTimeZoneIsDaylightSavingTime`: never.
pub fn CFTimeZoneIsDaylightSavingTime(env: &mut Environment, tz: CFTimeZoneRef, at: CFAbsoluteTimeBits) -> (r: bool)
    ensures
        *final(env) == *old(env),
        !r,
{
    false
}

/// `CFAbsoluteTimeGetSecondsSinceReferenceDate`: the time itself.
pub fn CFAbsoluteTimeGetSecondsSinceReferenceDate(env: &mut Environment, at: CFAbsoluteTimeBits) -> (r: CFAbsoluteTimeBits)
    ensures
        *final(env) == *old(env),
        r == at,
{
    at
}

/// Whether `y` is a leap year of the Gregorian calendar.
pub open spec fn is_leap_year(y: int) -> bool {
    y % 4 == 0 && (y % 100 != 0 || y % 400 == 0)
}

/// The number of days in the year `y`.
pub open spec fn days_in_year(y: int) -> int {
    if is_leap_year(y) { 366 } else { 365 }
}

/// The number of days in month `m` (1 to 12) of the year `y`.
pub open spec fn days_in_month(y: int, m: int) -> int {
    if m == 2 {
        if is_leap_year(y) { 29 } else { 28 }
    } else if m == 4 || m == 6 || m == 9 || m == 11 {
        30
    } else {
        31
    }
}

/// Days from 1 January 1970 to 1 January of the year `y` (from 1970 on).
pub open spec fn days_before_year(y: int) -> int
    decreases y - 1970,
{
    if y <= 1970 { 0 } else { days_before_year(y - 1) + days_in_year(y - 1) }
}

/// Days from 1 January to the first of month `m` of the year `y`.
pub open spec fn days_before_month(y: int, m: int) -> int
    decreases m,
{
    if m <= 1 { 0 } else { days_before_month(y, m - 1) + days_in_month(y, m - 1) }
}

/// A moment of the Gregorian calendar in GMT, to the second.
pub struct CalendarTime {
    pub year: i64,
    pub month: i8,
    pub day: i8,
    pub hours: i8,
    pub minutes: i8,
    pub seconds: i8,
}

/// `t` is a valid moment, and it lies `secs` seconds after 1 January 1970,
/// 00:00:00 GMT.
pub open spec fn is_calendar_time_of(t: CalendarTime, secs: int) -> bool {
    &&& 1970 <= t.year
    &&& 1 <= t.month <= 12
    &&& 1 <= t.day <= days_in_month(t.year as int, t.month as int)
    &&& 0 <= t.hours < 24
    &&& 0 <= t.minutes < 60
    &&& 0 <= t.seconds < 60
    &&& secs == 86400 * (days_before_year(t.year as int) + days_before_month(t.year as int, t.month as int) + t.day - 1)
        + 3600 * t.hours + 60 * t.minutes + t.seconds
}

/// The twelve months make up the year.
proof fn lemma_months_fill_year(y: int)
    ensures
        days_before_month(y, 13) == days_in_year(y),
{
    reveal_with_fuel(days_before_month, 13);
}

/// No day of a month lies past the month's end in the Gregorian calendar:
/// April, June, September and November have 30 days, February 28, or 29
/// in a leap year (one divisible by 4 and not by 100, or by 400), and the
/// other months 31.
pub proof fn law_calendar_month_lengths(t: CalendarTime, secs: int)
    requires
        is_calendar_time_of(t, secs),
    ensures
        1 <= t.day <= 31,
        t.month == 4 || t.month == 6 || t.month == 9 || t.month == 11 ==> t.day <= 30,
        t.month == 2 ==> t.day <= 29,
        t.month == 2 && t.day == 29 ==> t.year % 4 == 0 && (t.year % 100 != 0 || t.year % 400 == 0),
{
}

/// The day of the year of a moment: the whole days since 1 January of its
/// year are those of the months before (0, 31, 59, 90, 120, 151, 181, 212,
/// 243, 273, 304 and 334 days, one more from March on in a leap year) and
/// of the month up to the day before; so the moment a day after 30 April
/// is 1 May.
pub proof fn law_calendar_day_of_year(t: CalendarTime, secs: int)
    requires
        is_calendar_time_of(t, secs),
    ensures
        secs / 86400 - days_before_year(t.year as int)
            == seq![0int, 31, 59, 90, 120, 151, 181, 212, 243, 273, 304, 334][t.month - 1]
            + (if t.month > 2 && t.year % 4 == 0 && (t.year % 100 != 0 || t.year % 400 == 0) { 1int } else { 0int })
            + t.day - 1,
        secs % 86400 == 3600 * t.hours + 60 * t.minutes + t.seconds,
{
    reveal_with_fuel(days_before_month, 13);
    let d = days_before_year(t.year as int) + days_before_month(t.year as int, t.month as int) + t.day - 1;
    let h = 3600 * t.hours + 60 * t.minutes + t.seconds;
    assert(0 <= h < 86400);
    assert(secs == 86400 * d + h);
    assert(secs / 86400 == d && secs % 86400 == h) by (nonlinear_arith)
        requires
            secs == 86400 * d + h,
            0 <= h < 86400,
    ;
}

/// The calendar counts from 1 January 1970, and each year from 1970 on
/// has 365 days, or 366 when it is a leap year (divisible by 4 and not by
/// 100, or by 400).
pub proof fn law_calendar_year_lengths(y: int)
    requires
        y >= 1970,
    ensures
        days_before_year(1970) == 0,
        days_before_year(y + 1) - days_before_year(y)
            == if y % 4 == 0 && (y % 100 != 0 || y % 400 == 0) { 366int } else { 365int },
{
}

/// Computes [days_in_year].
fn year_length(y: u64) -> (r: u64)
    ensures
        r == days_in_year(y as int),
{
    if y % 4 == 0 && (y % 100 != 0 || y % 400 == 0) { 366 } else { 365 }
}

/// Computes [days_in_month].
fn month_length(y: u64, m: u64) -> (r: u64)
    ensures
        r == days_in_month(y as int, m as int),
{
    if m == 2 {
        if y % 4 == 0 && (y % 100 != 0 || y % 400 == 0) { 29 } else { 28 }
    } else if m == 4 || m == 6 || m == 9 || m == 11 {
        30
    } else {
        31
    }
}

/// The calendar date and time in GMT that lies `secs` seconds after
/// 1 January 1970, 00:00:00 (what `CFAbsoluteTimeGetGregorianDate` reports
/// once the caller has turned its absolute time into whole seconds since
/// the Unix epoch).
pub fn calendar_time_of(secs: u64) -> (r: CalendarTime)
    ensures
        is_calendar_time_of(r, secs as int),
{
    let total = secs / 86400;
    let rem = secs % 86400;
    let mut days = total;
    let mut year: u64 = 1970;
    while days >= year_length(year)
        invariant
            1970 <= year,
            year - 1970 <= days_before_year(year as int),
            days_before_year(year as int) + days == total,
            total == secs / 86400,
        decreases days,
    {
        let n = year_length(year);
        days = days - n;
        year = year + 1;
    }
    let ghost in_year = days;
    proof {
        lemma_months_fill_year(year as int);
    }
    let mut month: u64 = 1;
    while days >= month_length(year, month)
        invariant
            1 <= month <= 12,
            days_before_month(year as int, month as int) + days == in_year,
            in_year < days_in_year(year as int),
            days_before_month(year as int, 13) == days_in_year(year as int),
        decreases 12 - month,
    {
        let n = month_length(year, month);
        days = days - n;
        if month == 12 {
            proof {
                assert(days_before_month(year as int, 13) == days_before_month(year as int, 12) + days_in_month(year as int, 12));
            }
        }
        month = month + 1;
    }
    proof {
        assert(year <= 1970 + total);
        assert(total <= u64::MAX / 86400);
    }
    CalendarTime {
        year: year as i64,
        month: month as i8,
        day: (days + 1) as i8,
        hours: (rem / 3600) as i8,
        minutes: ((rem % 3600) / 60) as i8,
        seconds: (rem % 60) as i8,
    }
}

} // verus!
