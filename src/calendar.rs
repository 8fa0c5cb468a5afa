//! The proleptic Gregorian calendar as plain values, and the calendar
//! primitives of chrono that the resolver builds on.

use chrono::{Datelike, Days, Months, NaiveDate, NaiveTime, TimeDelta, Timelike};
use vstd::prelude::*;

verus! {

/// The earliest year that a date may have.
pub const MIN_YEAR: i32 = -262143;

/// The latest year that a date may have.
pub const MAX_YEAR: i32 = 262142;

/// The largest number of seconds that one shift of an instant may cover.
pub const MAX_SHIFT_SECONDS: i64 = 9_223_372_036_854_775;

/// A calendar date: year, month (1 to 12) and day of the month (from 1).
#[derive(Clone, Copy, Debug, PartialEq, Eq, Structural)]
pub struct CivilDate {
    pub year: i32,
    pub month: u32,
    pub day: u32,
}

/// A time of day, without leap seconds.
#[derive(Clone, Copy, Debug, PartialEq, Eq, Structural)]
pub struct TimeOfDay {
    pub hour: u32,
    pub minute: u32,
    pub second: u32,
    pub nanosecond: u32,
}

/// A date together with a time of day, in no particular time zone.
#[derive(Clone, Copy, Debug, PartialEq, Eq, Structural)]
pub struct LocalDateTime {
    pub date: CivilDate,
    pub time: TimeOfDay,
}

pub open spec fn is_leap_year(y: int) -> bool {
    y % 4 == 0 && (y % 100 != 0 || y % 400 == 0)
}

pub open spec fn days_in_month(y: int, m: int) -> int {
    if m == 2 {
        if is_leap_year(y) {
            29
        } else {
            28
        }
    } else if m == 4 || m == 6 || m == 9 || m == 11 {
        30
    } else {
        31
    }
}

/// Days of the year `y` that come before the first of month `m`.
pub open spec fn days_before_month(y: int, m: int) -> int {
    let common: int = if m <= 1 {
        0
    } else if m == 2 {
        31
    } else if m == 3 {
        59
    } else if m == 4 {
        90
    } else if m == 5 {
        120
    } else if m == 6 {
        151
    } else if m == 7 {
        181
    } else if m == 8 {
        212
    } else if m == 9 {
        243
    } else if m == 10 {
        273
    } else if m == 11 {
        304
    } else {
        334
    };
    common + if m > 2 && is_leap_year(y) {
        1int
    } else {
        0int
    }
}

/// Days from the first of January of year 1 to the first of January of year `y`.
pub open spec fn days_before_year(y: int) -> int {
    let p = y - 1;
    365 * p + p / 4 - p / 100 + p / 400
}

pub open spec fn is_valid_ymd(y: int, m: int, d: int) -> bool {
    &&& MIN_YEAR <= y <= MAX_YEAR
    &&& 1 <= m <= 12
    &&& 1 <= d <= days_in_month(y, m)
}

impl CivilDate {
    pub open spec fn is_valid(self) -> bool {
        is_valid_ymd(self.year as int, self.month as int, self.day as int)
    }

    /// The number of days since 0001-01-01, which was a Monday.
    pub open spec fn day_number(self) -> int {
        days_before_year(self.year as int) + days_before_month(self.year as int, self.month as int)
            + self.day - 1
    }

    /// The day of the week, counted from Monday (0) to Sunday (6).
    pub open spec fn weekday_index(self) -> int {
        self.day_number() % 7
    }
}

impl TimeOfDay {
    pub open spec fn is_valid(self) -> bool {
        self.hour < 24 && self.minute < 60 && self.second < 60 && self.nanosecond < 1_000_000_000
    }

    pub open spec fn seconds_of_day(self) -> int {
        self.hour * 3600 + self.minute * 60 + self.second
    }
}

impl LocalDateTime {
    pub open spec fn is_valid(self) -> bool {
        self.date.is_valid() && self.time.is_valid()
    }
}

pub open spec fn first_day_number() -> int {
    CivilDate { year: MIN_YEAR, month: 1, day: 1 }.day_number()
}

pub open spec fn last_day_number() -> int {
    CivilDate { year: MAX_YEAR, month: 12, day: 31 }.day_number()
}

/// The valid date whose day number is `n`.
pub open spec fn date_with_day_number(n: int) -> CivilDate {
    choose|d: CivilDate| d.is_valid() && d.day_number() == n
}

/// The date `n` days after `d` (before it, where `n` is negative), if it is in range.
pub open spec fn shift_days(d: CivilDate, n: int) -> Option<CivilDate> {
    let t = d.day_number() + n;
    if first_day_number() <= t <= last_day_number() {
        Some(date_with_day_number(t))
    } else {
        None
    }
}

/// The date `n` calendar months after `d`, with the day of the month lowered to the
/// last day of the target month where that month is shorter; `None` out of range.
pub open spec fn shift_months(d: CivilDate, n: int) -> Option<CivilDate> {
    let total = d.year * 12 + (d.month - 1) + n;
    let y = total / 12;
    let m = total % 12 + 1;
    let dim = days_in_month(y, m);
    if MIN_YEAR <= y <= MAX_YEAR {
        Some(CivilDate { year: y as i32, month: m as u32, day: (if d.day <= dim { d.day as int } else { dim }) as u32 })
    } else {
        None
    }
}

/// The time of day `s` seconds after midnight.
pub open spec fn time_from_seconds(s: int, nanosecond: u32) -> TimeOfDay {
    TimeOfDay {
        hour: (s / 3600) as u32,
        minute: (s % 3600 / 60) as u32,
        second: (s % 60) as u32,
        nanosecond,
    }
}

/// The instant `n` seconds after `dt` (before it, where `n` is negative), if it is in range.
pub open spec fn shift_seconds(dt: LocalDateTime, n: int) -> Option<LocalDateTime> {
    let total = dt.time.seconds_of_day() + n;
    match shift_days(dt.date, total / 86400) {
        Some(date) => Some(
            LocalDateTime { date, time: time_from_seconds(total % 86400, dt.time.nanosecond) },
        ),
        None => None,
    }
}

/// Relies on chrono's `NaiveDate::from_ymd_opt`: a date exactly where the
/// calendar has that day and the year is within chrono's range.
#[verifier::external_body]
pub(crate) fn date_from_ymd(year: i32, month: u32, day: u32) -> (r: Option<CivilDate>)
    ensures
        r == (if is_valid_ymd(year as int, month as int, day as int) {
            Some(CivilDate { year, month, day })
        } else {
            None::<CivilDate>
        }),
{
    NaiveDate::from_ymd_opt(year, month, day).map(|x| CivilDate { year: x.year(), month: x.month(), day: x.day() })
}

/// Relies on chrono's `NaiveDate::checked_add_days`: the date `n` days later,
/// `None` where it is out of range.
#[verifier::external_body]
pub(crate) fn add_days(d: CivilDate, n: u64) -> (r: Option<CivilDate>)
    requires
        d.is_valid(),
    ensures
        r == shift_days(d, n as int),
{
    let x = NaiveDate::from_ymd_opt(d.year, d.month, d.day)?.checked_add_days(Days::new(n))?;
    Some(CivilDate { year: x.year(), month: x.month(), day: x.day() })
}

/// Relies on chrono's `NaiveDate::checked_sub_days`: the date `n` days earlier,
/// `None` where it is out of range.
#[verifier::external_body]
pub(crate) fn sub_days(d: CivilDate, n: u64) -> (r: Option<CivilDate>)
    requires
        d.is_valid(),
    ensures
        r == shift_days(d, -(n as int)),
{
    let x = NaiveDate::from_ymd_opt(d.year, d.month, d.day)?.checked_sub_days(Days::new(n))?;
    Some(CivilDate { year: x.year(), month: x.month(), day: x.day() })
}

/// Relies on chrono's `NaiveDate::checked_add_months`: `n` calendar months later,
/// the day lowered to the end of a shorter month; `None` out of range.
#[verifier::external_body]
pub(crate) fn add_months(d: CivilDate, n: u32) -> (r: Option<CivilDate>)
    requires
        d.is_valid(),
    ensures
        r == shift_months(d, n as int),
{
    let x = NaiveDate::from_ymd_opt(d.year, d.month, d.day)?.checked_add_months(Months::new(n))?;
    Some(CivilDate { year: x.year(), month: x.month(), day: x.day() })
}

/// Relies on chrono's `NaiveDate::checked_sub_months`: `n` calendar months earlier,
/// the day lowered to the end of a shorter month; `None` out of range.
#[verifier::external_body]
pub(crate) fn sub_months(d: CivilDate, n: u32) -> (r: Option<CivilDate>)
    requires
        d.is_valid(),
    ensures
        r == shift_months(d, -(n as int)),
{
    let x = NaiveDate::from_ymd_opt(d.year, d.month, d.day)?.checked_sub_months(Months::new(n))?;
    Some(CivilDate { year: x.year(), month: x.month(), day: x.day() })
}

/// Relies on chrono's `Datelike::with_year` for `NaiveDate`: the same month and
/// day in year `year`, `None` where that day does not exist or is out of range.
#[verifier::external_body]
pub(crate) fn with_year(d: CivilDate, year: i32) -> (r: Option<CivilDate>)
    requires
        d.is_valid(),
    ensures
        r == (if is_valid_ymd(year as int, d.month as int, d.day as int) {
            Some(CivilDate { year, ..d })
        } else {
            None::<CivilDate>
        }),
{
    let x = NaiveDate::from_ymd_opt(d.year, d.month, d.day)?.with_year(year)?;
    Some(CivilDate { year: x.year(), month: x.month(), day: x.day() })
}

/// Relies on chrono's `NaiveDate::weekday` and `Weekday::num_days_from_monday`:
/// the day of the week, from Monday (0) to Sunday (6).
#[verifier::external_body]
pub(crate) fn weekday_index(d: CivilDate) -> (r: u32)
    requires
        d.is_valid(),
    ensures
        r == d.weekday_index(),
{
    NaiveDate::from_ymd_opt(d.year, d.month, d.day).map_or(0, |x| x.weekday().num_days_from_monday())
}

/// Relies on chrono's `NaiveTime::from_hms_opt`: a time exactly where the hour,
/// minute and second are in range.
#[verifier::external_body]
pub(crate) fn time_from_hms(hour: u32, minute: u32, second: u32) -> (r: Option<TimeOfDay>)
    ensures
        r == (if hour < 24 && minute < 60 && second < 60 {
            Some(TimeOfDay { hour, minute, second, nanosecond: 0 })
        } else {
            None::<TimeOfDay>
        }),
{
    let x = NaiveTime::from_hms_opt(hour, minute, second)?;
    Some(TimeOfDay { hour: x.hour(), minute: x.minute(), second: x.second(), nanosecond: x.nanosecond() })
}

/// Relies on chrono's `NaiveDateTime::checked_add_signed` with `TimeDelta::seconds`:
/// the instant `n` seconds later (earlier for a negative `n`), `None` out of range.
#[verifier::external_body]
pub(crate) fn add_seconds(dt: LocalDateTime, n: i64) -> (r: Option<LocalDateTime>)
    requires
        dt.is_valid(),
        -MAX_SHIFT_SECONDS <= n <= MAX_SHIFT_SECONDS,
    ensures
        r == shift_seconds(dt, n as int),
{
    let (d, t) = (dt.date, dt.time);
    let x = NaiveDate::from_ymd_opt(d.year, d.month, d.day)?.and_hms_nano_opt(t.hour, t.minute, t.second, t.nanosecond)?;
    let y = x.checked_add_signed(TimeDelta::seconds(n))?;
    let date = CivilDate { year: y.year(), month: y.month(), day: y.day() };
    Some(LocalDateTime { date, time: TimeOfDay { hour: y.hour(), minute: y.minute(), second: y.second(), nanosecond: y.nanosecond() } })
}

pub open spec fn year_length(y: int) -> int {
    if is_leap_year(y) {
        366
    } else {
        365
    }
}

proof fn lemma_days_before_next_year(y: int)
    ensures
        days_before_year(y + 1) == days_before_year(y) + year_length(y),
{
    let p = y - 1;
    assert(y / 4 - p / 4 == if y % 4 == 0 { 1int } else { 0int });
    assert(y / 100 - p / 100 == if y % 100 == 0 { 1int } else { 0int });
    assert(y / 400 - p / 400 == if y % 400 == 0 { 1int } else { 0int });
    assert(y % 400 == 0 ==> y % 100 == 0);
    assert(y % 100 == 0 ==> y % 4 == 0);
}

proof fn lemma_days_before_year_grows(a: int, b: int)
    requires
        a <= b,
    ensures
        days_before_year(a) + 365 * (b - a) <= days_before_year(b),
    decreases b - a,
{
    if a < b {
        lemma_days_before_next_year(a);
        lemma_days_before_year_grows(a + 1, b);
    }
}

/// A valid date falls within its own year's days.
proof fn lemma_day_number_within_year(d: CivilDate)
    requires
        d.is_valid(),
    ensures
        days_before_year(d.year as int) <= d.day_number() < days_before_year(d.year + 1),
{
    lemma_days_before_next_year(d.year as int);
}

/// Two valid dates with the same day number are the same date.
pub proof fn lemma_day_number_injective(a: CivilDate, b: CivilDate)
    requires
        a.is_valid(),
        b.is_valid(),
        a.day_number() == b.day_number(),
    ensures
        a == b,
{
    lemma_day_number_within_year(a);
    lemma_day_number_within_year(b);
    if a.year < b.year {
        lemma_days_before_year_grows(a.year + 1, b.year as int);
    } else if b.year < a.year {
        lemma_days_before_year_grows(b.year + 1, a.year as int);
    }
    assert(a.year == b.year);
}

spec fn year_holding(t: int, y: int) -> int
    decreases MAX_YEAR - y,
{
    if y >= MAX_YEAR || t < days_before_year(y + 1) {
        y
    } else {
        year_holding(t, y + 1)
    }
}

proof fn lemma_year_holding(t: int, y: int)
    requires
        MIN_YEAR <= y <= MAX_YEAR,
        days_before_year(y) <= t < days_before_year(MAX_YEAR + 1),
    ensures
        MIN_YEAR <= year_holding(t, y) <= MAX_YEAR,
        days_before_year(year_holding(t, y)) <= t < days_before_year(year_holding(t, y) + 1),
    decreases MAX_YEAR - y,
{
    if y < MAX_YEAR && t >= days_before_year(y + 1) {
        lemma_year_holding(t, y + 1);
    }
}

spec fn month_holding(y: int, off: int) -> int {
    if off < days_before_month(y, 2) {
        1
    } else if off < days_before_month(y, 3) {
        2
    } else if off < days_before_month(y, 4) {
        3
    } else if off < days_before_month(y, 5) {
        4
    } else if off < days_before_month(y, 6) {
        5
    } else if off < days_before_month(y, 7) {
        6
    } else if off < days_before_month(y, 8) {
        7
    } else if off < days_before_month(y, 9) {
        8
    } else if off < days_before_month(y, 10) {
        9
    } else if off < days_before_month(y, 11) {
        10
    } else if off < days_before_month(y, 12) {
        11
    } else {
        12
    }
}

/// Every day number in range belongs to a valid date.
pub proof fn lemma_day_number_onto(t: int)
    requires
        first_day_number() <= t <= last_day_number(),
    ensures
        date_with_day_number(t).is_valid(),
        date_with_day_number(t).day_number() == t,
{
    lemma_days_before_next_year(MAX_YEAR as int);
    lemma_year_holding(t, MIN_YEAR as int);
    let y = year_holding(t, MIN_YEAR as int);
    lemma_days_before_next_year(y);
    let off = t - days_before_year(y);
    let m = month_holding(y, off);
    let d = CivilDate { year: y as i32, month: m as u32, day: (off - days_before_month(y, m) + 1) as u32 };
    assert(d.is_valid() && d.day_number() == t);
}

/// The date with the day number of a valid date is that date.
pub proof fn lemma_date_with_own_day_number(d: CivilDate)
    requires
        d.is_valid(),
    ensures
        date_with_day_number(d.day_number()) == d,
{
    let x = date_with_day_number(d.day_number());
    assert(x.is_valid() && x.day_number() == d.day_number());
    lemma_day_number_injective(x, d);
}

/// A valid date has a day number in range.
pub proof fn lemma_valid_day_number_in_range(d: CivilDate)
    requires
        d.is_valid(),
    ensures
        first_day_number() <= d.day_number() <= last_day_number(),
{
    lemma_day_number_within_year(d);
    lemma_days_before_year_grows(MIN_YEAR as int, d.year as int);
    lemma_days_before_year_grows(d.year + 1, MAX_YEAR + 1);
    lemma_days_before_next_year(MAX_YEAR as int);
}

/// Moving a date back by `k` days and then forward by `k` days returns it.
pub proof fn lemma_shift_days_back_and_forth(d: CivilDate, k: int, e: CivilDate)
    requires
        d.is_valid(),
        shift_days(d, -k) == Some(e),
    ensures
        e.is_valid(),
        e.day_number() == d.day_number() - k,
        shift_days(e, k) == Some(d),
{
    lemma_day_number_onto(d.day_number() - k);
    lemma_valid_day_number_in_range(d);
    assert(e.day_number() + k == d.day_number());
    lemma_date_with_own_day_number(d);
}

proof fn lemma_time_from_seconds(x: int, nanosecond: u32)
    requires
        0 <= x < 86400,
    ensures
        time_from_seconds(x, nanosecond).seconds_of_day() == x,
        time_from_seconds(x, nanosecond).hour < 24,
        time_from_seconds(x, nanosecond).minute < 60,
        time_from_seconds(x, nanosecond).second < 60,
{
    assert(x == 3600 * (x / 3600) + 60 * (x % 3600 / 60) + x % 60);
}

proof fn lemma_seconds_of_day(t: TimeOfDay)
    requires
        t.is_valid(),
    ensures
        0 <= t.seconds_of_day() < 86400,
        time_from_seconds(t.seconds_of_day(), t.nanosecond) == t,
{
    let x = t.seconds_of_day();
    assert(x / 3600 == t.hour);
    assert(x % 3600 == t.minute * 60 + t.second);
    assert(x % 3600 / 60 == t.minute);
    assert(x % 60 == t.second);
}

/// Moving an instant back by `k` seconds and then forward by `k` seconds returns it.
pub proof fn lemma_shift_seconds_back_and_forth(dt: LocalDateTime, k: int, e: LocalDateTime)
    requires
        dt.is_valid(),
        shift_seconds(dt, -k) == Some(e),
    ensures
        e.is_valid(),
        shift_seconds(e, k) == Some(dt),
{
    let s = dt.time.seconds_of_day();
    lemma_seconds_of_day(dt.time);
    let total = s - k;
    let q = total / 86400;
    let rem = total % 86400;
    lemma_shift_days_back_and_forth(dt.date, -q, e.date);
    lemma_time_from_seconds(rem, dt.time.nanosecond);
    assert(e.time.seconds_of_day() == rem);
    let total2 = rem + k;
    assert(total2 == s - 86400 * q);
    assert(total2 / 86400 == -q);
    assert(total2 % 86400 == s);
}

/// A date shifted by whole days, where it is in range, is a valid date.
pub proof fn lemma_shift_days_valid(d: CivilDate, n: int)
    ensures
        shift_days(d, n) matches Some(x) ==> x.is_valid() && x.day_number() == d.day_number() + n,
{
    let t = d.day_number() + n;
    if first_day_number() <= t <= last_day_number() {
        lemma_day_number_onto(t);
    }
}

/// An instant shifted by whole seconds, where it is in range, is a valid instant.
pub proof fn lemma_shift_seconds_valid(dt: LocalDateTime, n: int)
    requires
        dt.is_valid(),
    ensures
        shift_seconds(dt, n) matches Some(x) ==> x.is_valid(),
{
    let total = dt.time.seconds_of_day() + n;
    lemma_shift_days_valid(dt.date, total / 86400);
    lemma_time_from_seconds(total % 86400, dt.time.nanosecond);
}

} // verus!
