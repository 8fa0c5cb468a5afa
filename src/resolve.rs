//! Resolution of a syntax tree against a reference instant.

use crate::ast::{
    Ago, Date, DateTime, Duration, HumanTime, HumanTimeModel, In, IsoDate, Month, Quantifier,
    RelativeSpecifier, Time, TimeUnit, Weekday,
};
use crate::calendar::{
    add_days, add_months, add_seconds, date_from_ymd, is_valid_ymd, lemma_shift_days_valid,
    lemma_shift_seconds_valid, shift_days, shift_months, shift_seconds, sub_days, sub_months,
    time_from_hms, weekday_index, with_year, CivilDate, LocalDateTime, TimeOfDay, MAX_YEAR,
};
use crate::error::{ParseError, ParseResult, ProcessingError};
use crate::laws::{lemma_backward_weekday, lemma_forward_weekday};
use vstd::prelude::*;

verus! {

/// Whether a duration counts forward ("in ...") or backward ("... ago").
#[derive(Clone, Copy, Debug, PartialEq, Eq, Structural)]
pub enum Direction {
    Forwards,
    Backwards,
}

pub open spec fn signed(n: int, direction: Direction) -> int {
    if direction is Forwards {
        n
    } else {
        -n
    }
}

pub open spec fn with_date(dt: LocalDateTime, d: Option<CivilDate>) -> Option<LocalDateTime> {
    match d {
        Some(date) => Some(LocalDateTime { date, ..dt }),
        None => None,
    }
}

/// One quantifier applied to `dt`. Years and months keep the day of the month
/// and fail where the target month has no such day.
pub open spec fn apply_quantifier(
    q: Quantifier,
    dt: LocalDateTime,
    direction: Direction,
) -> Option<LocalDateTime> {
    match q {
        Quantifier::Year(n) => {
            let y = dt.date.year + signed(n as int, direction);
            if is_valid_ymd(y, dt.date.month as int, dt.date.day as int) {
                Some(LocalDateTime { date: CivilDate { year: y as i32, ..dt.date }, ..dt })
            } else {
                None
            }
        },
        Quantifier::Month(n) => match shift_months(dt.date, signed(n as int, direction)) {
            Some(d) => if d.day == dt.date.day {
                Some(LocalDateTime { date: d, ..dt })
            } else {
                None
            },
            None => None,
        },
        Quantifier::Week(n) => with_date(dt, shift_days(dt.date, signed(7 * n, direction))),
        Quantifier::Day(n) => with_date(dt, shift_days(dt.date, signed(n as int, direction))),
        Quantifier::Hour(n) => shift_seconds(dt, signed(3600 * n, direction)),
        Quantifier::Minute(n) => shift_seconds(dt, signed(60 * n, direction)),
        Quantifier::Second(n) => shift_seconds(dt, signed(n as int, direction)),
    }
}

/// The quantifiers applied one after another, in order; `None` as soon as one fails.
pub open spec fn apply_all(
    qs: Seq<Quantifier>,
    dt: LocalDateTime,
    direction: Direction,
) -> Option<LocalDateTime>
    decreases qs.len(),
{
    if qs.len() == 0 {
        Some(dt)
    } else {
        match apply_quantifier(qs[0], dt, direction) {
            Some(next) => apply_all(qs.drop_first(), next, direction),
            None => None,
        }
    }
}

/// The first quantifier that fails, and the instant it was applied to.
pub open spec fn failing_step(
    qs: Seq<Quantifier>,
    dt: LocalDateTime,
    direction: Direction,
) -> Option<(Quantifier, LocalDateTime)>
    decreases qs.len(),
{
    if qs.len() == 0 {
        None
    } else {
        match apply_quantifier(qs[0], dt, direction) {
            Some(next) => failing_step(qs.drop_first(), next, direction),
            None => Some((qs[0], dt)),
        }
    }
}

pub open spec fn unit_name(q: Quantifier) -> Seq<char> {
    match q {
        Quantifier::Year(_) => "years"@,
        Quantifier::Month(_) => "months"@,
        Quantifier::Week(_) => "weeks"@,
        Quantifier::Day(_) => "days"@,
        Quantifier::Hour(_) => "hours"@,
        Quantifier::Minute(_) => "minutes"@,
        Quantifier::Second(_) => "seconds"@,
    }
}

pub open spec fn count_of(q: Quantifier) -> u32 {
    match q {
        Quantifier::Year(n) | Quantifier::Month(n) | Quantifier::Week(n) | Quantifier::Day(n)
        | Quantifier::Hour(n) | Quantifier::Minute(n) | Quantifier::Second(n) => n,
    }
}

/// `e` reports that `unit`, `count` could not be shifted from `date` in `direction`.
pub open spec fn is_shift_error(
    e: ProcessingError,
    unit: Seq<char>,
    count: u32,
    date: LocalDateTime,
    direction: Direction,
) -> bool {
    if direction is Forwards {
        e matches ProcessingError::AddToDate { unit: u, count: c, date: d } && u@ == unit && c
            == count && d == date
    } else {
        e matches ProcessingError::SubtractFromDate { unit: u, count: c, date: d } && u@ == unit
            && c == count && d == date
    }
}

/// The error reported when `q` fails on `at`: it names the unit, the count and
/// the instant that the step started from.
pub open spec fn step_error(
    e: ProcessingError,
    q: Quantifier,
    at: LocalDateTime,
    direction: Direction,
) -> bool {
    is_shift_error(e, unit_name(q), count_of(q), at, direction)
}

pub open spec fn duration_error(
    e: ProcessingError,
    qs: Seq<Quantifier>,
    dt: LocalDateTime,
    direction: Direction,
) -> bool {
    match failing_step(qs, dt, direction) {
        Some((q, at)) => step_error(e, q, at, direction),
        None => false,
    }
}

fn unit_label(q: Quantifier) -> (r: String)
    ensures
        r@ == unit_name(q),
{
    match q {
        Quantifier::Year(_) => "years".to_owned(),
        Quantifier::Month(_) => "months".to_owned(),
        Quantifier::Week(_) => "weeks".to_owned(),
        Quantifier::Day(_) => "days".to_owned(),
        Quantifier::Hour(_) => "hours".to_owned(),
        Quantifier::Minute(_) => "minutes".to_owned(),
        Quantifier::Second(_) => "seconds".to_owned(),
    }
}

fn shift_error(q: Quantifier, count: u32, date: LocalDateTime, direction: Direction) -> (r:
    ProcessingError)
    requires
        count == count_of(q),
    ensures
        is_shift_error(r, unit_name(q), count, date, direction),
{
    let unit = unit_label(q);
    match direction {
        Direction::Forwards => ProcessingError::AddToDate { unit, count, date },
        Direction::Backwards => ProcessingError::SubtractFromDate { unit, count, date },
    }
}

/// Shifts `dt` by `days` days in `direction`.
fn shift_date_days(dt: LocalDateTime, days: u64, direction: Direction) -> (r: Option<
    LocalDateTime,
>)
    requires
        dt.is_valid(),
    ensures
        r == with_date(dt, shift_days(dt.date, signed(days as int, direction))),
        r matches Some(x) ==> x.is_valid(),
{
    let d = match direction {
        Direction::Forwards => add_days(dt.date, days),
        Direction::Backwards => sub_days(dt.date, days),
    };
    proof {
        lemma_shift_days_valid(dt.date, signed(days as int, direction));
    }
    match d {
        Some(date) => Some(LocalDateTime { date, ..dt }),
        None => None,
    }
}

/// Shifts `dt` by `seconds` seconds in `direction`.
fn shift_instant(dt: LocalDateTime, seconds: u64, direction: Direction) -> (r: Option<
    LocalDateTime,
>)
    requires
        dt.is_valid(),
        seconds <= 3600 * 0xffff_ffffu64,
    ensures
        r == shift_seconds(dt, signed(seconds as int, direction)),
        r matches Some(x) ==> x.is_valid(),
{
    proof {
        lemma_shift_seconds_valid(dt, signed(seconds as int, direction));
    }
    match direction {
        Direction::Forwards => add_seconds(dt, seconds as i64),
        Direction::Backwards => add_seconds(dt, -(seconds as i64)),
    }
}

/// Applies one quantifier to `dt`.
fn apply_quantifier_exec(q: Quantifier, dt: LocalDateTime, direction: Direction) -> (r: Result<
    LocalDateTime,
    ProcessingError,
>)
    requires
        dt.is_valid(),
    ensures
        match r {
            Ok(next) => apply_quantifier(q, dt, direction) == Some(next) && next.is_valid(),
            Err(e) => apply_quantifier(q, dt, direction) is None && step_error(e, q, dt, direction),
        },
{
    match q {
        Quantifier::Year(years) => {
            let y: i64 = match direction {
                Direction::Forwards => dt.date.year as i64 + years as i64,
                Direction::Backwards => dt.date.year as i64 - years as i64,
            };
            if y < i32::MIN as i64 || y > i32::MAX as i64 {
                return Err(shift_error(q, years, dt, direction));
            }
            match with_year(dt.date, y as i32) {
                Some(date) => Ok(LocalDateTime { date, ..dt }),
                None => Err(shift_error(q, years, dt, direction)),
            }
        },
        Quantifier::Month(months) => {
            let d = match direction {
                Direction::Forwards => add_months(dt.date, months),
                Direction::Backwards => sub_months(dt.date, months),
            };
            match d {
                Some(date) => {
                    if date.day == dt.date.day {
                        Ok(LocalDateTime { date, ..dt })
                    } else {
                        Err(shift_error(q, months, dt, direction))
                    }
                },
                None => Err(shift_error(q, months, dt, direction)),
            }
        },
        Quantifier::Week(weeks) => match shift_date_days(dt, weeks as u64 * 7, direction) {
            Some(next) => Ok(next),
            None => Err(shift_error(q, weeks, dt, direction)),
        },
        Quantifier::Day(days) => match shift_date_days(dt, days as u64, direction) {
            Some(next) => Ok(next),
            None => Err(shift_error(q, days, dt, direction)),
        },
        Quantifier::Hour(hours) => match shift_instant(dt, hours as u64 * 3600, direction) {
            Some(next) => Ok(next),
            None => Err(shift_error(q, hours, dt, direction)),
        },
        Quantifier::Minute(minutes) => match shift_instant(dt, minutes as u64 * 60, direction) {
            Some(next) => Ok(next),
            None => Err(shift_error(q, minutes, dt, direction)),
        },
        Quantifier::Second(seconds) => match shift_instant(dt, seconds as u64, direction) {
            Some(next) => Ok(next),
            None => Err(shift_error(q, seconds, dt, direction)),
        },
    }
}

/// Applies the quantifiers of `duration` to `dt` one after another, in order.
fn apply_duration(duration: &Duration, dt: LocalDateTime, direction: Direction) -> (r: Result<
    LocalDateTime,
    ProcessingError,
>)
    requires
        dt.is_valid(),
    ensures
        match r {
            Ok(x) => apply_all(duration@, dt, direction) == Some(x) && x.is_valid(),
            Err(e) => apply_all(duration@, dt, direction) is None && duration_error(
                e,
                duration@,
                dt,
                direction,
            ),
        },
{
    let mut cur = dt;
    let mut i: usize = 0;
    assert(duration@.skip(0) =~= duration@);
    while i < duration.0.len()
        invariant
            0 <= i <= duration@.len(),
            cur.is_valid(),
            apply_all(duration@, dt, direction) == apply_all(duration@.skip(i as int), cur, direction),
            failing_step(duration@, dt, direction) == failing_step(
                duration@.skip(i as int),
                cur,
                direction,
            ),
        decreases duration@.len() - i,
    {
        let q = duration.0[i];
        assert(duration@.skip(i as int)[0] == q);
        match apply_quantifier_exec(q, cur, direction) {
            Ok(next) => {
                assert(duration@.skip(i as int).drop_first() =~= duration@.skip(i + 1));
                cur = next;
            },
            Err(e) => {
                return Err(e);
            },
        }
        i += 1;
    }
    assert(duration@.skip(i as int) =~= Seq::<Quantifier>::empty());
    Ok(cur)
}

/// Days forward from weekday `from` to the next weekday `to`: 1 to 7, never 0.
pub open spec fn days_until(from: int, to: int) -> int {
    (to - from + 6) % 7 + 1
}

/// Days back from weekday `from` to the previous weekday `to`: 1 to 7, never 0.
pub open spec fn days_since(from: int, to: int) -> int {
    (from - to + 6) % 7 + 1
}

/// Days from today to the wanted weekday: "this" keeps today when it matches,
/// "next" searches strictly forward, "last" strictly backward.
pub open spec fn weekday_offset(r: RelativeSpecifier, w: Weekday, today: CivilDate) -> int {
    let cur = today.weekday_index();
    match r {
        RelativeSpecifier::This => if cur == w.index() {
            0
        } else {
            days_until(cur, w.index())
        },
        RelativeSpecifier::Next => days_until(cur, w.index()),
        RelativeSpecifier::Last => -days_since(cur, w.index()),
    }
}

/// Days from today to weekday `w` of the Monday-based week that `r` picks.
pub open spec fn week_weekday_offset(r: RelativeSpecifier, w: Weekday, today: CivilDate) -> int {
    let week = match r {
        RelativeSpecifier::This => 0,
        RelativeSpecifier::Next => 7,
        RelativeSpecifier::Last => -7,
    };
    week - today.weekday_index() + w.index()
}

pub open spec fn is_date_unit(u: TimeUnit) -> bool {
    u is Year || u is Month || u is Week || u is Day
}

pub open spec fn one_of(u: TimeUnit) -> Quantifier {
    match u {
        TimeUnit::Year => Quantifier::Year(1),
        TimeUnit::Month => Quantifier::Month(1),
        TimeUnit::Week => Quantifier::Week(1),
        _ => Quantifier::Day(1),
    }
}

pub open spec fn ymd_date(y: int, m: int, d: int) -> Option<CivilDate> {
    if is_valid_ymd(y, m, d) {
        Some(CivilDate { year: y as i32, month: m as u32, day: d as u32 })
    } else {
        None
    }
}

/// The date that `d` names on the day of `now`.
pub open spec fn resolve_date(d: Date, now: LocalDateTime) -> Option<CivilDate> {
    match d {
        Date::Today => Some(now.date),
        Date::Tomorrow => shift_days(now.date, 1),
        Date::Overmorrow => shift_days(now.date, 2),
        Date::Yesterday => shift_days(now.date, -1),
        Date::IsoDate(i) => ymd_date(i.year as int, i.month as int, i.day as int),
        Date::DayMonthYear(day, m, y) => ymd_date(y as int, m.number(), day as int),
        Date::DayMonth(day, m) => ymd_date(now.date.year as int, m.number(), day as int),
        Date::RelativeWeekWeekday(r, w) => shift_days(now.date, week_weekday_offset(r, w, now.date)),
        Date::RelativeWeekday(r, w) => {
            let k = weekday_offset(r, w, now.date);
            if k == 0 {
                Some(now.date)
            } else {
                shift_days(now.date, k)
            }
        },
        Date::RelativeTimeUnit(r, u) => match r {
            RelativeSpecifier::This => Some(now.date),
            RelativeSpecifier::Next => match apply_all(seq![one_of(u)], now, Direction::Forwards) {
                Some(x) => Some(x.date),
                None => None,
            },
            RelativeSpecifier::Last => match apply_all(seq![one_of(u)], now, Direction::Backwards) {
                Some(x) => Some(x.date),
                None => None,
            },
        },
        Date::UpcomingWeekday(w) => shift_days(
            now.date,
            weekday_offset(RelativeSpecifier::Next, w, now.date),
        ),
    }
}

pub open spec fn saturated_year(y: int) -> i32 {
    if y <= i32::MAX {
        y as i32
    } else {
        i32::MAX
    }
}

/// `e` reports that today could not be moved by `offset` days.
pub open spec fn is_now_shift_error(e: ProcessingError, offset: int) -> bool {
    if offset > 0 {
        e matches ProcessingError::AddToNow { unit, count } && unit@ == "days"@ && count == offset
    } else {
        e matches ProcessingError::SubtractFromNow { unit, count } && unit@ == "days"@ && count
            == -offset
    }
}

/// The error reported where `d` names no date on the day of `now`.
pub open spec fn date_error(e: ProcessingError, d: Date, now: LocalDateTime) -> bool {
    match d {
        Date::Today => false,
        Date::Tomorrow => is_now_shift_error(e, 1),
        Date::Overmorrow => is_now_shift_error(e, 2),
        Date::Yesterday => is_now_shift_error(e, -1),
        Date::IsoDate(i) => e == ProcessingError::InvalidDate {
            year: saturated_year(i.year as int),
            month: i.month,
            day: i.day,
        },
        Date::DayMonthYear(day, m, y) => e == ProcessingError::InvalidDate {
            year: saturated_year(y as int),
            month: m.number() as u32,
            day,
        },
        Date::DayMonth(day, m) => e == ProcessingError::InvalidDate {
            year: now.date.year,
            month: m.number() as u32,
            day,
        },
        Date::RelativeWeekWeekday(r, w) => is_now_shift_error(e, week_weekday_offset(r, w, now.date)),
        Date::RelativeWeekday(r, w) => is_now_shift_error(e, weekday_offset(r, w, now.date)),
        Date::RelativeTimeUnit(r, u) => match r {
            RelativeSpecifier::This => false,
            RelativeSpecifier::Next => duration_error(e, seq![one_of(u)], now, Direction::Forwards),
            RelativeSpecifier::Last => duration_error(e, seq![one_of(u)], now, Direction::Backwards),
        },
        Date::UpcomingWeekday(w) => is_now_shift_error(
            e,
            weekday_offset(RelativeSpecifier::Next, w, now.date),
        ),
    }
}

pub open spec fn resolve_time(t: Time) -> Option<TimeOfDay> {
    match t {
        Time::HourMinute(h, m) => if h < 24 && m < 60 {
            Some(TimeOfDay { hour: h, minute: m, second: 0, nanosecond: 0 })
        } else {
            None
        },
        Time::HourMinuteSecond(h, m, sec) => if h < 24 && m < 60 && sec < 60 {
            Some(TimeOfDay { hour: h, minute: m, second: sec, nanosecond: 0 })
        } else {
            None
        },
    }
}

pub open spec fn time_error(e: ProcessingError, t: Time) -> bool {
    match t {
        Time::HourMinute(h, m) => e == ProcessingError::TimeHourMinute { hour: h, minute: m },
        Time::HourMinuteSecond(h, m, sec) => e == ProcessingError::TimeHourMinuteSecond {
            hour: h,
            minute: m,
            second: sec,
        },
    }
}

proof fn lemma_weekday_steps(from: int, to: int)
    requires
        0 <= from < 7,
        0 <= to < 7,
    ensures
        days_until(from, to) == if to > from {
            to - from
        } else {
            7 - from + to
        },
        days_since(from, to) == if to >= from {
            7 + from - to
        } else {
            from - to
        },
{
}

fn now_shift(today: CivilDate, offset: i64) -> (r: Result<CivilDate, ProcessingError>)
    requires
        today.is_valid(),
        -14 <= offset <= 14,
    ensures
        match r {
            Ok(d) => shift_days(today, offset as int) == Some(d) && d.is_valid(),
            Err(e) => shift_days(today, offset as int) is None && is_now_shift_error(
                e,
                offset as int,
            ),
        },
{
    proof {
        lemma_shift_days_valid(today, offset as int);
    }
    if offset > 0 {
        match add_days(today, offset as u64) {
            Some(d) => Ok(d),
            None => Err(ProcessingError::AddToNow { unit: "days".to_owned(), count: offset as u32 }),
        }
    } else {
        match sub_days(today, (-offset) as u64) {
            Some(d) => Ok(d),
            None => Err(
                ProcessingError::SubtractFromNow { unit: "days".to_owned(), count: (-offset) as u32 },
            ),
        }
    }
}

fn find_weekday_relative_week(relative: RelativeSpecifier, weekday: Weekday, now: CivilDate) -> (r:
    Result<CivilDate, ProcessingError>)
    requires
        now.is_valid(),
    ensures
        match r {
            Ok(d) => shift_days(now, week_weekday_offset(relative, weekday, now)) == Some(d)
                && d.is_valid(),
            Err(e) => shift_days(now, week_weekday_offset(relative, weekday, now)) is None
                && is_now_shift_error(e, week_weekday_offset(relative, weekday, now)),
        },
{
    let day_offset = -(weekday_index(now) as i64);
    let week_offset: i64 = match relative {
        RelativeSpecifier::This => 0,
        RelativeSpecifier::Next => 7,
        RelativeSpecifier::Last => -7,
    };
    now_shift(now, week_offset + day_offset + weekday.num_days_from_monday() as i64)
}

fn find_weekday_relative(relative: RelativeSpecifier, weekday: Weekday, now: CivilDate) -> (r:
    Result<CivilDate, ProcessingError>)
    requires
        now.is_valid(),
    ensures
        ({
            let k = weekday_offset(relative, weekday, now);
            match r {
                Ok(d) => (if k == 0 {
                    Some(now)
                } else {
                    shift_days(now, k)
                }) == Some(d) && d.is_valid(),
                Err(e) => k != 0 && shift_days(now, k) is None && is_now_shift_error(e, k),
            }
        }),
        relative != RelativeSpecifier::This ==> (r matches Ok(d) ==> d != now && d.weekday_index()
            == weekday.index()),
        relative == RelativeSpecifier::This && now.weekday_index() == weekday.index() ==> r == Ok::<
            CivilDate,
            ProcessingError,
        >(now),
{
    let current_weekday = weekday_index(now);
    let target_weekday = weekday.num_days_from_monday();
    proof {
        lemma_weekday_steps(current_weekday as int, target_weekday as int);
        let at_midnight = LocalDateTime {
            date: now,
            time: TimeOfDay { hour: 0, minute: 0, second: 0, nanosecond: 0 },
        };
        lemma_forward_weekday(weekday, at_midnight);
        lemma_backward_weekday(weekday, at_midnight);
    }
    match relative {
        RelativeSpecifier::This | RelativeSpecifier::Next => {
            if relative == RelativeSpecifier::This && current_weekday == target_weekday {
                return Ok(now);
            }
            let offset = if target_weekday > current_weekday {
                target_weekday - current_weekday
            } else {
                7 - current_weekday + target_weekday
            };
            now_shift(now, offset as i64)
        },
        RelativeSpecifier::Last => {
            let offset = if target_weekday >= current_weekday {
                7 + current_weekday - target_weekday
            } else {
                current_weekday - target_weekday
            };
            now_shift(now, -(offset as i64))
        },
    }
}

fn parse_iso_date(iso_date: IsoDate) -> (r: Result<CivilDate, ProcessingError>)
    ensures
        match r {
            Ok(d) => ymd_date(iso_date.year as int, iso_date.month as int, iso_date.day as int)
                == Some(d) && d.is_valid(),
            Err(e) => ymd_date(iso_date.year as int, iso_date.month as int, iso_date.day as int) is None
                && e == ProcessingError::InvalidDate {
                year: saturated_year(iso_date.year as int),
                month: iso_date.month,
                day: iso_date.day,
            },
        },
{
    parse_day_month_year_number(iso_date.day, iso_date.month, iso_date.year as i64)
}

fn parse_day_month_year(day: u32, month: Month, year: i64) -> (r: Result<CivilDate, ProcessingError>)
    requires
        year <= u32::MAX,
    ensures
        match r {
            Ok(d) => ymd_date(year as int, month.number(), day as int) == Some(d) && d.is_valid(),
            Err(e) => ymd_date(year as int, month.number(), day as int) is None && e
                == ProcessingError::InvalidDate {
                year: saturated_year(year as int),
                month: month.number() as u32,
                day,
            },
        },
{
    parse_day_month_year_number(day, month.number_from_month(), year)
}

fn parse_day_month_year_number(day: u32, month: u32, year: i64) -> (r: Result<
    CivilDate,
    ProcessingError,
>)
    requires
        year <= u32::MAX,
    ensures
        match r {
            Ok(d) => ymd_date(year as int, month as int, day as int) == Some(d) && d.is_valid(),
            Err(e) => ymd_date(year as int, month as int, day as int) is None && e
                == ProcessingError::InvalidDate { year: saturated_year(year as int), month, day },
        },
{
    if year < i32::MIN as i64 || year > MAX_YEAR as i64 {
        let y: i32 = if year > i32::MAX as i64 {
            i32::MAX
        } else {
            year as i32
        };
        return Err(ProcessingError::InvalidDate { year: y, month, day });
    }
    match date_from_ymd(year as i32, month, day) {
        Some(d) => Ok(d),
        None => Err(ProcessingError::InvalidDate { year: year as i32, month, day }),
    }
}

fn relative_date_time_unit(
    relative: RelativeSpecifier,
    time_unit: TimeUnit,
    now: LocalDateTime,
) -> (r: Result<LocalDateTime, ProcessingError>)
    requires
        now.is_valid(),
        is_date_unit(time_unit),
    ensures
        match relative {
            RelativeSpecifier::This => r == Ok::<LocalDateTime, ProcessingError>(now),
            RelativeSpecifier::Next => match r {
                Ok(x) => apply_all(seq![one_of(time_unit)], now, Direction::Forwards) == Some(x)
                    && x.is_valid(),
                Err(e) => apply_all(seq![one_of(time_unit)], now, Direction::Forwards) is None
                    && duration_error(e, seq![one_of(time_unit)], now, Direction::Forwards),
            },
            RelativeSpecifier::Last => match r {
                Ok(x) => apply_all(seq![one_of(time_unit)], now, Direction::Backwards) == Some(x)
                    && x.is_valid(),
                Err(e) => apply_all(seq![one_of(time_unit)], now, Direction::Backwards) is None
                    && duration_error(e, seq![one_of(time_unit)], now, Direction::Backwards),
            },
        },
{
    let quantifier = match time_unit {
        TimeUnit::Year => Quantifier::Year(1),
        TimeUnit::Month => Quantifier::Month(1),
        TimeUnit::Week => Quantifier::Week(1),
        _ => Quantifier::Day(1),
    };
    let duration = Duration(vec![quantifier]);
    assert(duration@ =~= seq![one_of(time_unit)]);
    match relative {
        RelativeSpecifier::This => Ok(now),
        RelativeSpecifier::Next => apply_duration(&duration, now, Direction::Forwards),
        RelativeSpecifier::Last => apply_duration(&duration, now, Direction::Backwards),
    }
}

pub open spec fn date_is_well_formed(d: Date) -> bool {
    d matches Date::RelativeTimeUnit(_, u) ==> is_date_unit(u)
}

fn parse_date(date: Date, now: &LocalDateTime) -> (r: Result<CivilDate, ProcessingError>)
    requires
        now.is_valid(),
        date_is_well_formed(date),
    ensures
        match r {
            Ok(d) => resolve_date(date, *now) == Some(d) && d.is_valid(),
            Err(e) => resolve_date(date, *now) is None && date_error(e, date, *now),
        },
        date matches Date::UpcomingWeekday(w) ==> (r matches Ok(d) ==> d != now.date
            && d.weekday_index() == w.index()),
{
    match date {
        Date::Today => Ok(now.date),
        Date::Tomorrow => now_shift(now.date, 1),
        Date::Overmorrow => now_shift(now.date, 2),
        Date::Yesterday => now_shift(now.date, -1),
        Date::IsoDate(iso_date) => parse_iso_date(iso_date),
        Date::DayMonthYear(day, month, year) => parse_day_month_year(day, month, year as i64),
        Date::DayMonth(day, month) => parse_day_month_year(day, month, now.date.year as i64),
        Date::RelativeWeekWeekday(relative, weekday) => find_weekday_relative_week(
            relative,
            weekday,
            now.date,
        ),
        Date::RelativeWeekday(relative, weekday) => find_weekday_relative(relative, weekday, now.date),
        Date::RelativeTimeUnit(relative, time_unit) => {
            match relative_date_time_unit(relative, time_unit, *now) {
                Ok(x) => Ok(x.date),
                Err(e) => Err(e),
            }
        },
        Date::UpcomingWeekday(weekday) => find_weekday_relative(
            RelativeSpecifier::Next,
            weekday,
            now.date,
        ),
    }
}

fn parse_time(time: Time) -> (r: Result<TimeOfDay, ProcessingError>)
    ensures
        match r {
            Ok(t) => resolve_time(time) == Some(t) && t.is_valid(),
            Err(e) => resolve_time(time) is None && time_error(e, time),
        },
{
    match time {
        Time::HourMinute(hour, minute) => match time_from_hms(hour, minute, 0) {
            Some(t) => Ok(t),
            None => Err(ProcessingError::TimeHourMinute { hour, minute }),
        },
        Time::HourMinuteSecond(hour, minute, second) => match time_from_hms(hour, minute, second) {
            Some(t) => Ok(t),
            None => Err(ProcessingError::TimeHourMinuteSecond { hour, minute, second }),
        },
    }
}

/// The instant a nested "ago ... at ..." counts back from: a date keeps the
/// time of `now`, a time keeps the date of `now`.
pub open spec fn anchor(r: ParseResult, now: LocalDateTime) -> LocalDateTime {
    match r {
        ParseResult::DateTime(dt) => dt,
        ParseResult::Date(date) => LocalDateTime { date, time: now.time },
        ParseResult::Time(time) => LocalDateTime { date: now.date, time },
    }
}

pub open spec fn as_date_time(x: Option<LocalDateTime>) -> Option<ParseResult> {
    match x {
        Some(dt) => Some(ParseResult::DateTime(dt)),
        None => None,
    }
}

/// What the expression `m` names, relative to `now`; `None` where resolving it fails.
pub open spec fn resolve(m: HumanTimeModel, now: LocalDateTime) -> Option<ParseResult>
    decreases m,
{
    match m {
        HumanTimeModel::DateTime(dt) => match (resolve_date(dt.date, now), resolve_time(dt.time)) {
            (Some(date), Some(time)) => Some(ParseResult::DateTime(LocalDateTime { date, time })),
            _ => None,
        },
        HumanTimeModel::Date(d) => match resolve_date(d, now) {
            Some(date) => Some(ParseResult::Date(date)),
            None => None,
        },
        HumanTimeModel::Time(t) => match resolve_time(t) {
            Some(time) => Some(ParseResult::Time(time)),
            None => None,
        },
        HumanTimeModel::In(qs) => as_date_time(apply_all(qs, now, Direction::Forwards)),
        HumanTimeModel::AgoFromNow(qs) => as_date_time(apply_all(qs, now, Direction::Backwards)),
        HumanTimeModel::AgoFromTime(qs, inner) => match resolve(*inner, now) {
            Some(r) => as_date_time(apply_all(qs, anchor(r, now), Direction::Backwards)),
            None => None,
        },
        HumanTimeModel::Now => Some(ParseResult::DateTime(now)),
    }
}

/// Every relative unit in `m` is a year, month, week or day.
pub open spec fn is_well_formed(m: HumanTimeModel) -> bool
    decreases m,
{
    match m {
        HumanTimeModel::DateTime(dt) => date_is_well_formed(dt.date),
        HumanTimeModel::Date(d) => date_is_well_formed(d),
        HumanTimeModel::AgoFromTime(_, inner) => is_well_formed(*inner),
        _ => true,
    }
}

/// The error reported where `m`, which is not a date with time, cannot be resolved.
pub open spec fn single_error(m: HumanTimeModel, now: LocalDateTime, e: ProcessingError) -> bool
    decreases m, 0int,
{
    match m {
        HumanTimeModel::Date(d) => date_error(e, d, now),
        HumanTimeModel::Time(t) => time_error(e, t),
        HumanTimeModel::In(qs) => duration_error(e, qs, now, Direction::Forwards),
        HumanTimeModel::AgoFromNow(qs) => duration_error(e, qs, now, Direction::Backwards),
        HumanTimeModel::AgoFromTime(qs, inner) => match resolve(*inner, now) {
            Some(r) => duration_error(e, qs, anchor(r, now), Direction::Backwards),
            None => e matches ProcessingError::InnerHumanTimeParse(b) && resolution_error(
                *inner,
                now,
                *b,
            ),
        },
        _ => false,
    }
}

/// The errors reported where `m` cannot be resolved relative to `now`: one for
/// each part of a date with time that fails, else one.
pub open spec fn resolution_error(m: HumanTimeModel, now: LocalDateTime, e: ParseError) -> bool
    decreases m, 1int,
{
    match e {
        ParseError::ProccessingErrors(v) => match m {
            HumanTimeModel::DateTime(dt) => {
                let date_failed = resolve_date(dt.date, now) is None;
                let time_failed = resolve_time(dt.time) is None;
                if date_failed && time_failed {
                    v@.len() == 2 && date_error(v@[0], dt.date, now) && time_error(v@[1], dt.time)
                } else if date_failed {
                    v@.len() == 1 && date_error(v@[0], dt.date, now)
                } else {
                    v@.len() == 1 && time_error(v@[0], dt.time)
                }
            },
            _ => v@.len() == 1 && single_error(m, now, v@[0]),
        },
        _ => false,
    }
}

pub open spec fn result_is_valid(r: ParseResult) -> bool {
    match r {
        ParseResult::DateTime(dt) => dt.is_valid(),
        ParseResult::Date(d) => d.is_valid(),
        ParseResult::Time(t) => t.is_valid(),
    }
}

/// `r` is what resolving `m` relative to `now` returns: the value that `m` names,
/// or the errors that say why it names none.
pub open spec fn resolves_as(m: HumanTimeModel, now: LocalDateTime, r: Result<ParseResult, ParseError>) -> bool {
    match r {
        Ok(x) => resolve(m, now) == Some(x),
        Err(e) => resolve(m, now) is None && resolution_error(m, now, e),
    }
}

/// Resolves the expression `parsed` relative to `now`.
pub fn parse_human_time(parsed: HumanTime, now: LocalDateTime) -> (r: Result<ParseResult, ParseError>)
    requires
        now.is_valid(),
        is_well_formed(parsed.model()),
    ensures
        resolves_as(parsed.model(), now, r),
        r matches Ok(x) ==> result_is_valid(x),
    decreases parsed,
{
    match parsed {
        HumanTime::DateTime(date_time) => match parse_date_time(date_time, &now) {
            Ok(dt) => Ok(ParseResult::DateTime(dt)),
            Err(e) => Err(e),
        },
        HumanTime::Date(date) => match parse_date(date, &now) {
            Ok(d) => Ok(ParseResult::Date(d)),
            Err(e) => Err(ParseError::ProccessingErrors(vec![e])),
        },
        HumanTime::Time(time) => match parse_time(time) {
            Ok(t) => Ok(ParseResult::Time(t)),
            Err(e) => Err(ParseError::ProccessingErrors(vec![e])),
        },
        HumanTime::In(in_ast) => match parse_in(in_ast, &now) {
            Ok(dt) => Ok(ParseResult::DateTime(dt)),
            Err(e) => Err(ParseError::ProccessingErrors(vec![e])),
        },
        HumanTime::Ago(ago) => match parse_ago(ago, &now) {
            Ok(dt) => Ok(ParseResult::DateTime(dt)),
            Err(e) => Err(ParseError::ProccessingErrors(vec![e])),
        },
        HumanTime::Now => Ok(ParseResult::DateTime(now)),
    }
}

fn parse_date_time(date_time: DateTime, now: &LocalDateTime) -> (r: Result<LocalDateTime, ParseError>)
    requires
        now.is_valid(),
        date_is_well_formed(date_time.date),
    ensures
        match r {
            Ok(x) => resolve(HumanTimeModel::DateTime(date_time), *now) == Some(
                ParseResult::DateTime(x),
            ) && x.is_valid(),
            Err(e) => resolve(HumanTimeModel::DateTime(date_time), *now) is None && resolution_error(
                HumanTimeModel::DateTime(date_time),
                *now,
                e,
            ),
        },
{
    let date = parse_date(date_time.date, now);
    let time = parse_time(date_time.time);
    match (date, time) {
        (Ok(date), Ok(time)) => Ok(LocalDateTime { date, time }),
        (Ok(_), Err(time_error)) => Err(ParseError::ProccessingErrors(vec![time_error])),
        (Err(date_error), Ok(_)) => Err(ParseError::ProccessingErrors(vec![date_error])),
        (Err(date_error), Err(time_error)) => Err(
            ParseError::ProccessingErrors(vec![date_error, time_error]),
        ),
    }
}

fn parse_in(in_ast: In, now: &LocalDateTime) -> (r: Result<LocalDateTime, ProcessingError>)
    requires
        now.is_valid(),
    ensures
        match r {
            Ok(x) => apply_all(in_ast.0@, *now, Direction::Forwards) == Some(x) && x.is_valid(),
            Err(e) => apply_all(in_ast.0@, *now, Direction::Forwards) is None && duration_error(
                e,
                in_ast.0@,
                *now,
                Direction::Forwards,
            ),
        },
{
    apply_duration(&in_ast.0, *now, Direction::Forwards)
}

fn parse_ago(ago: Ago, now: &LocalDateTime) -> (r: Result<LocalDateTime, ProcessingError>)
    requires
        now.is_valid(),
        is_well_formed(HumanTime::Ago(ago).model()),
    ensures
        ({
            let m = HumanTime::Ago(ago).model();
            match r {
                Ok(x) => resolve(m, *now) == Some(ParseResult::DateTime(x)) && x.is_valid(),
                Err(e) => resolve(m, *now) is None && single_error(m, *now, e),
            }
        }),
    decreases ago,
{
    match ago {
        Ago::AgoFromNow(duration) => apply_duration(&duration, *now, Direction::Backwards),
        Ago::AgoFromTime(duration, time) => {
            let human_time = match parse_human_time(*time, *now) {
                Ok(x) => x,
                Err(e) => {
                    return Err(ProcessingError::InnerHumanTimeParse(Box::new(e)));
                },
            };
            let dt = match human_time {
                ParseResult::DateTime(dt) => dt,
                ParseResult::Date(date) => LocalDateTime { date, time: now.time },
                ParseResult::Time(time) => LocalDateTime { date: now.date, time },
            };
            apply_duration(&duration, dt, Direction::Backwards)
        },
    }
}

} // verus!
