use human_date_parser::{
    from_human_time, CivilDate, LocalDateTime, ParseError, ParseResult, ProcessingError,
    TimeOfDay,
};

fn at(year: i32, month: u32, day: u32, hour: u32, minute: u32, second: u32) -> LocalDateTime {
    LocalDateTime {
        date: CivilDate { year, month, day },
        time: TimeOfDay { hour, minute, second, nanosecond: 0 },
    }
}

fn reference() -> LocalDateTime {
    at(2010, 1, 1, 0, 0, 0)
}

/// Resolves `input` against 2010-01-01 00:00:00, completing a date or a time
/// with the missing part of the reference instant.
fn resolve_full(input: &str) -> LocalDateTime {
    let now = reference();
    match from_human_time(input, now).unwrap() {
        ParseResult::DateTime(dt) => dt,
        ParseResult::Date(date) => LocalDateTime { date, time: now.time },
        ParseResult::Time(time) => LocalDateTime { date: now.date, time },
    }
}

fn expect(input: &str, expected: &str) {
    let parts: Vec<u32> = expected
        .split(|c| c == '-' || c == ' ' || c == ':')
        .map(|p| p.parse().unwrap())
        .collect();
    let want = at(parts[0] as i32, parts[1], parts[2], parts[3], parts[4], parts[5]);
    assert_eq!(resolve_full(input), want, "input: {input}");
}

#[test]
fn parse_15_10() {
    expect("15:10", "2010-01-01 15:10:00");
}

#[test]
fn parse_today_18_30() {
    expect("Today 18:30", "2010-01-01 18:30:00");
}

#[test]
fn parse_yesterday_18_30() {
    expect("Yesterday 18:30", "2009-12-31 18:30:00");
}

#[test]
fn parse_tomorrow_18_30() {
    expect("Tomorrow 18:30", "2010-01-02 18:30:00");
}

#[test]
fn parse_overmorrow_18_30() {
    expect("Overmorrow 18:30", "2010-01-03 18:30:00");
}

#[test]
fn parse_2022_11_07_13_25_30() {
    expect("2022-11-07 13:25:30", "2022-11-07 13:25:30");
}

#[test]
fn parse_07_february_2015() {
    expect("07 February 2015", "2015-02-07 00:00:00");
}

#[test]
fn parse_07_february() {
    expect("07 February", "2010-02-07 00:00:00");
}

#[test]
fn parse_15_20_friday() {
    expect("15:20 Friday", "2010-01-08 15:20:00");
}

#[test]
fn parse_this_friday_17_00() {
    expect("This Friday 17:00", "2010-01-01 17:00:00");
}

#[test]
fn parse_next_friday_17_00() {
    expect("Next Friday 17:00", "2010-01-08 17:00:00");
}

#[test]
fn parse_13_25_next_tuesday() {
    expect("13:25, Next Tuesday", "2010-01-05 13:25:00");
}

#[test]
fn parse_last_friday_at_19_45() {
    expect("Last Friday at 19:45", "2009-12-25 19:45:00");
}

#[test]
fn parse_next_week() {
    expect("Next week", "2010-01-08 00:00:00");
}

#[test]
fn parse_this_week() {
    expect("This week", "2010-01-01 00:00:00");
}

#[test]
fn parse_last_week() {
    expect("Last week", "2009-12-25 00:00:00");
}

#[test]
fn parse_next_week_monday() {
    expect("Next week Monday", "2010-01-04 00:00:00");
}

#[test]
fn parse_this_week_friday() {
    expect("This week Friday", "2010-01-01 00:00:00");
}

#[test]
fn parse_this_week_monday() {
    expect("This week Monday", "2009-12-28 00:00:00");
}

#[test]
fn parse_last_week_tuesday() {
    expect("Last week Tuesday", "2009-12-22 00:00:00");
}

#[test]
fn parse_this_friday() {
    expect("This Friday", "2010-01-01 00:00:00");
}

#[test]
fn parse_next_friday() {
    expect("Next Friday", "2010-01-08 00:00:00");
}

#[test]
fn parse_last_friday() {
    expect("Last Friday", "2009-12-25 00:00:00");
}

#[test]
fn parse_in_3_days() {
    expect("In 3 days", "2010-01-04 00:00:00");
}

#[test]
fn parse_in_2_hours() {
    expect("In 2 hours", "2010-01-01 02:00:00");
}

#[test]
fn parse_in_5_minutes_and_30_seconds() {
    expect("In 5 minutes and 30 seconds", "2010-01-01 00:05:30");
}

#[test]
fn parse_10_seconds_ago() {
    expect("10 seconds ago", "2009-12-31 23:59:50");
}

#[test]
fn parse_10_hours_and_5_minutes_ago() {
    expect("10 hours and 5 minutes ago", "2009-12-31 13:55:00");
}

#[test]
fn parse_2_hours_32_minutes_and_7_seconds_ago() {
    expect("2 hours, 32 minutes and 7 seconds ago", "2009-12-31 21:27:53");
}

#[test]
fn parse_1_years_2_months_3_weeks_5_days_8_hours_17_minutes_and_45_seconds_ago() {
    expect("1 years, 2 months, 3 weeks, 5 days, 8 hours, 17 minutes and 45 seconds ago", "2008-10-05 15:42:15");
}

#[test]
fn parse_1_year_1_month_1_week_1_day_1_hour_1_minute_and_1_second_ago() {
    expect("1 year, 1 month, 1 week, 1 day, 1 hour, 1 minute and 1 second ago", "2008-11-22 22:58:59");
}

#[test]
fn parse_a_year_ago() {
    expect("A year ago", "2009-01-01 00:00:00");
}

#[test]
fn parse_a_month_ago() {
    expect("A month ago", "2009-12-01 00:00:00");
}

#[test]
fn parse_3_months_ago() {
    expect("3 months ago", "2009-10-01 00:00:00");
}

#[test]
fn parse_6_months_ago() {
    expect("6 months ago", "2009-07-01 00:00:00");
}

#[test]
fn parse_7_months_ago() {
    expect("7 months ago", "2009-06-01 00:00:00");
}

#[test]
fn parse_in_7_months() {
    expect("In 7 months", "2010-08-01 00:00:00");
}

#[test]
fn parse_a_week_ago() {
    expect("A week ago", "2009-12-25 00:00:00");
}

#[test]
fn parse_a_day_ago() {
    expect("A day ago", "2009-12-31 00:00:00");
}

#[test]
fn parse_an_hour_ago() {
    expect("An hour ago", "2009-12-31 23:00:00");
}

#[test]
fn parse_a_minute_ago() {
    expect("A minute ago", "2009-12-31 23:59:00");
}

#[test]
fn parse_a_second_ago() {
    expect("A second ago", "2009-12-31 23:59:59");
}

#[test]
fn parse_now() {
    expect("now", "2010-01-01 00:00:00");
}

#[test]
fn parse_overmorrow() {
    expect("Overmorrow", "2010-01-03 00:00:00");
}

#[test]
fn parse_7_days_ago_at_04_00() {
    expect("7 days ago at 04:00", "2009-12-25 04:00:00");
}

#[test]
fn parse_12_hours_ago_at_04_00() {
    expect("12 hours ago at 04:00", "2009-12-31 16:00:00");
}

#[test]
fn parse_12_hours_ago_at_today() {
    expect("12 hours ago at today", "2009-12-31 12:00:00");
}

#[test]
fn parse_12_hours_ago_at_7_days_ago() {
    expect("12 hours ago at 7 days ago", "2009-12-24 12:00:00");
}

#[test]
fn parse_7_days_ago_at_7_days_ago() {
    expect("7 days ago at 7 days ago", "2009-12-18 00:00:00");
}

