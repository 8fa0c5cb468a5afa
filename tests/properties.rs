use human_date_parser::{
    build_ast_from, from_human_time, from_lowercase_human_time, parse_human_time, Ago, CivilDate, Date, Duration, HumanTime,
    In, InternalError, IsoDate, LocalDateTime, Month, ParseError, ParseResult, ProcessingError,
    Quantifier, RelativeSpecifier, Time, TimeOfDay, TimeUnit, Weekday,
};

fn at(year: i32, month: u32, day: u32, hour: u32, minute: u32, second: u32) -> LocalDateTime {
    LocalDateTime {
        date: CivilDate { year, month, day },
        time: TimeOfDay { hour, minute, second, nanosecond: 0 },
    }
}

fn friday() -> LocalDateTime {
    at(2010, 1, 1, 0, 0, 0)
}

fn date(year: i32, month: u32, day: u32) -> ParseResult {
    ParseResult::Date(CivilDate { year, month, day })
}

fn processing_errors(r: Result<ParseResult, ParseError>) -> Vec<ProcessingError> {
    match r {
        Err(ParseError::ProccessingErrors(v)) => v,
        other => panic!("expected processing errors, got {other:?}"),
    }
}

#[test]
fn now_returns_reference_exactly() {
    let now = LocalDateTime {
        date: CivilDate { year: 2021, month: 6, day: 15 },
        time: TimeOfDay { hour: 13, minute: 7, second: 42, nanosecond: 123_456_789 },
    };
    assert_eq!(from_human_time("now", now).unwrap(), ParseResult::DateTime(now));
    assert_eq!(from_human_time("  NOW\n", now).unwrap(), ParseResult::DateTime(now));
}

#[test]
fn iso_date_time_ignores_reference() {
    let expected = ParseResult::DateTime(at(2022, 11, 7, 13, 25, 30));
    assert_eq!(from_human_time("2022-11-07 13:25:30", friday()).unwrap(), expected);
    assert_eq!(from_human_time("2022-11-07 13:25:30", at(1999, 3, 4, 5, 6, 7)).unwrap(), expected);
}

#[test]
fn november_thirty_first_is_invalid() {
    let errors = processing_errors(from_human_time("2023-11-31", friday()));
    assert_eq!(errors.len(), 1);
    assert!(matches!(
        errors[0],
        ProcessingError::InvalidDate { year: 2023, month: 11, day: 31 }
    ));
}

#[test]
fn invalid_date_and_time_are_both_reported() {
    let errors = processing_errors(from_human_time("2023-11-31 25:61", friday()));
    assert_eq!(errors.len(), 2);
    assert!(matches!(errors[0], ProcessingError::InvalidDate { year: 2023, month: 11, day: 31 }));
    assert!(matches!(errors[1], ProcessingError::TimeHourMinute { hour: 25, minute: 61 }));
}

#[test]
fn invalid_time_with_seconds() {
    let errors = processing_errors(from_human_time("23:59:60", friday()));
    assert!(matches!(
        errors[0],
        ProcessingError::TimeHourMinuteSecond { hour: 23, minute: 59, second: 60 }
    ));
}

#[test]
fn weekday_examples_on_a_friday() {
    let now = friday();
    assert_eq!(from_human_time("last friday", now).unwrap(), date(2009, 12, 25));
    assert_eq!(from_human_time("next friday", now).unwrap(), date(2010, 1, 8));
    assert_eq!(from_human_time("this friday", now).unwrap(), date(2010, 1, 1));
    assert_eq!(from_human_time("friday", now).unwrap(), date(2010, 1, 8));
    assert_eq!(from_human_time("next week monday", now).unwrap(), date(2010, 1, 4));
    assert_eq!(from_human_time("this saturday", now).unwrap(), date(2010, 1, 2));
    assert_eq!(from_human_time("last saturday", now).unwrap(), date(2009, 12, 26));
}

#[test]
fn duration_examples_on_a_friday() {
    let now = friday();
    assert_eq!(
        from_human_time("in 5 minutes and 30 seconds", now).unwrap(),
        ParseResult::DateTime(at(2010, 1, 1, 0, 5, 30))
    );
    assert_eq!(
        from_human_time("1 year, 1 month, 1 week, 1 day, 1 hour, 1 minute and 1 second ago", now)
            .unwrap(),
        ParseResult::DateTime(at(2008, 11, 22, 22, 58, 59))
    );
    assert_eq!(
        from_human_time("12 hours ago at 7 days ago", now).unwrap(),
        ParseResult::DateTime(at(2009, 12, 24, 12, 0, 0))
    );
}

#[test]
fn resolving_twice_gives_the_same_result() {
    let now = at(2020, 2, 29, 10, 0, 0);
    for text in ["a year ago", "next week tuesday", "3 weeks ago at 11:00", "garbage"] {
        let first = from_human_time(text, now);
        let second = from_human_time(text, now);
        assert_eq!(format!("{first:?}"), format!("{second:?}"));
    }
}

#[test]
fn ago_then_in_round_trip() {
    let now = at(2015, 7, 19, 8, 30, 0);
    for unit in ["years", "months", "weeks", "days", "hours", "minutes", "seconds"] {
        let back = match from_human_time(&format!("3 {unit} ago"), now).unwrap() {
            ParseResult::DateTime(dt) => dt,
            other => panic!("unexpected {other:?}"),
        };
        assert_ne!(back, now);
        let forth = from_human_time(&format!("in 3 {unit}"), back).unwrap();
        assert_eq!(forth, ParseResult::DateTime(now), "unit {unit}");
    }
}

#[test]
fn month_without_the_day_fails() {
    let now = at(2010, 3, 31, 12, 0, 0);
    let errors = processing_errors(from_human_time("a month ago", now));
    match &errors[0] {
        ProcessingError::SubtractFromDate { unit, count, date } => {
            assert_eq!(unit, "months");
            assert_eq!(*count, 1);
            assert_eq!(*date, now);
        }
        other => panic!("unexpected {other:?}"),
    }
    let errors = processing_errors(from_human_time("in 1 month", at(2010, 1, 31, 0, 0, 0)));
    assert!(matches!(&errors[0], ProcessingError::AddToDate { count: 1, .. }));
}

#[test]
fn leap_day_year_ago_fails() {
    let now = at(2012, 2, 29, 0, 0, 0);
    let errors = processing_errors(from_human_time("a year ago", now));
    match &errors[0] {
        ProcessingError::SubtractFromDate { unit, count, date } => {
            assert_eq!(unit, "years");
            assert_eq!(*count, 1);
            assert_eq!(*date, now);
        }
        other => panic!("unexpected {other:?}"),
    }
}

#[test]
fn leap_day_four_years_ago() {
    assert_eq!(
        from_human_time("4 years ago", at(2012, 2, 29, 6, 0, 0)).unwrap(),
        ParseResult::DateTime(at(2008, 2, 29, 6, 0, 0))
    );
}

#[test]
fn year_beyond_range_fails() {
    let errors = processing_errors(from_human_time("in 1000000 years", friday()));
    match &errors[0] {
        ProcessingError::AddToDate { unit, count, date } => {
            assert_eq!(unit, "years");
            assert_eq!(*count, 1_000_000);
            assert_eq!(*date, friday());
        }
        other => panic!("unexpected {other:?}"),
    }
}

#[test]
fn days_beyond_range_fail() {
    let errors = processing_errors(from_human_time("in 4000000000 days", friday()));
    match &errors[0] {
        ProcessingError::AddToDate { unit, count, .. } => {
            assert_eq!(unit, "days");
            assert_eq!(*count, 4_000_000_000);
        }
        other => panic!("unexpected {other:?}"),
    }
}

#[test]
fn tomorrow_beyond_range_fails() {
    let errors = processing_errors(from_human_time("tomorrow", at(262142, 12, 31, 0, 0, 0)));
    match &errors[0] {
        ProcessingError::AddToNow { unit, count } => {
            assert_eq!(unit, "days");
            assert_eq!(*count, 1);
        }
        other => panic!("unexpected {other:?}"),
    }
}

#[test]
fn yesterday_before_range_fails() {
    let errors = processing_errors(from_human_time("yesterday", at(-262143, 1, 1, 0, 0, 0)));
    assert!(matches!(&errors[0], ProcessingError::SubtractFromNow { count: 1, .. }));
}

#[test]
fn nested_failure_is_wrapped() {
    let errors = processing_errors(from_human_time("2 days ago at 2023-02-30", friday()));
    match &errors[0] {
        ProcessingError::InnerHumanTimeParse(inner) => match inner.as_ref() {
            ParseError::ProccessingErrors(v) => {
                assert!(matches!(v[0], ProcessingError::InvalidDate { year: 2023, month: 2, day: 30 }))
            }
            other => panic!("unexpected {other:?}"),
        },
        other => panic!("unexpected {other:?}"),
    }
}

#[test]
fn unknown_text_is_a_format_error() {
    for text in ["", "gibberish", "in", "next", "3 hours", "ago", "next hour", "12:", "2022-1-07", "now now"] {
        assert!(
            matches!(from_human_time(text, friday()), Err(ParseError::InvalidFormat)),
            "text: {text:?}"
        );
    }
}

#[test]
fn oversized_number_is_an_internal_error() {
    assert!(matches!(
        from_human_time("99999999999 days ago", friday()),
        Err(ParseError::InternalError(InternalError::FailedToBuildAst))
    ));
    assert!(matches!(
        from_human_time("99999999999 bananas", friday()),
        Err(ParseError::InvalidFormat)
    ));
}

#[test]
fn uppercase_letters_are_accepted() {
    assert_eq!(from_human_time("TOMORROW", friday()).unwrap(), date(2010, 1, 2));
    assert_eq!(from_human_time("7 February", friday()).unwrap(), date(2010, 2, 7));
}

#[test]
fn time_alone_is_a_time() {
    assert_eq!(
        from_human_time("15:10", friday()).unwrap(),
        ParseResult::Time(TimeOfDay { hour: 15, minute: 10, second: 0, nanosecond: 0 })
    );
}

#[test]
fn next_month_and_last_year() {
    let now = at(2010, 5, 20, 9, 0, 0);
    assert_eq!(from_human_time("next month", now).unwrap(), date(2010, 6, 20));
    assert_eq!(from_human_time("last year", now).unwrap(), date(2009, 5, 20));
    assert_eq!(from_human_time("next day", now).unwrap(), date(2010, 5, 21));
    assert_eq!(from_human_time("this month", now).unwrap(), date(2010, 5, 20));
}

#[test]
fn build_ast_shapes() {
    assert!(matches!(build_ast_from("now"), Ok(HumanTime::Now)));
    assert!(matches!(
        build_ast_from("2022-11-07"),
        Ok(HumanTime::Date(Date::IsoDate(IsoDate { year: 2022, month: 11, day: 7 })))
    ));
    assert!(matches!(
        build_ast_from("7 february 2015"),
        Ok(HumanTime::Date(Date::DayMonthYear(7, Month::February, 2015)))
    ));
    assert!(matches!(
        build_ast_from("last week tuesday"),
        Ok(HumanTime::Date(Date::RelativeWeekWeekday(RelativeSpecifier::Last, Weekday::Tuesday)))
    ));
    assert!(matches!(
        build_ast_from("next week"),
        Ok(HumanTime::Date(Date::RelativeTimeUnit(RelativeSpecifier::Next, TimeUnit::Week)))
    ));
    assert!(matches!(
        build_ast_from("13:25:07"),
        Ok(HumanTime::Time(Time::HourMinuteSecond(13, 25, 7)))
    ));
    match build_ast_from("in 5 minutes and 30 seconds") {
        Ok(HumanTime::In(In(d))) => {
            assert_eq!(d, Duration(vec![Quantifier::Minute(5), Quantifier::Second(30)]))
        }
        other => panic!("unexpected {other:?}"),
    }
    match build_ast_from("an hour ago at 7 days ago") {
        Ok(HumanTime::Ago(Ago::AgoFromTime(d, inner))) => {
            assert_eq!(d, Duration(vec![Quantifier::Hour(1)]));
            match *inner {
                HumanTime::Ago(Ago::AgoFromNow(d)) => {
                    assert_eq!(d, Duration(vec![Quantifier::Day(7)]))
                }
                other => panic!("unexpected {other:?}"),
            }
        }
        other => panic!("unexpected {other:?}"),
    }
}

#[test]
fn resolve_a_built_tree() {
    let tree = HumanTime::Ago(Ago::AgoFromNow(Duration(vec![Quantifier::Week(2)])));
    assert_eq!(
        parse_human_time(tree, friday()).unwrap(),
        ParseResult::DateTime(at(2009, 12, 18, 0, 0, 0))
    );
    let tree = HumanTime::Date(Date::RelativeWeekday(RelativeSpecifier::This, Weekday::Monday));
    assert_eq!(parse_human_time(tree, friday()).unwrap(), date(2010, 1, 4));
}

#[test]
fn lowercase_entry_point_takes_text_as_given() {
    assert!(matches!(
        from_lowercase_human_time("Last Friday", friday()),
        Err(ParseError::InvalidFormat)
    ));
    assert_eq!(from_lowercase_human_time("last friday", friday()).unwrap(), date(2009, 12, 25));
    assert_eq!(from_human_time("Last Friday", friday()).unwrap(), date(2009, 12, 25));
}

#[test]
fn comma_and_at_separate_date_and_time() {
    let expected = ParseResult::DateTime(at(2010, 1, 2, 7, 5, 0));
    assert_eq!(from_human_time("tomorrow, 07:05", friday()).unwrap(), expected);
    assert_eq!(from_human_time("07:05 at tomorrow", friday()).unwrap(), expected);
    assert_eq!(from_human_time("tomorrow at 07:05", friday()).unwrap(), expected);
}

fn nested_seconds_ago(levels: usize) -> String {
    let mut text = String::from("1 second ago");
    for _ in 1..levels {
        text = format!("1 second ago at {text}");
    }
    text
}

#[test]
fn nesting_up_to_the_bound_resolves() {
    let r = from_human_time(&nested_seconds_ago(64), friday()).unwrap();
    assert_eq!(r, ParseResult::DateTime(at(2009, 12, 31, 23, 58, 56)));
}

#[test]
fn nesting_beyond_the_bound_is_refused() {
    assert!(matches!(
        from_human_time(&nested_seconds_ago(65), friday()),
        Err(ParseError::InvalidFormat)
    ));
    assert!(matches!(
        from_human_time(&nested_seconds_ago(20_000), friday()),
        Err(ParseError::InvalidFormat)
    ));
}
