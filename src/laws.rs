//! Properties that hold across the functions of the library.

use crate::ast::{
    Date, DateTime, HumanTimeModel, IsoDate, Quantifier, RelativeSpecifier, Time, Weekday,
};
use crate::calendar::{
    lemma_day_number_onto, lemma_shift_days_back_and_forth, lemma_shift_seconds_back_and_forth,
    shift_days, CivilDate, LocalDateTime, TimeOfDay,
};
use crate::error::{ParseError, ParseResult, ProcessingError};
use crate::grammar::{ago_count, date_time_of, find_ago, human_time_of, token_fits};
use crate::lexer::{
    chunk_end, classify, digits_end, digits_value, is_space, keyword_of, lex, lex_from, Keyword,
    Number, Token,
};
use crate::outcome;
use crate::resolve::{
    apply_all, apply_quantifier, days_since, days_until, resolve, resolve_date, resolves_as,
    weekday_offset, Direction,
};
use vstd::prelude::*;

verus! {

proof fn lemma_apply_one(q: Quantifier, dt: LocalDateTime, direction: Direction)
    ensures
        apply_all(seq![q], dt, direction) == apply_quantifier(q, dt, direction),
{
    let one = seq![q];
    assert(one.drop_first() =~= Seq::<Quantifier>::empty());
    assert(one[0] == q);
    if let Some(next) = apply_quantifier(q, dt, direction) {
        assert(apply_all(one.drop_first(), next, direction) == Some(next));
    }
}

proof fn lemma_quantifier_back_and_forth(q: Quantifier, now: LocalDateTime)
    requires
        now.is_valid(),
    ensures
        apply_quantifier(q, now, Direction::Backwards) matches Some(r) ==> apply_quantifier(
            q,
            r,
            Direction::Forwards,
        ) == Some(now),
{
    if let Some(r) = apply_quantifier(q, now, Direction::Backwards) {
        match q {
            Quantifier::Year(n) => {},
            Quantifier::Month(n) => {
                let total = now.date.year * 12 + (now.date.month - 1) - n;
                assert(r.date.year * 12 + (r.date.month - 1) == total);
            },
            Quantifier::Week(n) => lemma_shift_days_back_and_forth(now.date, 7 * n, r.date),
            Quantifier::Day(n) => lemma_shift_days_back_and_forth(now.date, n as int, r.date),
            Quantifier::Hour(n) => lemma_shift_seconds_back_and_forth(now, 3600 * n, r),
            Quantifier::Minute(n) => lemma_shift_seconds_back_and_forth(now, 60 * n, r),
            Quantifier::Second(n) => lemma_shift_seconds_back_and_forth(now, n as int, r),
        }
    }
}

/// Counting a single quantifier back from `now` ("N units ago") and then forward
/// again from the result ("in N units") returns to `now`. Where the first step
/// would cross a day of the month that does not exist, it fails instead.
pub proof fn law_ago_then_in_returns(q: Quantifier, now: LocalDateTime)
    requires
        now.is_valid(),
    ensures
        resolve(HumanTimeModel::AgoFromNow(seq![q]), now) matches Some(ParseResult::DateTime(r))
            ==> resolve(HumanTimeModel::In(seq![q]), r) == Some(ParseResult::DateTime(now)),
{
    lemma_apply_one(q, now, Direction::Backwards);
    lemma_quantifier_back_and_forth(q, now);
    if let Some(r) = apply_quantifier(q, now, Direction::Backwards) {
        lemma_apply_one(q, r, Direction::Forwards);
    }
}

proof fn lemma_weekday_distances(from: int, to: int)
    requires
        0 <= from < 7,
        0 <= to < 7,
    ensures
        1 <= days_until(from, to) <= 7,
        (from + days_until(from, to)) % 7 == to,
        1 <= days_since(from, to) <= 7,
        (from - days_since(from, to)) % 7 == to,
{
}

proof fn lemma_weekday_step(now: LocalDateTime, k: int, w: Weekday)
    requires
        now.is_valid(),
        1 <= k <= 7 || -7 <= k <= -1,
        (now.date.weekday_index() + k) % 7 == w.index(),
    ensures
        shift_days(now.date, k) matches Some(d) ==> d != now.date && d.weekday_index() == w.index(),
{
    if let Some(d) = shift_days(now.date, k) {
        let a = now.date.day_number();
        lemma_day_number_onto(a + k);
        assert(d.day_number() == a + k);
        lemma_mod_shift(a, k);
    }
}

proof fn lemma_mod_shift(a: int, k: int)
    ensures
        (a + k) % 7 == (a % 7 + k) % 7,
{
}

pub(crate) proof fn lemma_forward_weekday(w: Weekday, now: LocalDateTime)
    requires
        now.is_valid(),
    ensures
        shift_days(now.date, weekday_offset(RelativeSpecifier::Next, w, now.date)) matches Some(d)
            ==> d != now.date && d.weekday_index() == w.index(),
{
    let cur = now.date.weekday_index();
    lemma_weekday_distances(cur, w.index());
    lemma_weekday_step(now, days_until(cur, w.index()), w);
}

pub(crate) proof fn lemma_backward_weekday(w: Weekday, now: LocalDateTime)
    requires
        now.is_valid(),
    ensures
        shift_days(now.date, weekday_offset(RelativeSpecifier::Last, w, now.date)) matches Some(d)
            ==> d != now.date && d.weekday_index() == w.index(),
{
    let cur = now.date.weekday_index();
    lemma_weekday_distances(cur, w.index());
    lemma_weekday_step(now, -days_since(cur, w.index()), w);
}

/// A bare weekday and "next <weekday>" never name today, even when today is that
/// weekday, and "last <weekday>" never does either; each names a day of that
/// weekday. "this <weekday>" names today when today is that weekday.
pub proof fn law_weekday_search(w: Weekday, now: LocalDateTime)
    requires
        now.is_valid(),
    ensures
        resolve(HumanTimeModel::Date(Date::UpcomingWeekday(w)), now) matches Some(
            ParseResult::Date(d),
        ) ==> d != now.date && d.weekday_index() == w.index(),
        resolve(HumanTimeModel::Date(Date::RelativeWeekday(RelativeSpecifier::Next, w)), now)
            matches Some(ParseResult::Date(d)) ==> d != now.date && d.weekday_index() == w.index(),
        resolve(HumanTimeModel::Date(Date::RelativeWeekday(RelativeSpecifier::Last, w)), now)
            matches Some(ParseResult::Date(d)) ==> d != now.date && d.weekday_index() == w.index(),
        now.date.weekday_index() == w.index() ==> resolve(
            HumanTimeModel::Date(Date::RelativeWeekday(RelativeSpecifier::This, w)),
            now,
        ) == Some(ParseResult::Date(now.date)),
{
    lemma_forward_weekday(w, now);
    lemma_backward_weekday(w, now);
    let cur = now.date.weekday_index();
    lemma_weekday_distances(cur, w.index());
}

/// Resolving the same expression relative to the same instant twice gives the
/// same outcome: both succeed with the same value, or both fail.
pub proof fn law_resolution_is_repeatable(
    m: HumanTimeModel,
    now: LocalDateTime,
    r1: Result<ParseResult, ParseError>,
    r2: Result<ParseResult, ParseError>,
)
    requires
        resolves_as(m, now, r1),
        resolves_as(m, now, r2),
    ensures
        r1 is Ok <==> r2 is Ok,
        r1 is Ok ==> r1 == r2,
{
}

/// Reading and resolving the same text relative to the same instant twice gives
/// the same outcome: the same value, or the same kind of error.
pub proof fn law_reading_is_repeatable(
    text: Seq<char>,
    now: LocalDateTime,
    r1: Result<ParseResult, ParseError>,
    r2: Result<ParseResult, ParseError>,
)
    requires
        outcome(text, now, r1),
        outcome(text, now, r2),
    ensures
        r1 is Ok <==> r2 is Ok,
        r1 is Ok ==> r1 == r2,
        r1 matches Err(ParseError::InvalidFormat) <==> r2 matches Err(ParseError::InvalidFormat),
        r1 matches Err(ParseError::InternalError(_)) <==> r2 matches Err(
            ParseError::InternalError(_),
        ),
{
}

proof fn lemma_no_ago_in_short(ts: Seq<Token>)
    requires
        ts.len() <= 2,
        forall|i: int| 0 <= i < ts.len() ==> ts[i] != Token::Word(Keyword::Ago),
    ensures
        ago_count(ts) == 0,
{
    let empty = Seq::<Token>::empty();
    assert(ago_count(empty) == 0);
    if ts.len() == 1 {
        assert(ts.drop_last() =~= empty);
    } else if ts.len() == 2 {
        let init = ts.drop_last();
        assert(init =~= seq![ts[0]]);
        assert(init.drop_last() =~= empty);
        assert(ago_count(init) == 0);
    }
}

/// The text "now" resolves to the reference instant itself, whatever it is.
pub proof fn law_now_is_the_reference(now: LocalDateTime, r: Result<ParseResult, ParseError>)
    requires
        outcome("now"@, now, r),
    ensures
        r == Ok::<ParseResult, ParseError>(ParseResult::DateTime(now)),
{
    reveal_strlit("now");
    let s = "now"@;
    assert(s.len() == 3 && s[0] == 'n' && s[1] == 'o' && s[2] == 'w');
    assert(chunk_end(s, 3) == 3);
    assert(chunk_end(s, 2) == 3);
    assert(chunk_end(s, 1) == 3);
    assert(chunk_end(s, 0) == 3);
    assert(digits_end(s, 0, 3) == 0);
    assert(s.subrange(0, 3) =~= s);
    assert(keyword_of(s) == Some(Keyword::Now));
    assert(lex_from(s, 3) == Some(Seq::<Token>::empty()));
    let ts = seq![Token::Word(Keyword::Now)];
    assert(seq![Token::Word(Keyword::Now)] + Seq::<Token>::empty() =~= ts);
    assert(lex(s) == Some(ts));
    assert(find_ago(ts, 1) == 1);
    assert(find_ago(ts, 0) == 1);
    assert(human_time_of(ts) == Some(HumanTimeModel::Now));
    lemma_no_ago_in_short(ts);
    assert(token_fits(ts[0]));
}

proof fn lemma_november_chunk()
    ensures
        chunk_end("2023-11-31"@, 0) == 10,
        "2023-11-31"@.len() == 10,
        !is_space("2023-11-31"@[0]),
        "2023-11-31"@[0] != ',',
{
    reveal_strlit("2023-11-31");
    let s = "2023-11-31"@;
    assert(chunk_end(s, 10) == 10);
    assert(chunk_end(s, 9) == 10);
    assert(chunk_end(s, 8) == 10);
    assert(chunk_end(s, 7) == 10);
    assert(chunk_end(s, 6) == 10);
    assert(chunk_end(s, 5) == 10);
    assert(chunk_end(s, 4) == 10);
    assert(chunk_end(s, 3) == 10);
    assert(chunk_end(s, 2) == 10);
    assert(chunk_end(s, 1) == 10);
}

proof fn lemma_november_digits()
    ensures
        digits_end("2023-11-31"@, 0, 10) == 4,
        digits_end("2023-11-31"@, 5, 10) == 7,
        digits_end("2023-11-31"@, 8, 10) == 10,
        "2023-11-31"@[4] == '-',
        "2023-11-31"@[7] == '-',
{
    reveal_strlit("2023-11-31");
    let s = "2023-11-31"@;
    assert(digits_end(s, 4, 10) == 4);
    assert(digits_end(s, 3, 10) == 4);
    assert(digits_end(s, 2, 10) == 4);
    assert(digits_end(s, 1, 10) == 4);
    assert(digits_end(s, 7, 10) == 7);
    assert(digits_end(s, 6, 10) == 7);
    assert(digits_end(s, 10, 10) == 10);
    assert(digits_end(s, 9, 10) == 10);
}

proof fn lemma_november_values()
    ensures
        digits_value("2023-11-31"@, 0, 4) == 2023,
        digits_value("2023-11-31"@, 5, 7) == 11,
        digits_value("2023-11-31"@, 8, 10) == 31,
{
    reveal_strlit("2023-11-31");
    let s = "2023-11-31"@;
    assert(s[0] == '2' && s[1] == '0' && s[2] == '2' && s[3] == '3');
    assert(s[5] == '1' && s[6] == '1' && s[8] == '3' && s[9] == '1');
    assert(digits_value(s, 0, 0) == 0);
    assert(digits_value(s, 5, 5) == 0);
    assert(digits_value(s, 8, 8) == 0);
    assert(digits_value(s, 0, 1) == 2);
    assert(digits_value(s, 0, 2) == 20);
    assert(digits_value(s, 0, 3) == 202);
    assert(digits_value(s, 5, 6) == 1);
    assert(digits_value(s, 8, 9) == 3);
}

proof fn lemma_november_tokens()
    ensures
        lex("2023-11-31"@) == Some(
            seq![
                Token::Iso(
                    Number { value: 2023, fits: true },
                    Number { value: 11, fits: true },
                    Number { value: 31, fits: true },
                ),
            ],
        ),
{
    let s = "2023-11-31"@;
    lemma_november_chunk();
    lemma_november_digits();
    lemma_november_values();
    let t = Token::Iso(
        Number { value: 2023, fits: true },
        Number { value: 11, fits: true },
        Number { value: 31, fits: true },
    );
    assert(classify(s, 0, 10) == Some(t));
    assert(lex_from(s, 10) == Some(Seq::<Token>::empty()));
    assert(seq![t] + Seq::<Token>::empty() =~= seq![t]);
}

/// "2023-11-31" names no date, whatever the reference instant: November has 30
/// days, and the date is neither moved to the 30th nor to the next month.
pub proof fn law_november_has_thirty_days(now: LocalDateTime, r: Result<ParseResult, ParseError>)
    requires
        outcome("2023-11-31"@, now, r),
    ensures
        r matches Err(ParseError::ProccessingErrors(v)) && v@.len() == 1 && v@[0]
            == (ProcessingError::InvalidDate { year: 2023, month: 11, day: 31 }),
{
    lemma_november_tokens();
    let t = Token::Iso(
        Number { value: 2023, fits: true },
        Number { value: 11, fits: true },
        Number { value: 31, fits: true },
    );
    let ts = seq![t];
    assert(find_ago(ts, 1) == 1);
    assert(find_ago(ts, 0) == 1);
    let date = Date::IsoDate(IsoDate { year: 2023, month: 11, day: 31 });
    assert(human_time_of(ts) == Some(HumanTimeModel::Date(date)));
    lemma_no_ago_in_short(ts);
    assert(token_fits(ts[0]));
    assert(resolve_date(date, now) is None);
}

proof fn lemma_timestamp_chunks()
    ensures
        "2022-11-07 13:25:30"@.len() == 19,
        chunk_end("2022-11-07 13:25:30"@, 0) == 10,
        chunk_end("2022-11-07 13:25:30"@, 11) == 19,
        !is_space("2022-11-07 13:25:30"@[0]) && "2022-11-07 13:25:30"@[0] != ',',
        is_space("2022-11-07 13:25:30"@[10]),
        !is_space("2022-11-07 13:25:30"@[11]) && "2022-11-07 13:25:30"@[11] != ',',
{
    reveal_strlit("2022-11-07 13:25:30");
    let s = "2022-11-07 13:25:30"@;
    assert(chunk_end(s, 10) == 10);
    assert(chunk_end(s, 9) == 10);
    assert(chunk_end(s, 8) == 10);
    assert(chunk_end(s, 7) == 10);
    assert(chunk_end(s, 6) == 10);
    assert(chunk_end(s, 5) == 10);
    assert(chunk_end(s, 4) == 10);
    assert(chunk_end(s, 3) == 10);
    assert(chunk_end(s, 2) == 10);
    assert(chunk_end(s, 1) == 10);
    assert(chunk_end(s, 19) == 19);
    assert(chunk_end(s, 18) == 19);
    assert(chunk_end(s, 17) == 19);
    assert(chunk_end(s, 16) == 19);
    assert(chunk_end(s, 15) == 19);
    assert(chunk_end(s, 14) == 19);
    assert(chunk_end(s, 13) == 19);
    assert(chunk_end(s, 12) == 19);
}

proof fn lemma_timestamp_digits()
    ensures
        digits_end("2022-11-07 13:25:30"@, 0, 10) == 4,
        digits_end("2022-11-07 13:25:30"@, 5, 10) == 7,
        digits_end("2022-11-07 13:25:30"@, 8, 10) == 10,
        "2022-11-07 13:25:30"@[4] == '-',
        "2022-11-07 13:25:30"@[7] == '-',
        digits_end("2022-11-07 13:25:30"@, 11, 19) == 13,
        digits_end("2022-11-07 13:25:30"@, 14, 19) == 16,
        digits_end("2022-11-07 13:25:30"@, 17, 19) == 19,
        "2022-11-07 13:25:30"@[13] == ':',
        "2022-11-07 13:25:30"@[16] == ':',
{
    reveal_strlit("2022-11-07 13:25:30");
    let s = "2022-11-07 13:25:30"@;
    assert(digits_end(s, 4, 10) == 4);
    assert(digits_end(s, 3, 10) == 4);
    assert(digits_end(s, 2, 10) == 4);
    assert(digits_end(s, 1, 10) == 4);
    assert(digits_end(s, 7, 10) == 7);
    assert(digits_end(s, 6, 10) == 7);
    assert(digits_end(s, 10, 10) == 10);
    assert(digits_end(s, 9, 10) == 10);
    assert(digits_end(s, 13, 19) == 13);
    assert(digits_end(s, 12, 19) == 13);
    assert(digits_end(s, 16, 19) == 16);
    assert(digits_end(s, 15, 19) == 16);
    assert(digits_end(s, 19, 19) == 19);
    assert(digits_end(s, 18, 19) == 19);
}

proof fn lemma_timestamp_values()
    ensures
        digits_value("2022-11-07 13:25:30"@, 0, 4) == 2022,
        digits_value("2022-11-07 13:25:30"@, 5, 7) == 11,
        digits_value("2022-11-07 13:25:30"@, 8, 10) == 7,
        digits_value("2022-11-07 13:25:30"@, 11, 13) == 13,
        digits_value("2022-11-07 13:25:30"@, 14, 16) == 25,
        digits_value("2022-11-07 13:25:30"@, 17, 19) == 30,
{
    reveal_strlit("2022-11-07 13:25:30");
    let s = "2022-11-07 13:25:30"@;
    assert(s[0] == '2' && s[1] == '0' && s[2] == '2' && s[3] == '2');
    assert(s[5] == '1' && s[6] == '1' && s[8] == '0' && s[9] == '7');
    assert(s[11] == '1' && s[12] == '3' && s[14] == '2' && s[15] == '5');
    assert(s[17] == '3' && s[18] == '0');
    assert(digits_value(s, 0, 0) == 0);
    assert(digits_value(s, 0, 1) == 2);
    assert(digits_value(s, 0, 2) == 20);
    assert(digits_value(s, 0, 3) == 202);
    assert(digits_value(s, 5, 5) == 0);
    assert(digits_value(s, 5, 6) == 1);
    assert(digits_value(s, 8, 8) == 0);
    assert(digits_value(s, 8, 9) == 0);
    assert(digits_value(s, 11, 11) == 0);
    assert(digits_value(s, 11, 12) == 1);
    assert(digits_value(s, 14, 14) == 0);
    assert(digits_value(s, 14, 15) == 2);
    assert(digits_value(s, 17, 17) == 0);
    assert(digits_value(s, 17, 18) == 3);
}

spec fn num(v: u32) -> Number {
    Number { value: v, fits: true }
}

proof fn lemma_timestamp_tokens()
    ensures
        lex("2022-11-07 13:25:30"@) == Some(
            seq![
                Token::Iso(num(2022), num(11), num(7)),
                Token::ClockSeconds(num(13), num(25), num(30)),
            ],
        ),
{
    let s = "2022-11-07 13:25:30"@;
    lemma_timestamp_chunks();
    lemma_timestamp_digits();
    lemma_timestamp_values();
    let a = Token::Iso(num(2022), num(11), num(7));
    let b = Token::ClockSeconds(num(13), num(25), num(30));
    assert(classify(s, 0, 10) == Some(a));
    assert(classify(s, 11, 19) == Some(b));
    assert(lex_from(s, 19) == Some(Seq::<Token>::empty()));
    assert(seq![b] + Seq::<Token>::empty() =~= seq![b]);
    assert(lex_from(s, 11) == Some(seq![b]));
    assert(lex_from(s, 10) == Some(seq![b]));
    assert(seq![a] + seq![b] =~= seq![a, b]);
}

/// "2022-11-07 13:25:30" names that date and time, whatever the reference instant.
pub proof fn law_timestamp_ignores_reference(now: LocalDateTime, r: Result<ParseResult, ParseError>)
    requires
        outcome("2022-11-07 13:25:30"@, now, r),
    ensures
        r == Ok::<ParseResult, ParseError>(
            ParseResult::DateTime(
                LocalDateTime {
                    date: CivilDate { year: 2022, month: 11, day: 7 },
                    time: TimeOfDay { hour: 13, minute: 25, second: 30, nanosecond: 0 },
                },
            ),
        ),
{
    lemma_timestamp_tokens();
    let a = Token::Iso(num(2022), num(11), num(7));
    let b = Token::ClockSeconds(num(13), num(25), num(30));
    let ts = seq![a, b];
    assert(ts.subrange(1, 2) =~= seq![b]);
    assert(ts.subrange(0, 1) =~= seq![a]);
    let dt = DateTime {
        date: Date::IsoDate(IsoDate { year: 2022, month: 11, day: 7 }),
        time: Time::HourMinuteSecond(13, 25, 30),
    };
    assert(date_time_of(ts) == Some(dt));
    assert(human_time_of(ts) == Some(HumanTimeModel::DateTime(dt)));
    lemma_no_ago_in_short(ts);
    assert(token_fits(ts[0]) && token_fits(ts[1]));
}

} // verus!
