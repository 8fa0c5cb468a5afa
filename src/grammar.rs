//! The supported phrasings, as a grammar over tokens, and the syntax tree that a
//! text of the grammar stands for.

use crate::ast::{
    Ago, Date, DateTime, Duration, HumanTime, HumanTimeModel, In, IsoDate, Quantifier,
    RelativeSpecifier, Time, TimeUnit,
};
use crate::error::{InternalError, ParseError};
use crate::lexer::{chars_of, lex, tokenize, Keyword, Token};
use crate::resolve::{is_date_unit, is_well_formed};
use vstd::prelude::*;

verus! {

pub open spec fn relative_of(t: Token) -> Option<RelativeSpecifier> {
    match t {
        Token::Word(Keyword::This) => Some(RelativeSpecifier::This),
        Token::Word(Keyword::Next) => Some(RelativeSpecifier::Next),
        Token::Word(Keyword::Last) => Some(RelativeSpecifier::Last),
        _ => None,
    }
}

/// A date: a named day, `YYYY-MM-DD`, "D Month [YYYY]", a weekday, or
/// "this/next/last" with a weekday, a date unit, or "week" and a weekday.
pub open spec fn date_of(t: Seq<Token>) -> Option<Date> {
    if t.len() == 1 {
        match t[0] {
            Token::Word(Keyword::Today) => Some(Date::Today),
            Token::Word(Keyword::Tomorrow) => Some(Date::Tomorrow),
            Token::Word(Keyword::Overmorrow) => Some(Date::Overmorrow),
            Token::Word(Keyword::Yesterday) => Some(Date::Yesterday),
            Token::Word(Keyword::Weekday(w)) => Some(Date::UpcomingWeekday(w)),
            Token::Iso(y, m, d) => Some(
                Date::IsoDate(IsoDate { year: y.value, month: m.value, day: d.value }),
            ),
            _ => None,
        }
    } else if t.len() == 2 {
        match (t[0], t[1]) {
            (Token::Num(d), Token::Word(Keyword::Month(m))) => Some(Date::DayMonth(d.value, m)),
            (a, Token::Word(Keyword::Unit(u))) => match relative_of(a) {
                Some(r) => if is_date_unit(u) {
                    Some(Date::RelativeTimeUnit(r, u))
                } else {
                    None
                },
                None => None,
            },
            (a, Token::Word(Keyword::Weekday(w))) => match relative_of(a) {
                Some(r) => Some(Date::RelativeWeekday(r, w)),
                None => None,
            },
            _ => None,
        }
    } else if t.len() == 3 {
        match (t[0], t[1], t[2]) {
            (Token::Num(d), Token::Word(Keyword::Month(m)), Token::Num(y)) => Some(
                Date::DayMonthYear(d.value, m, y.value),
            ),
            (a, Token::Word(Keyword::Unit(TimeUnit::Week)), Token::Word(Keyword::Weekday(w))) => {
                match relative_of(a) {
                    Some(r) => Some(Date::RelativeWeekWeekday(r, w)),
                    None => None,
                }
            },
            _ => None,
        }
    } else {
        None
    }
}

/// A time of day: `H:M` or `H:M:S`.
pub open spec fn time_of(t: Seq<Token>) -> Option<Time> {
    if t.len() == 1 {
        match t[0] {
            Token::Clock(h, m) => Some(Time::HourMinute(h.value, m.value)),
            Token::ClockSeconds(h, m, s) => Some(Time::HourMinuteSecond(h.value, m.value, s.value)),
            _ => None,
        }
    } else {
        None
    }
}

/// What may stand between a date and a time: nothing, a comma, or "at".
pub open spec fn is_separator(t: Token) -> bool {
    t == Token::Comma || t == Token::Word(Keyword::At)
}

/// A date and a time, in either order.
pub open spec fn date_time_of(t: Seq<Token>) -> Option<DateTime> {
    let n = t.len() as int;
    let date_first = if n >= 2 {
        match time_of(t.subrange(n - 1, n)) {
            Some(time) => {
                let end = if n >= 3 && is_separator(t[n - 2]) {
                    n - 2
                } else {
                    n - 1
                };
                match date_of(t.subrange(0, end)) {
                    Some(date) => Some(DateTime { date, time }),
                    None => None,
                }
            },
            None => None,
        }
    } else {
        None
    };
    if date_first is Some {
        date_first
    } else if n >= 2 {
        match time_of(t.subrange(0, 1)) {
            Some(time) => {
                let start = if n >= 3 && is_separator(t[1]) {
                    2
                } else {
                    1
                };
                match date_of(t.subrange(start, n)) {
                    Some(date) => Some(DateTime { date, time }),
                    None => None,
                }
            },
            None => None,
        }
    } else {
        None
    }
}

pub open spec fn quantifier_of(u: TimeUnit, n: u32) -> Quantifier {
    match u {
        TimeUnit::Year => Quantifier::Year(n),
        TimeUnit::Month => Quantifier::Month(n),
        TimeUnit::Week => Quantifier::Week(n),
        TimeUnit::Day => Quantifier::Day(n),
        TimeUnit::Hour => Quantifier::Hour(n),
        TimeUnit::Minute => Quantifier::Minute(n),
        TimeUnit::Second => Quantifier::Second(n),
    }
}

/// "<count> <unit>" terms, joined by commas or "and".
pub open spec fn quantifiers_of(t: Seq<Token>) -> Option<Seq<Quantifier>>
    decreases t.len(),
{
    if t.len() >= 2 {
        match (t[0], t[1]) {
            (Token::Num(n), Token::Word(Keyword::Unit(u))) => {
                let q = quantifier_of(u, n.value);
                if t.len() == 2 {
                    Some(seq![q])
                } else if t[2] == Token::Comma || t[2] == Token::Word(Keyword::And) {
                    match quantifiers_of(t.subrange(3, t.len() as int)) {
                        Some(rest) => Some(seq![q] + rest),
                        None => None,
                    }
                } else {
                    None
                }
            },
            _ => None,
        }
    } else {
        None
    }
}

/// A duration: "a/an <unit>", or one or more "<count> <unit>" terms.
pub open spec fn duration_of(t: Seq<Token>) -> Option<Seq<Quantifier>> {
    if t.len() == 2 && t[0] == Token::Word(Keyword::Article) {
        match t[1] {
            Token::Word(Keyword::Unit(u)) => Some(seq![quantifier_of(u, 1)]),
            _ => None,
        }
    } else {
        quantifiers_of(t)
    }
}

/// The position of the first "ago" from `i` on, or the length where there is none.
pub open spec fn find_ago(t: Seq<Token>, i: int) -> int
    decreases t.len() - i,
{
    if i < 0 || i >= t.len() {
        t.len() as int
    } else if t[i] == Token::Word(Keyword::Ago) {
        i
    } else {
        find_ago(t, i + 1)
    }
}

/// The expression that the tokens `t` form, trying in order: a date with a time,
/// a date, a time, "in <duration>", "<duration> ago [at <expression>]", "now".
pub open spec fn human_time_of(t: Seq<Token>) -> Option<HumanTimeModel>
    decreases t.len(),
{
    let n = t.len() as int;
    if let Some(dt) = date_time_of(t) {
        Some(HumanTimeModel::DateTime(dt))
    } else if let Some(d) = date_of(t) {
        Some(HumanTimeModel::Date(d))
    } else if let Some(x) = time_of(t) {
        Some(HumanTimeModel::Time(x))
    } else if n >= 2 && t[0] == Token::Word(Keyword::In) && duration_of(t.subrange(1, n)) is Some {
        Some(HumanTimeModel::In(duration_of(t.subrange(1, n))->0))
    } else {
        let i = find_ago(t, 0);
        let ago = if 0 < i < n {
            match duration_of(t.subrange(0, i)) {
                Some(qs) => if i == n - 1 {
                    Some(HumanTimeModel::AgoFromNow(qs))
                } else if t[i + 1] == Token::Word(Keyword::At) {
                    match human_time_of(t.subrange(i + 2, n)) {
                        Some(inner) => Some(HumanTimeModel::AgoFromTime(qs, Box::new(inner))),
                        None => None,
                    }
                } else {
                    None
                },
                None => None,
            }
        } else {
            None
        };
        if ago is Some {
            ago
        } else if n == 1 && t[0] == Token::Word(Keyword::Now) {
            Some(HumanTimeModel::Now)
        } else {
            None
        }
    }
}

pub open spec fn token_fits(t: Token) -> bool {
    match t {
        Token::Num(a) => a.fits,
        Token::Clock(a, b) => a.fits && b.fits,
        Token::ClockSeconds(a, b, c) | Token::Iso(a, b, c) => a.fits && b.fits && c.fits,
        _ => true,
    }
}

/// The deepest nesting of "<duration> ago at ..." that a text may have: a text
/// with more "ago" words than this is refused before it is parsed.
pub const MAX_NESTING: usize = 64;

/// The number of "ago" words in `t`.
pub open spec fn ago_count(t: Seq<Token>) -> nat
    decreases t.len(),
{
    if t.len() == 0 {
        0
    } else {
        ago_count(t.drop_last()) + if t.last() == Token::Word(Keyword::Ago) {
            1nat
        } else {
            0nat
        }
    }
}

/// The text `s` nests "ago" no deeper than `MAX_NESTING`.
pub open spec fn nesting_within_bound(s: Seq<char>) -> bool {
    match lex(s) {
        Some(ts) => ago_count(ts) <= MAX_NESTING,
        None => true,
    }
}

/// The expression that the text `s` reads as, if the grammar matches it whole.
pub open spec fn recognize(s: Seq<char>) -> Option<HumanTimeModel> {
    match lex(s) {
        Some(ts) => human_time_of(ts),
        None => None,
    }
}

/// Every number of the text `s` fits in `u32`.
pub open spec fn numbers_fit(s: Seq<char>) -> bool {
    match lex(s) {
        Some(ts) => forall|i: int| 0 <= i < ts.len() ==> token_fits(#[trigger] ts[i]),
        None => true,
    }
}

fn relative_at(t: Token) -> (r: Option<RelativeSpecifier>)
    ensures
        r == relative_of(t),
{
    match t {
        Token::Word(Keyword::This) => Some(RelativeSpecifier::This),
        Token::Word(Keyword::Next) => Some(RelativeSpecifier::Next),
        Token::Word(Keyword::Last) => Some(RelativeSpecifier::Last),
        _ => None,
    }
}

fn is_date_unit_exec(u: TimeUnit) -> (r: bool)
    ensures
        r == is_date_unit(u),
{
    match u {
        TimeUnit::Year | TimeUnit::Month | TimeUnit::Week | TimeUnit::Day => true,
        _ => false,
    }
}

fn parse_date_tokens(t: &Vec<Token>, lo: usize, hi: usize) -> (r: Option<Date>)
    requires
        lo <= hi <= t@.len(),
    ensures
        r == date_of(t@.subrange(lo as int, hi as int)),
{
    let ghost sub = t@.subrange(lo as int, hi as int);
    if hi - lo == 1 {
        assert(sub[0] == t@[lo as int]);
        match t[lo] {
            Token::Word(Keyword::Today) => Some(Date::Today),
            Token::Word(Keyword::Tomorrow) => Some(Date::Tomorrow),
            Token::Word(Keyword::Overmorrow) => Some(Date::Overmorrow),
            Token::Word(Keyword::Yesterday) => Some(Date::Yesterday),
            Token::Word(Keyword::Weekday(w)) => Some(Date::UpcomingWeekday(w)),
            Token::Iso(y, m, d) => Some(
                Date::IsoDate(IsoDate { year: y.value, month: m.value, day: d.value }),
            ),
            _ => None,
        }
    } else if hi - lo == 2 {
        assert(sub[0] == t@[lo as int] && sub[1] == t@[lo + 1]);
        match (t[lo], t[lo + 1]) {
            (Token::Num(d), Token::Word(Keyword::Month(m))) => Some(Date::DayMonth(d.value, m)),
            (a, Token::Word(Keyword::Unit(u))) => match relative_at(a) {
                Some(r) => if is_date_unit_exec(u) {
                    Some(Date::RelativeTimeUnit(r, u))
                } else {
                    None
                },
                None => None,
            },
            (a, Token::Word(Keyword::Weekday(w))) => match relative_at(a) {
                Some(r) => Some(Date::RelativeWeekday(r, w)),
                None => None,
            },
            _ => None,
        }
    } else if hi - lo == 3 {
        assert(sub[0] == t@[lo as int] && sub[1] == t@[lo + 1] && sub[2] == t@[lo + 2]);
        match (t[lo], t[lo + 1], t[lo + 2]) {
            (Token::Num(d), Token::Word(Keyword::Month(m)), Token::Num(y)) => Some(
                Date::DayMonthYear(d.value, m, y.value),
            ),
            (a, Token::Word(Keyword::Unit(TimeUnit::Week)), Token::Word(Keyword::Weekday(w))) => {
                match relative_at(a) {
                    Some(r) => Some(Date::RelativeWeekWeekday(r, w)),
                    None => None,
                }
            },
            _ => None,
        }
    } else {
        None
    }
}

fn parse_time_tokens(t: &Vec<Token>, lo: usize, hi: usize) -> (r: Option<Time>)
    requires
        lo <= hi <= t@.len(),
    ensures
        r == time_of(t@.subrange(lo as int, hi as int)),
{
    if hi - lo == 1 {
        assert(t@.subrange(lo as int, hi as int)[0] == t@[lo as int]);
        match t[lo] {
            Token::Clock(h, m) => Some(Time::HourMinute(h.value, m.value)),
            Token::ClockSeconds(h, m, s) => Some(Time::HourMinuteSecond(h.value, m.value, s.value)),
            _ => None,
        }
    } else {
        None
    }
}

fn is_separator_token(t: Token) -> (r: bool)
    ensures
        r == is_separator(t),
{
    t == Token::Comma || t == Token::Word(Keyword::At)
}

fn parse_date_time_tokens(t: &Vec<Token>, lo: usize, hi: usize) -> (r: Option<DateTime>)
    requires
        lo <= hi <= t@.len(),
    ensures
        r == date_time_of(t@.subrange(lo as int, hi as int)),
{
    let ghost sub = t@.subrange(lo as int, hi as int);
    let n = hi - lo;
    if n < 2 {
        return None;
    }
    assert(sub.subrange(n - 1, n as int) =~= t@.subrange(hi - 1, hi as int));
    if let Some(time) = parse_time_tokens(t, hi - 1, hi) {
        let end = if n >= 3 && is_separator_token(t[hi - 2]) {
            hi - 2
        } else {
            hi - 1
        };
        assert(sub.subrange(0, end - lo) =~= t@.subrange(lo as int, end as int));
        if let Some(date) = parse_date_tokens(t, lo, end) {
            return Some(DateTime { date, time });
        }
    }
    assert(sub.subrange(0, 1) =~= t@.subrange(lo as int, lo + 1));
    if let Some(time) = parse_time_tokens(t, lo, lo + 1) {
        let start = if n >= 3 && is_separator_token(t[lo + 1]) {
            lo + 2
        } else {
            lo + 1
        };
        assert(sub.subrange(start - lo, n as int) =~= t@.subrange(start as int, hi as int));
        if let Some(date) = parse_date_tokens(t, start, hi) {
            return Some(DateTime { date, time });
        }
    }
    None
}

fn quantifier_for(u: TimeUnit, n: u32) -> (r: Quantifier)
    ensures
        r == quantifier_of(u, n),
{
    match u {
        TimeUnit::Year => Quantifier::Year(n),
        TimeUnit::Month => Quantifier::Month(n),
        TimeUnit::Week => Quantifier::Week(n),
        TimeUnit::Day => Quantifier::Day(n),
        TimeUnit::Hour => Quantifier::Hour(n),
        TimeUnit::Minute => Quantifier::Minute(n),
        TimeUnit::Second => Quantifier::Second(n),
    }
}

fn parse_quantifiers(t: &Vec<Token>, lo: usize, hi: usize) -> (r: Option<Vec<Quantifier>>)
    requires
        lo <= hi <= t@.len(),
    ensures
        match r {
            Some(v) => quantifiers_of(t@.subrange(lo as int, hi as int)) == Some(v@),
            None => quantifiers_of(t@.subrange(lo as int, hi as int)) is None,
        },
    decreases hi - lo,
{
    let ghost sub = t@.subrange(lo as int, hi as int);
    if hi - lo < 2 {
        return None;
    }
    assert(sub[0] == t@[lo as int] && sub[1] == t@[lo + 1]);
    match (t[lo], t[lo + 1]) {
        (Token::Num(n), Token::Word(Keyword::Unit(u))) => {
            let q = quantifier_for(u, n.value);
            if hi - lo == 2 {
                let v = vec![q];
                assert(v@ =~= seq![q]);
                return Some(v);
            }
            assert(sub[2] == t@[lo + 2]);
            let sep = t[lo + 2];
            if sep == Token::Comma || sep == Token::Word(Keyword::And) {
                assert(sub.subrange(3, sub.len() as int) =~= t@.subrange(lo + 3, hi as int));
                match parse_quantifiers(t, lo + 3, hi) {
                    Some(rest) => {
                        let mut v = rest;
                        v.insert(0, q);
                        assert(v@ =~= seq![q] + rest@);
                        Some(v)
                    },
                    None => None,
                }
            } else {
                None
            }
        },
        _ => None,
    }
}

fn parse_duration(t: &Vec<Token>, lo: usize, hi: usize) -> (r: Option<Duration>)
    requires
        lo <= hi <= t@.len(),
    ensures
        match r {
            Some(d) => duration_of(t@.subrange(lo as int, hi as int)) == Some(d@),
            None => duration_of(t@.subrange(lo as int, hi as int)) is None,
        },
{
    let ghost sub = t@.subrange(lo as int, hi as int);
    if hi - lo == 2 && t[lo] == Token::Word(Keyword::Article) {
        assert(sub[0] == t@[lo as int] && sub[1] == t@[lo + 1]);
        match t[lo + 1] {
            Token::Word(Keyword::Unit(u)) => {
                let v = vec![quantifier_for(u, 1)];
                assert(v@ =~= seq![quantifier_of(u, 1)]);
                Some(Duration(v))
            },
            _ => None,
        }
    } else {
        proof {
            if hi - lo == 2 {
                assert(sub[0] == t@[lo as int]);
            }
        }
        match parse_quantifiers(t, lo, hi) {
            Some(v) => Some(Duration(v)),
            None => None,
        }
    }
}

fn find_ago_at(t: &Vec<Token>, lo: usize, hi: usize) -> (i: usize)
    requires
        lo <= hi <= t@.len(),
    ensures
        lo <= i <= hi,
        i - lo == find_ago(t@.subrange(lo as int, hi as int), 0),
{
    let ghost sub = t@.subrange(lo as int, hi as int);
    let mut i = lo;
    while i < hi && t[i] != Token::Word(Keyword::Ago)
        invariant
            lo <= i <= hi <= t@.len(),
            sub == t@.subrange(lo as int, hi as int),
            find_ago(sub, 0) == find_ago(sub, i - lo),
        decreases hi - i,
    {
        assert(sub[i - lo] == t@[i as int]);
        i += 1;
    }
    proof {
        if i < hi {
            assert(sub[i - lo] == t@[i as int]);
        }
    }
    i
}

/// The expression that the tokens `t[lo..hi]` form.
fn parse_tokens(t: &Vec<Token>, lo: usize, hi: usize) -> (r: Option<HumanTime>)
    requires
        lo <= hi <= t@.len(),
    ensures
        match r {
            Some(h) => human_time_of(t@.subrange(lo as int, hi as int)) == Some(h.model()),
            None => human_time_of(t@.subrange(lo as int, hi as int)) is None,
        },
    decreases hi - lo,
{
    let ghost sub = t@.subrange(lo as int, hi as int);
    let n = hi - lo;
    if let Some(dt) = parse_date_time_tokens(t, lo, hi) {
        return Some(HumanTime::DateTime(dt));
    }
    if let Some(d) = parse_date_tokens(t, lo, hi) {
        return Some(HumanTime::Date(d));
    }
    if let Some(x) = parse_time_tokens(t, lo, hi) {
        return Some(HumanTime::Time(x));
    }
    if n >= 2 && t[lo] == Token::Word(Keyword::In) {
        assert(sub.subrange(1, n as int) =~= t@.subrange(lo + 1, hi as int));
        if let Some(d) = parse_duration(t, lo + 1, hi) {
            return Some(HumanTime::In(In(d)));
        }
    }
    proof {
        if n >= 2 {
            assert(sub[0] == t@[lo as int]);
            assert(sub.subrange(1, n as int) =~= t@.subrange(lo + 1, hi as int));
        }
    }
    let i = find_ago_at(t, lo, hi);
    if lo < i && i < hi {
        assert(sub.subrange(0, i - lo) =~= t@.subrange(lo as int, i as int));
        if let Some(d) = parse_duration(t, lo, i) {
            if i == hi - 1 {
                return Some(HumanTime::Ago(Ago::AgoFromNow(d)));
            }
            assert(sub[i - lo + 1] == t@[i + 1]);
            if t[i + 1] == Token::Word(Keyword::At) {
                assert(sub.subrange(i - lo + 2, n as int) =~= t@.subrange(i + 2, hi as int));
                if let Some(inner) = parse_tokens(t, i + 2, hi) {
                    return Some(HumanTime::Ago(Ago::AgoFromTime(d, Box::new(inner))));
                }
            }
        }
    }
    proof {
        if n == 1 {
            assert(sub[0] == t@[lo as int]);
        }
    }
    if n == 1 && t[lo] == Token::Word(Keyword::Now) {
        return Some(HumanTime::Now);
    }
    None
}

proof fn lemma_recognized_well_formed(t: Seq<Token>)
    ensures
        human_time_of(t) matches Some(m) ==> is_well_formed(m),
    decreases t.len(),
{
    let n = t.len() as int;
    let i = find_ago(t, 0);
    if 0 < i < n - 1 {
        lemma_recognized_well_formed(t.subrange(i + 2, n));
    }
}

fn token_fits_exec(t: Token) -> (r: bool)
    ensures
        r == token_fits(t),
{
    match t {
        Token::Num(a) => a.fits,
        Token::Clock(a, b) => a.fits && b.fits,
        Token::ClockSeconds(a, b, c) | Token::Iso(a, b, c) => a.fits && b.fits && c.fits,
        _ => true,
    }
}

fn count_ago(t: &Vec<Token>) -> (r: usize)
    ensures
        r == ago_count(t@),
{
    let mut count: usize = 0;
    let mut i: usize = 0;
    while i < t.len()
        invariant
            0 <= i <= t@.len(),
            count == ago_count(t@.subrange(0, i as int)),
            count <= i,
        decreases t@.len() - i,
    {
        assert(t@.subrange(0, i + 1).drop_last() =~= t@.subrange(0, i as int));
        if t[i] == Token::Word(Keyword::Ago) {
            count += 1;
        }
        i += 1;
    }
    assert(t@.subrange(0, t@.len() as int) =~= t@);
    count
}

/// Reads the lowercased text `text` as a syntax tree. A text that the grammar does
/// not match whole, or that nests "ago" deeper than `MAX_NESTING`, is a format
/// error; a matched text with a number beyond `u32` is an internal error.
pub fn build_ast_from(text: &str) -> (r: Result<HumanTime, ParseError>)
    ensures
        match r {
            Ok(h) => recognize(text@) == Some(h.model()) && nesting_within_bound(text@)
                && numbers_fit(text@) && is_well_formed(h.model()),
            Err(ParseError::InvalidFormat) => recognize(text@) is None || !nesting_within_bound(
                text@,
            ),
            Err(ParseError::InternalError(_)) => recognize(text@) is Some && nesting_within_bound(
                text@,
            ) && !numbers_fit(text@),
            Err(ParseError::ProccessingErrors(_)) => false,
        },
{
    let chars = chars_of(text);
    let tokens = match tokenize(&chars) {
        Some(ts) => ts,
        None => {
            return Err(ParseError::InvalidFormat);
        },
    };
    if count_ago(&tokens) > MAX_NESTING {
        return Err(ParseError::InvalidFormat);
    }
    assert(tokens@.subrange(0, tokens@.len() as int) =~= tokens@);
    let parsed = match parse_tokens(&tokens, 0, tokens.len()) {
        Some(h) => h,
        None => {
            return Err(ParseError::InvalidFormat);
        },
    };
    proof {
        lemma_recognized_well_formed(tokens@);
    }
    let mut i: usize = 0;
    while i < tokens.len()
        invariant
            0 <= i <= tokens@.len(),
            forall|j: int| 0 <= j < i ==> token_fits(#[trigger] tokens@[j]),
            chars@ == text@,
            lex(chars@) == Some(tokens@),
            ago_count(tokens@) <= MAX_NESTING,
            human_time_of(tokens@) == Some(parsed.model()),
            is_well_formed(parsed.model()),
        decreases tokens@.len() - i,
    {
        if !token_fits_exec(tokens[i]) {
            assert(!token_fits(tokens@[i as int]));
            assert(lex(text@) == Some(tokens@));
            return Err(ParseError::InternalError(InternalError::FailedToBuildAst));
        }
        i += 1;
    }
    Ok(parsed)
}

} // verus!
