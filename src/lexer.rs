//! Splits a lowercased text into the words, numbers, clock times, dates and
//! commas that the grammar reads.

use crate::ast::{Month, TimeUnit, Weekday};
use vstd::prelude::*;

verus! {

/// A decimal number of the text; `fits` is false where it exceeds `u32`, and then
/// `value` is 0.
#[derive(Clone, Copy, Debug, PartialEq, Eq, Structural)]
pub struct Number {
    pub value: u32,
    pub fits: bool,
}

/// A word that the grammar knows.
#[derive(Clone, Copy, Debug, PartialEq, Eq, Structural)]
pub enum Keyword {
    Now,
    Today,
    Tomorrow,
    Overmorrow,
    Yesterday,
    In,
    Ago,
    At,
    And,
    /// "a" or "an".
    Article,
    This,
    Next,
    Last,
    Unit(TimeUnit),
    Weekday(Weekday),
    Month(Month),
}

#[derive(Clone, Copy, Debug, PartialEq, Eq, Structural)]
pub enum Token {
    Word(Keyword),
    Num(Number),
    /// `H:M`
    Clock(Number, Number),
    /// `H:M:S`
    ClockSeconds(Number, Number, Number),
    /// `YYYY-MM-DD`
    Iso(Number, Number, Number),
    Comma,
}

pub open spec fn is_space(c: char) -> bool {
    c == ' ' || c == '\t' || c == '\n' || c == '\r'
}

pub open spec fn is_digit(c: char) -> bool {
    '0' <= c && c <= '9'
}

/// A character of a word, number, clock time or date.
pub open spec fn is_chunk_char(c: char) -> bool {
    !is_space(c) && c != ','
}

/// The end of the run of chunk characters that starts at `i`.
pub open spec fn chunk_end(s: Seq<char>, i: int) -> int
    decreases s.len() - i,
{
    if 0 <= i < s.len() && is_chunk_char(s[i]) {
        chunk_end(s, i + 1)
    } else {
        i
    }
}

/// The end of the run of digits that starts at `i` and stops before `hi`.
pub open spec fn digits_end(s: Seq<char>, i: int, hi: int) -> int
    decreases hi - i,
{
    if 0 <= i < hi && hi <= s.len() && is_digit(s[i]) {
        digits_end(s, i + 1, hi)
    } else {
        i
    }
}

/// The value of the decimal digits `s[lo..hi]`.
pub open spec fn digits_value(s: Seq<char>, lo: int, hi: int) -> nat
    decreases hi - lo,
{
    if hi <= lo {
        0
    } else {
        (digits_value(s, lo, hi - 1) * 10 + (s[hi - 1] as int - '0' as int)) as nat
    }
}

pub open spec fn number_of(s: Seq<char>, lo: int, hi: int) -> Number {
    let v = digits_value(s, lo, hi);
    if v <= u32::MAX {
        Number { value: v as u32, fits: true }
    } else {
        Number { value: 0, fits: false }
    }
}

pub open spec fn keyword_of(w: Seq<char>) -> Option<Keyword> {
    if w == "now"@ {
        Some(Keyword::Now)
    } else if w == "today"@ {
        Some(Keyword::Today)
    } else if w == "tomorrow"@ {
        Some(Keyword::Tomorrow)
    } else if w == "overmorrow"@ {
        Some(Keyword::Overmorrow)
    } else if w == "yesterday"@ {
        Some(Keyword::Yesterday)
    } else if w == "in"@ {
        Some(Keyword::In)
    } else if w == "ago"@ {
        Some(Keyword::Ago)
    } else if w == "at"@ {
        Some(Keyword::At)
    } else if w == "and"@ {
        Some(Keyword::And)
    } else if w == "a"@ {
        Some(Keyword::Article)
    } else if w == "an"@ {
        Some(Keyword::Article)
    } else if w == "this"@ {
        Some(Keyword::This)
    } else if w == "next"@ {
        Some(Keyword::Next)
    } else if w == "last"@ {
        Some(Keyword::Last)
    } else if w == "year"@ {
        Some(Keyword::Unit(TimeUnit::Year))
    } else if w == "years"@ {
        Some(Keyword::Unit(TimeUnit::Year))
    } else if w == "month"@ {
        Some(Keyword::Unit(TimeUnit::Month))
    } else if w == "months"@ {
        Some(Keyword::Unit(TimeUnit::Month))
    } else if w == "week"@ {
        Some(Keyword::Unit(TimeUnit::Week))
    } else if w == "weeks"@ {
        Some(Keyword::Unit(TimeUnit::Week))
    } else if w == "day"@ {
        Some(Keyword::Unit(TimeUnit::Day))
    } else if w == "days"@ {
        Some(Keyword::Unit(TimeUnit::Day))
    } else if w == "hour"@ {
        Some(Keyword::Unit(TimeUnit::Hour))
    } else if w == "hours"@ {
        Some(Keyword::Unit(TimeUnit::Hour))
    } else if w == "minute"@ {
        Some(Keyword::Unit(TimeUnit::Minute))
    } else if w == "minutes"@ {
        Some(Keyword::Unit(TimeUnit::Minute))
    } else if w == "second"@ {
        Some(Keyword::Unit(TimeUnit::Second))
    } else if w == "seconds"@ {
        Some(Keyword::Unit(TimeUnit::Second))
    } else if w == "monday"@ {
        Some(Keyword::Weekday(Weekday::Monday))
    } else if w == "tuesday"@ {
        Some(Keyword::Weekday(Weekday::Tuesday))
    } else if w == "wednesday"@ {
        Some(Keyword::Weekday(Weekday::Wednesday))
    } else if w == "thursday"@ {
        Some(Keyword::Weekday(Weekday::Thursday))
    } else if w == "friday"@ {
        Some(Keyword::Weekday(Weekday::Friday))
    } else if w == "saturday"@ {
        Some(Keyword::Weekday(Weekday::Saturday))
    } else if w == "sunday"@ {
        Some(Keyword::Weekday(Weekday::Sunday))
    } else if w == "january"@ {
        Some(Keyword::Month(Month::January))
    } else if w == "february"@ {
        Some(Keyword::Month(Month::February))
    } else if w == "march"@ {
        Some(Keyword::Month(Month::March))
    } else if w == "april"@ {
        Some(Keyword::Month(Month::April))
    } else if w == "may"@ {
        Some(Keyword::Month(Month::May))
    } else if w == "june"@ {
        Some(Keyword::Month(Month::June))
    } else if w == "july"@ {
        Some(Keyword::Month(Month::July))
    } else if w == "august"@ {
        Some(Keyword::Month(Month::August))
    } else if w == "september"@ {
        Some(Keyword::Month(Month::September))
    } else if w == "october"@ {
        Some(Keyword::Month(Month::October))
    } else if w == "november"@ {
        Some(Keyword::Month(Month::November))
    } else if w == "december"@ {
        Some(Keyword::Month(Month::December))
    } else {
        None
    }
}

/// The token that the chunk `s[lo..hi]` stands for: a known word, a number,
/// `H:M`, `H:M:S` or `YYYY-MM-DD`.
pub open spec fn classify(s: Seq<char>, lo: int, hi: int) -> Option<Token> {
    let a = digits_end(s, lo, hi);
    if a == lo {
        match keyword_of(s.subrange(lo, hi)) {
            Some(k) => Some(Token::Word(k)),
            None => None,
        }
    } else if a == hi {
        Some(Token::Num(number_of(s, lo, hi)))
    } else if s[a] == ':' {
        let b = digits_end(s, a + 1, hi);
        if b == a + 1 {
            None
        } else if b == hi {
            Some(Token::Clock(number_of(s, lo, a), number_of(s, a + 1, b)))
        } else if s[b] == ':' {
            let c = digits_end(s, b + 1, hi);
            if c > b + 1 && c == hi {
                Some(
                    Token::ClockSeconds(
                        number_of(s, lo, a),
                        number_of(s, a + 1, b),
                        number_of(s, b + 1, c),
                    ),
                )
            } else {
                None
            }
        } else {
            None
        }
    } else if s[a] == '-' && a - lo == 4 {
        let b = digits_end(s, a + 1, hi);
        if b - (a + 1) == 2 && b < hi && s[b] == '-' {
            let c = digits_end(s, b + 1, hi);
            if c - (b + 1) == 2 && c == hi {
                Some(Token::Iso(number_of(s, lo, a), number_of(s, a + 1, b), number_of(s, b + 1, c)))
            } else {
                None
            }
        } else {
            None
        }
    } else {
        None
    }
}

pub open spec fn prepend(t: Token, rest: Option<Seq<Token>>) -> Option<Seq<Token>> {
    match rest {
        Some(ts) => Some(seq![t] + ts),
        None => None,
    }
}

/// The tokens of `s[i..]`: whitespace separates them, a comma is a token of its own;
/// `None` where a chunk is no token.
pub open spec fn lex_from(s: Seq<char>, i: int) -> Option<Seq<Token>>
    decreases s.len() - i,
{
    if i < 0 || i >= s.len() {
        Some(Seq::empty())
    } else if is_space(s[i]) {
        lex_from(s, i + 1)
    } else if s[i] == ',' {
        prepend(Token::Comma, lex_from(s, i + 1))
    } else {
        let e = chunk_end(s, i);
        match classify(s, i, e) {
            Some(t) => if i < e <= s.len() {
                prepend(t, lex_from(s, e))
            } else {
                None
            },
            None => None,
        }
    }
}

pub open spec fn lex(s: Seq<char>) -> Option<Seq<Token>> {
    lex_from(s, 0)
}

/// Whether `s[lo..hi]` is the text `lit`.
fn word_equals(s: &Vec<char>, lo: usize, hi: usize, lit: &str) -> (r: bool)
    requires
        lo <= hi <= s@.len(),
    ensures
        r == (s@.subrange(lo as int, hi as int) == lit@),
{
    let n = lit.unicode_len();
    if hi - lo != n {
        return false;
    }
    let mut k: usize = 0;
    while k < n
        invariant
            n == lit@.len(),
            hi - lo == n,
            lo <= hi <= s@.len(),
            0 <= k <= n,
            forall|j: int| 0 <= j < k ==> s@[lo + j] == lit@[j],
        decreases n - k,
    {
        if s[lo + k] != lit.get_char(k) {
            assert(s@.subrange(lo as int, hi as int)[k as int] != lit@[k as int]);
            return false;
        }
        k += 1;
    }
    assert(s@.subrange(lo as int, hi as int) =~= lit@);
    true
}

fn keyword_at(s: &Vec<char>, lo: usize, hi: usize) -> (r: Option<Keyword>)
    requires
        lo <= hi <= s@.len(),
    ensures
        r == keyword_of(s@.subrange(lo as int, hi as int)),
{
    if word_equals(s, lo, hi, "now") {
        Some(Keyword::Now)
    } else if word_equals(s, lo, hi, "today") {
        Some(Keyword::Today)
    } else if word_equals(s, lo, hi, "tomorrow") {
        Some(Keyword::Tomorrow)
    } else if word_equals(s, lo, hi, "overmorrow") {
        Some(Keyword::Overmorrow)
    } else if word_equals(s, lo, hi, "yesterday") {
        Some(Keyword::Yesterday)
    } else if word_equals(s, lo, hi, "in") {
        Some(Keyword::In)
    } else if word_equals(s, lo, hi, "ago") {
        Some(Keyword::Ago)
    } else if word_equals(s, lo, hi, "at") {
        Some(Keyword::At)
    } else if word_equals(s, lo, hi, "and") {
        Some(Keyword::And)
    } else if word_equals(s, lo, hi, "a") {
        Some(Keyword::Article)
    } else if word_equals(s, lo, hi, "an") {
        Some(Keyword::Article)
    } else if word_equals(s, lo, hi, "this") {
        Some(Keyword::This)
    } else if word_equals(s, lo, hi, "next") {
        Some(Keyword::Next)
    } else if word_equals(s, lo, hi, "last") {
        Some(Keyword::Last)
    } else if word_equals(s, lo, hi, "year") {
        Some(Keyword::Unit(TimeUnit::Year))
    } else if word_equals(s, lo, hi, "years") {
        Some(Keyword::Unit(TimeUnit::Year))
    } else if word_equals(s, lo, hi, "month") {
        Some(Keyword::Unit(TimeUnit::Month))
    } else if word_equals(s, lo, hi, "months") {
        Some(Keyword::Unit(TimeUnit::Month))
    } else if word_equals(s, lo, hi, "week") {
        Some(Keyword::Unit(TimeUnit::Week))
    } else if word_equals(s, lo, hi, "weeks") {
        Some(Keyword::Unit(TimeUnit::Week))
    } else if word_equals(s, lo, hi, "day") {
        Some(Keyword::Unit(TimeUnit::Day))
    } else if word_equals(s, lo, hi, "days") {
        Some(Keyword::Unit(TimeUnit::Day))
    } else if word_equals(s, lo, hi, "hour") {
        Some(Keyword::Unit(TimeUnit::Hour))
    } else if word_equals(s, lo, hi, "hours") {
        Some(Keyword::Unit(TimeUnit::Hour))
    } else if word_equals(s, lo, hi, "minute") {
        Some(Keyword::Unit(TimeUnit::Minute))
    } else if word_equals(s, lo, hi, "minutes") {
        Some(Keyword::Unit(TimeUnit::Minute))
    } else if word_equals(s, lo, hi, "second") {
        Some(Keyword::Unit(TimeUnit::Second))
    } else if word_equals(s, lo, hi, "seconds") {
        Some(Keyword::Unit(TimeUnit::Second))
    } else if word_equals(s, lo, hi, "monday") {
        Some(Keyword::Weekday(Weekday::Monday))
    } else if word_equals(s, lo, hi, "tuesday") {
        Some(Keyword::Weekday(Weekday::Tuesday))
    } else if word_equals(s, lo, hi, "wednesday") {
        Some(Keyword::Weekday(Weekday::Wednesday))
    } else if word_equals(s, lo, hi, "thursday") {
        Some(Keyword::Weekday(Weekday::Thursday))
    } else if word_equals(s, lo, hi, "friday") {
        Some(Keyword::Weekday(Weekday::Friday))
    } else if word_equals(s, lo, hi, "saturday") {
        Some(Keyword::Weekday(Weekday::Saturday))
    } else if word_equals(s, lo, hi, "sunday") {
        Some(Keyword::Weekday(Weekday::Sunday))
    } else if word_equals(s, lo, hi, "january") {
        Some(Keyword::Month(Month::January))
    } else if word_equals(s, lo, hi, "february") {
        Some(Keyword::Month(Month::February))
    } else if word_equals(s, lo, hi, "march") {
        Some(Keyword::Month(Month::March))
    } else if word_equals(s, lo, hi, "april") {
        Some(Keyword::Month(Month::April))
    } else if word_equals(s, lo, hi, "may") {
        Some(Keyword::Month(Month::May))
    } else if word_equals(s, lo, hi, "june") {
        Some(Keyword::Month(Month::June))
    } else if word_equals(s, lo, hi, "july") {
        Some(Keyword::Month(Month::July))
    } else if word_equals(s, lo, hi, "august") {
        Some(Keyword::Month(Month::August))
    } else if word_equals(s, lo, hi, "september") {
        Some(Keyword::Month(Month::September))
    } else if word_equals(s, lo, hi, "october") {
        Some(Keyword::Month(Month::October))
    } else if word_equals(s, lo, hi, "november") {
        Some(Keyword::Month(Month::November))
    } else if word_equals(s, lo, hi, "december") {
        Some(Keyword::Month(Month::December))
    } else {
        None
    }
}

pub open spec fn append_tokens(done: Seq<Token>, rest: Option<Seq<Token>>) -> Option<Seq<Token>> {
    match rest {
        Some(ts) => Some(done + ts),
        None => None,
    }
}

proof fn lemma_digits_end(s: Seq<char>, i: int, hi: int)
    requires
        0 <= i <= hi <= s.len(),
    ensures
        i <= digits_end(s, i, hi) <= hi,
        forall|k: int| i <= k < digits_end(s, i, hi) ==> is_digit(#[trigger] s[k]),
        digits_end(s, i, hi) < hi ==> !is_digit(s[digits_end(s, i, hi)]),
    decreases hi - i,
{
    if i < hi && is_digit(s[i]) {
        lemma_digits_end(s, i + 1, hi);
    }
}

fn is_space_char(c: char) -> (r: bool)
    ensures
        r == is_space(c),
{
    c == ' ' || c == '\t' || c == '\n' || c == '\r'
}

fn is_chunk(c: char) -> (r: bool)
    ensures
        r == is_chunk_char(c),
{
    !is_space_char(c) && c != ','
}

fn is_digit_char(c: char) -> (r: bool)
    ensures
        r == is_digit(c),
{
    '0' <= c && c <= '9'
}

/// The characters of `text`, one by one.
pub fn chars_of(text: &str) -> (r: Vec<char>)
    ensures
        r@ == text@,
{
    let n = text.unicode_len();
    let mut out: Vec<char> = Vec::new();
    let mut i: usize = 0;
    while i < n
        invariant
            n == text@.len(),
            0 <= i <= n,
            out@ == text@.subrange(0, i as int),
        decreases n - i,
    {
        out.push(text.get_char(i));
        i += 1;
        assert(out@ =~= text@.subrange(0, i as int));
    }
    assert(text@.subrange(0, n as int) =~= text@);
    out
}

fn scan_chunk(s: &Vec<char>, i: usize) -> (e: usize)
    requires
        i <= s@.len(),
    ensures
        e == chunk_end(s@, i as int),
        i <= e <= s@.len(),
        i < s@.len() && is_chunk_char(s@[i as int]) ==> e > i,
{
    let mut e = i;
    while e < s.len() && is_chunk(s[e])
        invariant
            i <= e <= s@.len(),
            chunk_end(s@, i as int) == chunk_end(s@, e as int),
            i < s@.len() && is_chunk_char(s@[i as int]) && e == i ==> chunk_end(s@, e as int)
                == chunk_end(s@, e + 1),
        decreases s@.len() - e,
    {
        e += 1;
    }
    e
}

fn scan_digits(s: &Vec<char>, i: usize, hi: usize) -> (e: usize)
    requires
        i <= hi <= s@.len(),
    ensures
        e == digits_end(s@, i as int, hi as int),
        i <= e <= hi,
{
    proof {
        lemma_digits_end(s@, i as int, hi as int);
    }
    let mut e = i;
    while e < hi && is_digit_char(s[e])
        invariant
            i <= e <= hi,
            hi <= s@.len(),
            digits_end(s@, i as int, hi as int) == digits_end(s@, e as int, hi as int),
        decreases hi - e,
    {
        e += 1;
    }
    e
}

/// The number written by the digits `s[lo..hi]`.
fn number_at(s: &Vec<char>, lo: usize, hi: usize) -> (r: Number)
    requires
        lo <= hi <= s@.len(),
        forall|k: int| lo <= k < hi ==> is_digit(#[trigger] s@[k]),
    ensures
        r == number_of(s@, lo as int, hi as int),
{
    let mut v: u64 = 0;
    let mut fits = true;
    let mut j = lo;
    while j < hi
        invariant
            lo <= j <= hi <= s@.len(),
            forall|k: int| lo <= k < hi ==> is_digit(#[trigger] s@[k]),
            fits ==> v == digits_value(s@, lo as int, j as int) && v <= u32::MAX,
            !fits ==> digits_value(s@, lo as int, j as int) > u32::MAX,
        decreases hi - j,
    {
        let c = s[j];
        assert(is_digit(s@[j as int]));
        let d = (c as u32 - '0' as u32) as u64;
        if fits {
            v = v * 10 + d;
            if v > u32::MAX as u64 {
                fits = false;
            }
        }
        j += 1;
    }
    if fits {
        Number { value: v as u32, fits: true }
    } else {
        Number { value: 0, fits: false }
    }
}

/// The token that the chunk `s[lo..hi]` stands for.
fn classify_chunk(s: &Vec<char>, lo: usize, hi: usize) -> (r: Option<Token>)
    requires
        lo <= hi <= s@.len(),
    ensures
        r == classify(s@, lo as int, hi as int),
{
    let a = scan_digits(s, lo, hi);
    proof {
        lemma_digits_end(s@, lo as int, hi as int);
    }
    if a == lo {
        return match keyword_at(s, lo, hi) {
            Some(k) => Some(Token::Word(k)),
            None => None,
        };
    }
    if a == hi {
        return Some(Token::Num(number_at(s, lo, hi)));
    }
    if s[a] == ':' {
        let b = scan_digits(s, a + 1, hi);
        proof {
            lemma_digits_end(s@, a + 1, hi as int);
        }
        if b == a + 1 {
            None
        } else if b == hi {
            Some(Token::Clock(number_at(s, lo, a), number_at(s, a + 1, b)))
        } else if s[b] == ':' {
            let c = scan_digits(s, b + 1, hi);
            proof {
                lemma_digits_end(s@, b + 1, hi as int);
            }
            if c > b + 1 && c == hi {
                Some(
                    Token::ClockSeconds(
                        number_at(s, lo, a),
                        number_at(s, a + 1, b),
                        number_at(s, b + 1, c),
                    ),
                )
            } else {
                None
            }
        } else {
            None
        }
    } else if s[a] == '-' && a - lo == 4 {
        let b = scan_digits(s, a + 1, hi);
        proof {
            lemma_digits_end(s@, a + 1, hi as int);
        }
        if b - (a + 1) == 2 && b < hi && s[b] == '-' {
            let c = scan_digits(s, b + 1, hi);
            proof {
                lemma_digits_end(s@, b + 1, hi as int);
            }
            if c - (b + 1) == 2 && c == hi {
                Some(Token::Iso(number_at(s, lo, a), number_at(s, a + 1, b), number_at(s, b + 1, c)))
            } else {
                None
            }
        } else {
            None
        }
    } else {
        None
    }
}

/// Splits `s` into tokens; `None` where some chunk of it is no token.
pub fn tokenize(s: &Vec<char>) -> (r: Option<Vec<Token>>)
    ensures
        match r {
            Some(v) => lex(s@) == Some(v@),
            None => lex(s@) is None,
        },
{
    let mut out: Vec<Token> = Vec::new();
    let mut i: usize = 0;
    assert(out@ + Seq::<Token>::empty() =~= Seq::<Token>::empty());
    while i < s.len()
        invariant
            i <= s@.len(),
            lex(s@) == append_tokens(out@, lex_from(s@, i as int)),
        decreases s@.len() - i,
    {
        let c = s[i];
        if is_space_char(c) {
            i += 1;
        } else if c == ',' {
            let ghost before = out@;
            out.push(Token::Comma);
            proof {
                if let Some(ts) = lex_from(s@, i + 1) {
                    assert(before + (seq![Token::Comma] + ts) =~= out@ + ts);
                }
            }
            i += 1;
        } else {
            let e = scan_chunk(s, i);
            match classify_chunk(s, i, e) {
                Some(t) => {
                    let ghost before = out@;
                    out.push(t);
                    proof {
                        if let Some(ts) = lex_from(s@, e as int) {
                            assert(before + (seq![t] + ts) =~= out@ + ts);
                        }
                    }
                    i = e;
                },
                None => {
                    return None;
                },
            }
        }
    }
    assert(out@ + Seq::<Token>::empty() =~= out@);
    Some(out)
}

} // verus!
