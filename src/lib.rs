//! Turns human-phrased time expressions ("last friday at 19:45", "in 3 days",
//! "2 hours, 32 minutes and 7 seconds ago") into a date, a time of day, or a
//! date with time, relative to a reference instant supplied by the caller.

pub mod ast;
pub mod calendar;
pub mod error;
pub mod grammar;
pub mod laws;
pub mod lexer;
pub mod resolve;

pub use ast::{
    Ago, Date, DateTime, Duration, HumanTime, In, IsoDate, Month, Quantifier, RelativeSpecifier,
    Time, TimeUnit, Weekday,
};
pub use calendar::{CivilDate, LocalDateTime, TimeOfDay};
pub use error::{InternalError, ParseError, ParseResult, ProcessingError};
pub use grammar::build_ast_from;
pub use resolve::parse_human_time;

use grammar::{nesting_within_bound, numbers_fit, recognize};
use resolve::resolves_as;
use vstd::prelude::*;

verus! {

/// What `str::to_lowercase` makes of a text.
pub uninterp spec fn lower_of(s: Seq<char>) -> Seq<char>;

/// Relies on `str::to_lowercase`: the result depends on the characters alone.
#[verifier::external_body]
fn lowercase(s: &str) -> (r: String)
    ensures
        r@ == lower_of(s@),
{
    s.to_lowercase()
}

/// What reading the lowercased `text` and resolving it relative to `now` yields.
pub open spec fn outcome(text: Seq<char>, now: LocalDateTime, r: Result<ParseResult, ParseError>) -> bool {
    match recognize(text) {
        None => r matches Err(ParseError::InvalidFormat),
        Some(m) => if !nesting_within_bound(text) {
            r matches Err(ParseError::InvalidFormat)
        } else if !numbers_fit(text) {
            r matches Err(ParseError::InternalError(_))
        } else {
            resolves_as(m, now, r)
        },
    }
}

/// Reads an already lowercased `text` and resolves it relative to `now`.
pub fn from_lowercase_human_time(text: &str, now: LocalDateTime) -> (r: Result<
    ParseResult,
    ParseError,
>)
    requires
        now.is_valid(),
    ensures
        outcome(text@, now, r),
{
    let parsed = build_ast_from(text)?;
    parse_human_time(parsed, now)
}

/// Converts a human expression of a date or time, in any letter case, into a
/// date with time, a date, or a time of day, relative to `now`.
pub fn from_human_time(text: &str, now: LocalDateTime) -> (r: Result<ParseResult, ParseError>)
    requires
        now.is_valid(),
    ensures
        outcome(lower_of(text@), now, r),
{
    let lowercase = lowercase(text);
    from_lowercase_human_time(lowercase.as_str(), now)
}

} // verus!
