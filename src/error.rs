//! What a resolution returns, and how it fails.

use crate::calendar::{CivilDate, LocalDateTime, TimeOfDay};
use vstd::prelude::*;

verus! {

/// Why a text could not be turned into a date or time.
#[derive(Debug)]
pub enum ParseError {
    /// The text matches none of the supported phrasings.
    InvalidFormat,
    /// The text matched, but resolving it failed; every independent failure is listed.
    ProccessingErrors(Vec<ProcessingError>),
    /// The syntax tree could not be built from a matched text.
    InternalError(InternalError),
}

/// A failure while resolving a matched expression.
#[derive(Debug)]
pub enum ProcessingError {
    TimeHourMinute { hour: u32, minute: u32 },
    TimeHourMinuteSecond { hour: u32, minute: u32, second: u32 },
    AddToNow { unit: String, count: u32 },
    SubtractFromNow { unit: String, count: u32 },
    SubtractFromDate { unit: String, count: u32, date: LocalDateTime },
    AddToDate { unit: String, count: u32, date: LocalDateTime },
    InvalidDate { year: i32, month: u32, day: u32 },
    InnerHumanTimeParse(Box<ParseError>),
}

#[derive(Clone, Copy, Debug, PartialEq, Eq, Structural)]
pub enum InternalError {
    /// A number of the text does not fit the tree.
    FailedToBuildAst,
}

/// A point in time, a date alone, or a time of day alone.
#[derive(Clone, Copy, Debug, PartialEq, Eq, Structural)]
pub enum ParseResult {
    DateTime(LocalDateTime),
    Date(CivilDate),
    Time(TimeOfDay),
}

} // verus!
