//! The syntax tree of a time expression.

use vstd::prelude::*;

verus! {

/// A whole time expression.
#[derive(Debug)]
pub enum HumanTime {
    DateTime(DateTime),
    Date(Date),
    Time(Time),
    In(In),
    Ago(Ago),
    Now,
}

/// A date together with a time of day, in either order in the text.
#[derive(Clone, Copy, Debug, PartialEq, Eq, Structural)]
pub struct DateTime {
    pub date: Date,
    pub time: Time,
}

/// A date written `YYYY-MM-DD`.
#[derive(Clone, Copy, Debug, PartialEq, Eq, Structural)]
pub struct IsoDate {
    pub year: u32,
    pub month: u32,
    pub day: u32,
}

#[derive(Clone, Copy, Debug, PartialEq, Eq, Structural)]
pub enum Date {
    Today,
    Tomorrow,
    Overmorrow,
    Yesterday,
    IsoDate(IsoDate),
    DayMonthYear(u32, Month, u32),
    DayMonth(u32, Month),
    RelativeWeekWeekday(RelativeSpecifier, Weekday),
    RelativeTimeUnit(RelativeSpecifier, TimeUnit),
    RelativeWeekday(RelativeSpecifier, Weekday),
    UpcomingWeekday(Weekday),
}

#[derive(Clone, Copy, Debug, PartialEq, Eq, Structural)]
pub enum Time {
    HourMinute(u32, u32),
    HourMinuteSecond(u32, u32, u32),
}

/// "in <duration>".
#[derive(Debug, PartialEq)]
pub struct In(pub Duration);

/// "<duration> ago", possibly followed by "at <expression>".
#[derive(Debug)]
pub enum Ago {
    AgoFromNow(Duration),
    AgoFromTime(Duration, Box<HumanTime>),
}

/// Quantifiers in the order in which the text gives them.
#[derive(Debug, PartialEq)]
pub struct Duration(pub Vec<Quantifier>);

#[derive(Clone, Copy, Debug, PartialEq, Eq, Structural)]
pub enum RelativeSpecifier {
    This,
    Next,
    Last,
}

/// A count of one unit.
#[derive(Clone, Copy, Debug, PartialEq, Eq, Structural)]
pub enum Quantifier {
    Year(u32),
    Month(u32),
    Week(u32),
    Day(u32),
    Hour(u32),
    Minute(u32),
    Second(u32),
}

#[derive(Clone, Copy, Debug, PartialEq, Eq, Structural)]
pub enum TimeUnit {
    Year,
    Month,
    Week,
    Day,
    Hour,
    Minute,
    Second,
}

#[derive(Clone, Copy, Debug, PartialEq, Eq, Structural)]
pub enum Weekday {
    Monday,
    Tuesday,
    Wednesday,
    Thursday,
    Friday,
    Saturday,
    Sunday,
}

#[derive(Clone, Copy, Debug, PartialEq, Eq, Structural)]
pub enum Month {
    January,
    February,
    March,
    April,
    May,
    June,
    July,
    August,
    September,
    October,
    November,
    December,
}

/// What a `HumanTime` says, with each duration as a sequence of quantifiers.
pub enum HumanTimeModel {
    DateTime(DateTime),
    Date(Date),
    Time(Time),
    In(Seq<Quantifier>),
    AgoFromNow(Seq<Quantifier>),
    AgoFromTime(Seq<Quantifier>, Box<HumanTimeModel>),
    Now,
}

impl Duration {
    pub open spec fn view(&self) -> Seq<Quantifier> {
        self.0@
    }
}

impl HumanTime {
    pub open spec fn model(&self) -> HumanTimeModel
        decreases self,
    {
        match self {
            HumanTime::DateTime(dt) => HumanTimeModel::DateTime(*dt),
            HumanTime::Date(d) => HumanTimeModel::Date(*d),
            HumanTime::Time(t) => HumanTimeModel::Time(*t),
            HumanTime::In(i) => HumanTimeModel::In(i.0@),
            HumanTime::Ago(Ago::AgoFromNow(d)) => HumanTimeModel::AgoFromNow(d@),
            HumanTime::Ago(Ago::AgoFromTime(d, inner)) => HumanTimeModel::AgoFromTime(
                d@,
                Box::new((**inner).model()),
            ),
            HumanTime::Now => HumanTimeModel::Now,
        }
    }
}

impl Weekday {
    /// The day of the week, counted from Monday (0) to Sunday (6).
    pub open spec fn index(self) -> int {
        match self {
            Weekday::Monday => 0,
            Weekday::Tuesday => 1,
            Weekday::Wednesday => 2,
            Weekday::Thursday => 3,
            Weekday::Friday => 4,
            Weekday::Saturday => 5,
            Weekday::Sunday => 6,
        }
    }

    pub fn num_days_from_monday(self) -> (r: u32)
        ensures
            r == self.index(),
    {
        match self {
            Weekday::Monday => 0,
            Weekday::Tuesday => 1,
            Weekday::Wednesday => 2,
            Weekday::Thursday => 3,
            Weekday::Friday => 4,
            Weekday::Saturday => 5,
            Weekday::Sunday => 6,
        }
    }
}

impl Month {
    /// The month's number, from January (1) to December (12).
    pub open spec fn number(self) -> int {
        match self {
            Month::January => 1,
            Month::February => 2,
            Month::March => 3,
            Month::April => 4,
            Month::May => 5,
            Month::June => 6,
            Month::July => 7,
            Month::August => 8,
            Month::September => 9,
            Month::October => 10,
            Month::November => 11,
            Month::December => 12,
        }
    }

    pub fn number_from_month(self) -> (r: u32)
        ensures
            r == self.number(),
    {
        match self {
            Month::January => 1,
            Month::February => 2,
            Month::March => 3,
            Month::April => 4,
            Month::May => 5,
            Month::June => 6,
            Month::July => 7,
            Month::August => 8,
            Month::September => 9,
            Month::October => 10,
            Month::November => 11,
            Month::December => 12,
        }
    }
}

} // verus!
