//! Calendar dates and timestamps as plain integers, and their text forms.

use vstd::prelude::*;
use chrono::Datelike;

pub mod iso_timestamp_string;
pub mod optional_date;
pub mod yyyy_mm_dd;

verus! {

/// The text form of every plain date: four-digit year, month, day.
pub const YYYY_MM_DD_FORMAT: &'static str = "%Y-%m-%d";

/// Day number of January 1, 262144 BCE, the earliest date chrono represents.
pub const MIN_DAY: i32 = -95_746_129;

/// Day number of December 31, 262142 CE, the latest date chrono represents.
pub const MAX_DAY: i32 = 95_745_399;

/// A calendar date without time or zone, held as the number of its day in the
/// proleptic Gregorian calendar, where 0001-01-01 is day 1.
#[derive(Clone, Copy, Debug, PartialEq, Eq, Structural)]
pub struct Date {
    days: i32,
}

/// A point in time, UTC: whole seconds since 1970-01-01 00:00:00 and the
/// nanoseconds within that second.
#[derive(Clone, Copy, Debug, PartialEq, Eq, Structural)]
pub struct Timestamp {
    pub seconds: i64,
    pub nanos: u32,
}

/// Why a text was not accepted as a date or a timestamp.
#[derive(Clone, Debug)]
pub struct DateFormatError {
    pub message: String,
}

/// The text that chrono writes for the date with the given day number under
/// the pattern `%Y-%m-%d`.
pub uninterp spec fn date_text(days: int) -> Seq<char>;

/// The day number of the date that chrono reads from a text under the pattern
/// `%Y-%m-%d`, if it accepts the text.
pub uninterp spec fn text_date(text: Seq<char>) -> Option<int>;

/// The text that chrono writes for a UTC time under the pattern
/// `%Y-%m-%d %H:%M:%S%:::z`, if it represents that time.
pub uninterp spec fn timestamp_text(seconds: int, nanos: int) -> Option<Seq<char>>;

/// The UTC time (seconds, nanoseconds) that chrono reads from a text under the
/// pattern `%Y-%m-%d %H:%M:%S%#z`, if it accepts the text.
pub uninterp spec fn text_timestamp(text: Seq<char>) -> Option<(int, int)>;

#[verifier::external_type_specification]
#[verifier::external_body]
pub struct ExParseError(chrono::ParseError);

impl Date {
    #[verifier::type_invariant]
    spec fn in_range(self) -> bool {
        MIN_DAY <= self.days <= MAX_DAY
    }

    /// The day number as a mathematical integer.
    pub closed spec fn day(self) -> int {
        self.days as int
    }

    /// The date with the given day number, if chrono represents it.
    pub fn from_days(days: i32) -> (result: Option<Date>)
        ensures
            result is Some <==> MIN_DAY <= days <= MAX_DAY,
            result is Some ==> result.unwrap().day() == days,
    {
        if MIN_DAY <= days && days <= MAX_DAY {
            Some(Date { days })
        } else {
            None
        }
    }

    /// The date with a day number that is known to lie in the calendar's
    /// range.
    pub(crate) fn within(days: i32) -> (date: Date)
        requires
            MIN_DAY <= days <= MAX_DAY,
        ensures
            date.day() == days,
    {
        Date { days }
    }

    /// The day number.
    pub fn days(&self) -> (result: i32)
        ensures
            result == self.day(),
            MIN_DAY <= result <= MAX_DAY,
    {
        proof {
            use_type_invariant(self);
        }
        self.days
    }

    /// Two dates with the same day number are the same date.
    pub proof fn lemma_day_determines(self, other: Date)
        requires
            self.day() == other.day(),
        ensures
            self == other,
    {
    }

    /// The day before, where `floor` is a date strictly earlier than this one.
    pub fn day_before(&self, floor: &Date) -> (result: Date)
        requires
            floor.day() < self.day(),
        ensures
            result.day() == self.day() - 1,
    {
        proof {
            use_type_invariant(self);
            use_type_invariant(floor);
        }
        Date { days: self.days - 1 }
    }

    /// The day after, where `ceiling` is a date strictly later than this one.
    pub fn day_after(&self, ceiling: &Date) -> (result: Date)
        requires
            self.day() < ceiling.day(),
        ensures
            result.day() == self.day() + 1,
    {
        proof {
            use_type_invariant(self);
            use_type_invariant(ceiling);
        }
        Date { days: self.days + 1 }
    }
}

/// Calls `NaiveDate::from_num_days_from_ce_opt` and `NaiveDate::format` with
/// `%Y-%m-%d`. Claims that the text is a function of the day number alone.
/// Day numbers outside chrono's range are left out: there the first call
/// returns nothing.
#[verifier::external_body]
pub(crate) fn format_day(days: i32) -> (text: String)
    requires
        MIN_DAY <= days <= MAX_DAY,
    ensures
        text@ == date_text(days as int),
{
    let date = chrono::NaiveDate::from_num_days_from_ce_opt(days).unwrap();
    date.format(YYYY_MM_DD_FORMAT).to_string()
}

/// Calls `NaiveDate::parse_from_str` with `%Y-%m-%d`, then
/// `Datelike::num_days_from_ce`. Claims that acceptance and the day number are
/// a function of the text alone, and that the day number of an accepted date
/// lies in chrono's range.
#[verifier::external_body]
pub(crate) fn parse_day(text: &str) -> (result: Result<i32, chrono::ParseError>)
    ensures
        match result {
            Ok(days) => text_date(text@) == Some(days as int) && MIN_DAY <= days <= MAX_DAY,
            Err(_) => text_date(text@) is None,
        },
{
    chrono::NaiveDate::parse_from_str(text, YYYY_MM_DD_FORMAT).map(|date| date.num_days_from_ce())
}

/// Calls `ParseError`'s `Display` through `to_string`. Nothing is claimed of
/// the message.
#[verifier::external_body]
pub(crate) fn parse_error_message(error: &chrono::ParseError) -> (message: String) {
    error.to_string()
}

/// Calls `DateTime::<Utc>::from_timestamp` and `DateTime::format` with
/// `%Y-%m-%d %H:%M:%S%:::z`. Claims that the result is a function of the two
/// numbers alone; there is none where chrono does not represent the time.
#[verifier::external_body]
pub(crate) fn format_instant(seconds: i64, nanos: u32) -> (text: Option<String>)
    ensures
        match text {
            Some(t) => timestamp_text(seconds as int, nanos as int) == Some(t@),
            None => timestamp_text(seconds as int, nanos as int) is None,
        },
{
    let instant = chrono::DateTime::<chrono::Utc>::from_timestamp(seconds, nanos);
    instant.map(|t| t.format(iso_timestamp_string::FORMAT_SER).to_string())
}

/// Calls `DateTime::<FixedOffset>::parse_from_str` with
/// `%Y-%m-%d %H:%M:%S%#z`, then `with_timezone(&Utc)`, `timestamp` and
/// `timestamp_subsec_nanos`. Claims that acceptance and the UTC time are a
/// function of the text alone.
#[verifier::external_body]
pub(crate) fn parse_instant(text: &str) -> (result: Result<(i64, u32), chrono::ParseError>)
    ensures
        match result {
            Ok(t) => text_timestamp(text@) == Some((t.0 as int, t.1 as int)),
            Err(_) => text_timestamp(text@) is None,
        },
{
    chrono::DateTime::<chrono::FixedOffset>::parse_from_str(text, iso_timestamp_string::FORMAT_DE)
        .map(|t| t.with_timezone(&chrono::Utc))
        .map(|t| (t.timestamp(), t.timestamp_subsec_nanos()))
}

/// The day number of a date that may be absent.
pub open spec fn day_of(date: Option<Date>) -> Option<int> {
    match date {
        Some(d) => Some(d.day()),
        None => None,
    }
}

impl Timestamp {
    /// Whether this time is strictly earlier than `other`.
    pub open spec fn earlier_than(self, other: Timestamp) -> bool {
        self.seconds < other.seconds || (self.seconds == other.seconds && self.nanos < other.nanos)
    }

    /// Whether this time is strictly earlier than `other`.
    pub fn is_before(&self, other: &Timestamp) -> (result: bool)
        ensures
            result == self.earlier_than(*other),
    {
        self.seconds < other.seconds || (self.seconds == other.seconds && self.nanos < other.nanos)
    }
}

} // verus!
