//! A required date as `YYYY-MM-DD`.

use vstd::prelude::*;
use crate::date_formats::{date_text, format_day, parse_day, parse_error_message, text_date};
use crate::date_formats::{Date, DateFormatError};

verus! {

/// The text of a date.
pub fn serialize(date: &Date) -> (text: String)
    ensures
        text@ == date_text(date.day()),
{
    format_day(date.days())
}

/// The date that a text stands for. Fails exactly on the texts that are no
/// date in this form.
pub fn deserialize(text: &str) -> (result: Result<Date, DateFormatError>)
    ensures
        match result {
            Ok(date) => text_date(text@) == Some(date.day()),
            Err(_) => text_date(text@) is None,
        },
{
    match parse_day(text) {
        Ok(days) => Ok(Date::within(days)),
        Err(error) => Err(DateFormatError { message: parse_error_message(&error) }),
    }
}

} // verus!
