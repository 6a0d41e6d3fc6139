//! An optional date as `YYYY-MM-DD`, where an empty text means no date.

use vstd::prelude::*;
use crate::date_formats::{date_text, text_date, yyyy_mm_dd};
use crate::date_formats::{Date, DateFormatError};

verus! {

/// What a text, if there is one, says about an optional date.
pub open spec fn reading(text: Option<Seq<char>>) -> Option<Option<int>> {
    match text {
        None => Some(None),
        Some(t) => if t.len() == 0 {
            Some(None)
        } else {
            match text_date(t) {
                Some(day) => Some(Some(day)),
                None => None,
            }
        },
    }
}

/// The text of a date, and nothing where there is no date.
pub fn serialize(date: &Option<Date>) -> (text: Option<String>)
    ensures
        match (*date, text) {
            (Some(d), Some(t)) => t@ == date_text(d.day()),
            (None, None) => true,
            _ => false,
        },
{
    match date {
        Some(d) => Some(yyyy_mm_dd::serialize(d)),
        None => None,
    }
}

/// The optional date that an optional text stands for: none where the text
/// is absent or empty. Fails exactly on the non-empty texts that are no date.
pub fn deserialize(text: Option<&str>) -> (result: Result<Option<Date>, DateFormatError>)
    ensures
        match result {
            Ok(Some(date)) => reading(option_text(text)) == Some(Some(date.day())),
            Ok(None) => reading(option_text(text)) == Some(None::<int>),
            Err(_) => reading(option_text(text)) is None,
        },
{
    match text {
        None => Ok(None),
        Some(t) => {
            if t.unicode_len() == 0 {
                return Ok(None);
            }
            match yyyy_mm_dd::deserialize(t) {
                Ok(date) => Ok(Some(date)),
                Err(error) => Err(error),
            }
        },
    }
}

/// The characters of an optional text.
pub open spec fn option_text(text: Option<&str>) -> Option<Seq<char>> {
    match text {
        Some(t) => Some(t@),
        None => None,
    }
}

} // verus!
