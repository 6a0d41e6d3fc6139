//! A timestamp as `YYYY-MM-DD HH:MM:SS` followed by a signed two-digit zone
//! offset, such as `2013-07-31 09:26:16-05`.

use vstd::prelude::*;
use crate::date_formats::{format_instant, parse_error_message, parse_instant};
use crate::date_formats::{text_timestamp, timestamp_text};
use crate::date_formats::{DateFormatError, Timestamp};

verus! {

/// Pattern under which a timestamp is written.
pub const FORMAT_SER: &'static str = "%Y-%m-%d %H:%M:%S%:::z";

/// Pattern under which a timestamp is read.
pub const FORMAT_DE: &'static str = "%Y-%m-%d %H:%M:%S%#z";

/// The text of a UTC time, written with offset `+00`; none where the time is
/// beyond the calendar's range.
pub fn serialize(time: &Timestamp) -> (text: Option<String>)
    ensures
        match text {
            Some(t) => timestamp_text(time.seconds as int, time.nanos as int) == Some(t@),
            None => timestamp_text(time.seconds as int, time.nanos as int) is None,
        },
{
    format_instant(time.seconds, time.nanos)
}

/// The UTC time that a text with a zone offset stands for. Fails exactly on
/// the texts that are no timestamp in this form.
pub fn deserialize(text: &str) -> (result: Result<Timestamp, DateFormatError>)
    ensures
        match result {
            Ok(time) => text_timestamp(text@) == Some((time.seconds as int, time.nanos as int)),
            Err(_) => text_timestamp(text@) is None,
        },
{
    match parse_instant(text) {
        Ok(t) => Ok(Timestamp { seconds: t.0, nanos: t.1 }),
        Err(error) => Err(DateFormatError { message: parse_error_message(&error) }),
    }
}

} // verus!
