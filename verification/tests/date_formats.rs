use chrono::{DateTime, Datelike, FixedOffset, NaiveDate};
use stlouisfed_fred_web_proxy::date_formats::iso_timestamp_string;
use stlouisfed_fred_web_proxy::date_formats::iso_timestamp_string::{FORMAT_DE, FORMAT_SER};
use stlouisfed_fred_web_proxy::date_formats::optional_date;
use stlouisfed_fred_web_proxy::date_formats::yyyy_mm_dd;
use stlouisfed_fred_web_proxy::date_formats::{Date, Timestamp, MAX_DAY, MIN_DAY};

#[test]
fn test_format_string() {
    let sample = "2023-09-18 19:10:56-05";
    let o = DateTime::<FixedOffset>::parse_from_str(sample, FORMAT_DE);
    assert!(o.is_ok());
    assert_eq!(o.unwrap().format(FORMAT_SER).to_string(), sample);
    let read = iso_timestamp_string::deserialize(sample);
    assert!(read.is_ok());
    assert_eq!(read.unwrap(), Timestamp { seconds: 1695082256, nanos: 0 });
}

#[test]
fn timestamp_is_normalised_to_utc() {
    let read = iso_timestamp_string::deserialize("2013-07-31 09:26:16-05").unwrap();
    assert_eq!(read.seconds, 1375280776);
    assert_eq!(read.nanos, 0);
    let text = iso_timestamp_string::serialize(&read);
    assert_eq!(text, Some("2013-07-31 14:26:16+00".to_string()));
}

#[test]
fn timestamp_round_trips_through_its_text() {
    let time = Timestamp { seconds: 1695082256, nanos: 0 };
    let text = iso_timestamp_string::serialize(&time).unwrap();
    assert_eq!(text, "2023-09-19 00:10:56+00");
    assert_eq!(iso_timestamp_string::deserialize(&text).unwrap(), time);
}

#[test]
fn timestamp_rejects_other_texts() {
    assert!(iso_timestamp_string::deserialize("2013-07-31").is_err());
    assert!(iso_timestamp_string::deserialize("").is_err());
    assert!(iso_timestamp_string::deserialize("2013-07-31 09:26:16").is_err());
    assert!(!iso_timestamp_string::deserialize("yesterday").unwrap_err().message.is_empty());
}

#[test]
fn timestamp_beyond_the_calendar_has_no_text() {
    assert_eq!(iso_timestamp_string::serialize(&Timestamp { seconds: i64::MAX, nanos: 0 }), None);
    assert_eq!(iso_timestamp_string::serialize(&Timestamp { seconds: 0, nanos: 2_000_000_000 }), None);
}

#[test]
fn timestamps_compare_by_seconds_then_nanos() {
    let a = Timestamp { seconds: 10, nanos: 5 };
    let b = Timestamp { seconds: 10, nanos: 6 };
    let c = Timestamp { seconds: 11, nanos: 0 };
    assert!(a.is_before(&b));
    assert!(b.is_before(&c));
    assert!(a.is_before(&c));
    assert!(!b.is_before(&a));
    assert!(!a.is_before(&a));
}

#[test]
fn date_text_is_year_month_day() {
    assert_eq!(yyyy_mm_dd::serialize(&Date::from_days(737425).unwrap()), "2020-01-01");
    assert_eq!(yyyy_mm_dd::serialize(&Date::from_days(730_000).unwrap()), "1999-09-03");
    assert_eq!(yyyy_mm_dd::serialize(&Date::from_days(1).unwrap()), "0001-01-01");
    assert_eq!(yyyy_mm_dd::serialize(&Date::from_days(3_652_059).unwrap()), "9999-12-31");
}

#[test]
fn date_is_read_from_its_text() {
    assert_eq!(yyyy_mm_dd::deserialize("2020-01-01").unwrap().days(), 737425);
    assert_eq!(yyyy_mm_dd::deserialize("1999-09-03").unwrap().days(), 730_000);
    assert_eq!(yyyy_mm_dd::deserialize("2020-02-29").unwrap().days(), 737425 + 59);
}

#[test]
fn date_rejects_other_texts() {
    assert!(yyyy_mm_dd::deserialize("2020-13-01").is_err());
    assert!(yyyy_mm_dd::deserialize("2021-02-29").is_err());
    assert!(yyyy_mm_dd::deserialize("").is_err());
    assert!(yyyy_mm_dd::deserialize("2020/01/01").is_err());
    assert!(!yyyy_mm_dd::deserialize("tomorrow").unwrap_err().message.is_empty());
}

#[test]
fn date_range_is_that_of_the_calendar() {
    assert_eq!(NaiveDate::MIN.num_days_from_ce(), MIN_DAY);
    assert_eq!(NaiveDate::MAX.num_days_from_ce(), MAX_DAY);
    assert!(Date::from_days(MIN_DAY).is_some());
    assert!(Date::from_days(MAX_DAY).is_some());
    assert!(Date::from_days(MIN_DAY - 1).is_none());
    assert!(Date::from_days(MAX_DAY + 1).is_none());
    assert!(NaiveDate::from_num_days_from_ce_opt(MIN_DAY - 1).is_none());
    assert!(NaiveDate::from_num_days_from_ce_opt(MAX_DAY + 1).is_none());
    assert_eq!(yyyy_mm_dd::serialize(&Date::from_days(MAX_DAY).unwrap()), "+262142-12-31");
    assert_eq!(yyyy_mm_dd::serialize(&Date::from_days(MIN_DAY).unwrap()), "-262143-01-01");
}

#[test]
fn neighbouring_days() {
    let first = yyyy_mm_dd::deserialize("2020-03-01").unwrap();
    let start = yyyy_mm_dd::deserialize("2020-01-01").unwrap();
    let end = yyyy_mm_dd::deserialize("2020-12-31").unwrap();
    assert_eq!(yyyy_mm_dd::serialize(&first.day_before(&start)), "2020-02-29");
    assert_eq!(yyyy_mm_dd::serialize(&first.day_after(&end)), "2020-03-02");
}

#[test]
fn optional_date_reads_absent_and_empty_as_none() {
    assert_eq!(optional_date::deserialize(None).unwrap(), None);
    assert_eq!(optional_date::deserialize(Some("")).unwrap(), None);
    let read = optional_date::deserialize(Some("2020-01-05")).unwrap();
    assert_eq!(read.map(|d| d.days()), Some(737429));
    assert!(optional_date::deserialize(Some("soon")).is_err());
    assert!(optional_date::deserialize(Some(" ")).is_err());
}

#[test]
fn optional_date_writes_none_for_none() {
    assert_eq!(optional_date::serialize(&None), None);
    let date = Date::from_days(737429);
    assert_eq!(optional_date::serialize(&date), Some("2020-01-05".to_string()));
}
