use stlouisfed_fred_web_proxy::date_formats::yyyy_mm_dd;
use stlouisfed_fred_web_proxy::date_formats::{Date, Timestamp};
use stlouisfed_fred_web_proxy::entities::{
    FredApiResponse, FredEconomicDataSeries, FredResponseError, FredResponseSeries,
};
use stlouisfed_fred_web_proxy::fred::FredApiError;
use stlouisfed_fred_web_proxy::local_cache::RealtimeObservationsDatabase;
use stlouisfed_fred_web_proxy::refresh::{
    needs_write, take_first_series, RefreshAction, RefreshError, RefreshEvent, Refresher,
};

fn d(text: &str) -> Date {
    yyyy_mm_dd::deserialize(text).unwrap()
}

fn series(id: &str, seconds: i64, nanos: u32, title: &str) -> FredEconomicDataSeries {
    FredEconomicDataSeries {
        id: id.to_string(),
        last_updated: Timestamp { seconds, nanos },
        realtime_start: d("2023-09-19"),
        realtime_end: d("2023-09-19"),
        title: title.to_string(),
        observation_start: d("2013-09-19"),
        observation_end: d("2023-09-18"),
        frequency: "Daily, Close".to_string(),
        frequency_short: "D".to_string(),
        units: "Index".to_string(),
        units_short: "Index".to_string(),
        seasonal_adjustment: "Not Seasonally Adjusted".to_string(),
        seasonal_adjustment_short: "NSA".to_string(),
        popularity: 82,
        notes: String::new(),
    }
}

fn payload(seriess: Vec<FredEconomicDataSeries>) -> FredApiResponse<FredResponseSeries> {
    FredApiResponse::Payload(FredResponseSeries {
        realtime_start: d("2023-09-19"),
        realtime_end: d("2023-09-19"),
        seriess,
    })
}

/// Runs a refresh against a cache; returns the answer and how often the
/// cache was written.
fn refresh(
    cache: &mut RealtimeObservationsDatabase,
    id: &str,
    upstream: Result<FredApiResponse<FredResponseSeries>, FredApiError>,
) -> (Result<FredEconomicDataSeries, RefreshError>, usize) {
    let (mut machine, mut action) = Refresher::begin();
    let mut upstream = Some(upstream);
    let mut writes = 0;
    loop {
        let event = match action {
            RefreshAction::FetchSeries => match upstream.take().unwrap() {
                Ok(response) => RefreshEvent::Fetched(response),
                Err(error) => RefreshEvent::FetchFailed(error),
            },
            RefreshAction::ReadStored => RefreshEvent::Stored(cache.get_series(id)),
            RefreshAction::PutSeries(series) => {
                cache.put_series(&series);
                writes += 1;
                RefreshEvent::Written
            }
            RefreshAction::Respond { series, write_failed } => {
                assert!(!write_failed);
                return (Ok(series), writes);
            }
            RefreshAction::Fail(error) => return (Err(error), writes),
        };
        action = machine.step(event);
    }
}

#[test]
fn first_fetch_is_written() {
    let mut cache = RealtimeObservationsDatabase::new();
    let (answer, writes) = refresh(&mut cache, "SP500", Ok(payload(vec![series("SP500", 100, 0, "S&P 500")])));
    assert_eq!(answer.unwrap().title, "S&P 500");
    assert_eq!(writes, 1);
    assert_eq!(cache.get_series("SP500").unwrap().last_updated.seconds, 100);
}

#[test]
fn fresher_metadata_is_written_over_older() {
    let mut cache = RealtimeObservationsDatabase::new();
    cache.put_series(&series("SP500", 100, 0, "old"));
    let (answer, writes) = refresh(&mut cache, "SP500", Ok(payload(vec![series("SP500", 101, 0, "new")])));
    assert_eq!(answer.unwrap().title, "new");
    assert_eq!(writes, 1);
    assert_eq!(cache.get_series("SP500").unwrap().title, "new");
    let (_, writes) = refresh(&mut cache, "SP500", Ok(payload(vec![series("SP500", 101, 1, "newer")])));
    assert_eq!(writes, 1);
    assert_eq!(cache.get_series("SP500").unwrap().title, "newer");
}

#[test]
fn metadata_that_is_not_fresher_is_answered_but_not_written() {
    let mut cache = RealtimeObservationsDatabase::new();
    cache.put_series(&series("SP500", 100, 0, "held"));
    let (answer, writes) = refresh(&mut cache, "SP500", Ok(payload(vec![series("SP500", 100, 0, "same age")])));
    assert_eq!(answer.unwrap().title, "same age");
    assert_eq!(writes, 0);
    assert_eq!(cache.get_series("SP500").unwrap().title, "held");
    let (answer, writes) = refresh(&mut cache, "SP500", Ok(payload(vec![series("SP500", 99, 0, "older")])));
    assert_eq!(answer.unwrap().title, "older");
    assert_eq!(writes, 0);
    assert_eq!(cache.get_series("SP500").unwrap().title, "held");
}

#[test]
fn needs_write_compares_strictly() {
    let fetched = series("SP500", 100, 5, "fetched");
    assert!(needs_write(&None, &fetched));
    assert!(needs_write(&Some(series("SP500", 99, 9, "held")), &fetched));
    assert!(needs_write(&Some(series("SP500", 100, 4, "held")), &fetched));
    assert!(!needs_write(&Some(series("SP500", 100, 5, "held")), &fetched));
    assert!(!needs_write(&Some(series("SP500", 100, 6, "held")), &fetched));
    assert!(!needs_write(&Some(series("SP500", 101, 0, "held")), &fetched));
}

#[test]
fn no_series_is_not_found() {
    let mut cache = RealtimeObservationsDatabase::new();
    let (answer, writes) = refresh(&mut cache, "NOPE", Ok(payload(Vec::new())));
    let error = answer.unwrap_err();
    assert!(matches!(error, RefreshError::NotFound));
    assert_eq!(error.status(), 404);
    assert_eq!(writes, 0);
}

#[test]
fn first_of_several_series_is_taken() {
    let taken = take_first_series(payload(vec![series("A", 1, 0, "first"), series("B", 2, 0, "second")]));
    assert_eq!(taken.unwrap().title, "first");
}

#[test]
fn provider_error_fails_the_refresh_with_its_status() {
    let mut cache = RealtimeObservationsDatabase::new();
    let response = FredApiResponse::ErrorMessage(FredResponseError {
        error_message: "slow down".to_string(),
        error_code: 429,
    });
    let (answer, writes) = refresh(&mut cache, "SP500", Ok(response));
    let error = answer.unwrap_err();
    assert_eq!(error.status(), 429);
    match error {
        RefreshError::Upstream(e) => assert_eq!(e.error_message, Some("slow down".to_string())),
        _ => panic!("the upstream error is handed on"),
    }
    assert_eq!(writes, 0);
    let (answer, _) = refresh(&mut cache, "SP500", Err(FredApiError::from_transport(None, "timed out".to_string())));
    assert_eq!(answer.unwrap_err().status(), 503);
}

#[test]
fn failed_write_does_not_change_the_answer() {
    let (mut machine, _) = Refresher::begin();
    let action = machine.step(RefreshEvent::Fetched(payload(vec![series("SP500", 100, 0, "S&P 500")])));
    assert!(matches!(action, RefreshAction::ReadStored));
    let action = machine.step(RefreshEvent::Stored(None));
    assert!(matches!(action, RefreshAction::PutSeries(_)));
    match machine.step(RefreshEvent::WriteFailed) {
        RefreshAction::Respond { series, write_failed } => {
            assert_eq!(series.title, "S&P 500");
            assert!(write_failed);
        }
        _ => panic!("the fetched metadata is the answer"),
    }
}

#[test]
fn failed_read_fails_the_refresh() {
    let (mut machine, _) = Refresher::begin();
    machine.step(RefreshEvent::Fetched(payload(vec![series("SP500", 100, 0, "S&P 500")])));
    match machine.step(RefreshEvent::ReadFailed) {
        RefreshAction::Fail(error) => {
            assert!(matches!(error, RefreshError::Storage));
            assert_eq!(error.status(), 500);
        }
        _ => panic!("a failed read fails the refresh"),
    }
}

#[test]
fn refresh_rejects_what_it_did_not_ask_for() {
    let (mut machine, _) = Refresher::begin();
    match machine.step(RefreshEvent::Written) {
        RefreshAction::Fail(error) => assert!(matches!(error, RefreshError::OutOfTurn)),
        _ => panic!("nothing was being written"),
    }
    match machine.step(RefreshEvent::Stored(None)) {
        RefreshAction::Fail(error) => assert!(matches!(error, RefreshError::OutOfTurn)),
        _ => panic!("the refresh was over"),
    }
}
