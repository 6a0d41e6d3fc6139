use stlouisfed_fred_web_proxy::date_formats::yyyy_mm_dd;
use stlouisfed_fred_web_proxy::date_formats::Date;
use stlouisfed_fred_web_proxy::entities::{GetObservationsParams, RealtimeObservation};
use stlouisfed_fred_web_proxy::fred::FredApiError;
use stlouisfed_fred_web_proxy::local_cache::{within_date_bounds, RealtimeObservationsDatabase};
use stlouisfed_fred_web_proxy::reconcile::{Action, Event, FetchWindow, Phase, ReconcileError, Reconciler};

fn d(text: &str) -> Date {
    yyyy_mm_dd::deserialize(text).unwrap()
}

fn row(date: &str, value: &str) -> RealtimeObservation {
    RealtimeObservation { date: d(date), value: value.to_string() }
}

fn days(from: &str, to: &str, value: &str) -> Vec<RealtimeObservation> {
    let mut rows = Vec::new();
    let mut day = d(from).days();
    while day <= d(to).days() {
        rows.push(RealtimeObservation { date: Date::from_days(day).unwrap(), value: value.to_string() });
        day += 1;
    }
    rows
}

fn dates(rows: &[RealtimeObservation]) -> Vec<String> {
    rows.iter().map(|r| yyyy_mm_dd::serialize(&r.date)).collect()
}

fn bound(date: &Option<Date>) -> String {
    match date {
        Some(d) => yyyy_mm_dd::serialize(d),
        None => "*".to_string(),
    }
}

fn window_text(w: &FetchWindow) -> String {
    let mut text = format!("fetch {}..{}", bound(&w.observation_start), bound(&w.observation_end));
    if w.realtime_start.is_some() || w.realtime_end.is_some() {
        text = format!("{} as of {}..{}", text, bound(&w.realtime_start), bound(&w.realtime_end));
    }
    text
}

fn params(start: Option<&str>, end: Option<&str>) -> GetObservationsParams {
    GetObservationsParams {
        series_id: "SP500".to_string(),
        observation_start: start.map(d),
        observation_end: end.map(d),
        realtime_start: None,
        realtime_end: None,
    }
}

/// A provider that holds `truth` and answers every window with its rows in
/// that window, or fails every fetch with `failure`.
struct Provider {
    truth: Vec<RealtimeObservation>,
    failure: Option<u16>,
}

/// Runs a request against a cache and a provider; returns the answer and
/// what was done, in order.
fn serve(
    request: &GetObservationsParams,
    cache: &mut RealtimeObservationsDatabase,
    provider: &Provider,
) -> (Result<Vec<RealtimeObservation>, ReconcileError>, Vec<String>) {
    let mut log = Vec::new();
    let (mut machine, mut action) = Reconciler::begin(request);
    loop {
        let event = match action {
            Action::ReadCache { since, until } => {
                log.push(format!("read {}..{}", bound(&since), bound(&until)));
                Event::CacheRows(cache.get_observations(&request.series_id, since, until))
            }
            Action::Fetch(window) => {
                log.push(window_text(&window));
                match provider.failure {
                    Some(code) => Event::FetchFailed(FredApiError { status_code: code, error_message: None }),
                    None => Event::Fetched(within_date_bounds(
                        &provider.truth,
                        window.observation_start,
                        window.observation_end,
                    )),
                }
            }
            Action::Store(rows) => {
                log.push(format!("store {}", rows.len()));
                cache.put_observations(&request.series_id, &rows);
                Event::Stored
            }
            Action::Respond(rows) => {
                assert!(machine.is_finished());
                return (Ok(rows), log);
            }
            Action::Fail(error) => {
                assert!(machine.is_finished());
                return (Err(error), log);
            }
        };
        action = machine.step(event);
    }
}

fn strictly_ascending(rows: &[RealtimeObservation]) -> bool {
    rows.windows(2).all(|w| w[0].date.days() < w[1].date.days())
}

#[test]
fn empty_cache_fetches_the_range_once_and_stores_it() {
    let mut cache = RealtimeObservationsDatabase::new();
    let provider = Provider { truth: days("2019-12-20", "2020-01-20", "v"), failure: None };
    let (answer, log) = serve(&params(Some("2020-01-01"), Some("2020-01-10")), &mut cache, &provider);
    let answer = answer.unwrap();
    assert_eq!(log, vec!["read 2020-01-01..2020-01-10", "fetch 2020-01-01..2020-01-10", "store 10"]);
    assert_eq!(dates(&answer), dates(&days("2020-01-01", "2020-01-10", "v")));
    assert!(strictly_ascending(&answer));
    assert_eq!(dates(&cache.get_observations("SP500", None, None)), dates(&days("2020-01-01", "2020-01-10", "v")));
}

#[test]
fn gaps_on_both_sides_lead_to_one_fetch_of_the_whole_range() {
    let mut cache = RealtimeObservationsDatabase::new();
    cache.put_observations("SP500", &days("2020-01-03", "2020-01-08", "cached"));
    let provider = Provider { truth: days("2019-12-20", "2020-01-20", "fresh"), failure: None };
    let (answer, log) = serve(&params(Some("2020-01-01"), Some("2020-01-10")), &mut cache, &provider);
    let answer = answer.unwrap();
    assert_eq!(
        log,
        vec![
            "read 2020-01-01..2020-01-10",
            "fetch 2020-01-01..2020-01-02",
            "fetch 2020-01-09..2020-01-10",
            "fetch 2020-01-01..2020-01-10",
            "store 10",
        ]
    );
    assert_eq!(dates(&answer), dates(&days("2020-01-01", "2020-01-10", "fresh")));
    assert!(answer.iter().all(|r| r.value == "fresh"));
    assert!(strictly_ascending(&answer));
    let held = cache.get_observations("SP500", None, None);
    assert_eq!(held.len(), 10);
    assert!(held.iter().all(|r| r.value == "fresh"));
}

#[test]
fn covered_range_is_answered_from_the_cache() {
    let mut cache = RealtimeObservationsDatabase::new();
    cache.put_observations("SP500", &days("2020-01-01", "2020-01-10", "cached"));
    let provider = Provider { truth: days("2019-12-20", "2020-01-20", "fresh"), failure: None };
    let (answer, log) = serve(&params(Some("2020-01-03"), Some("2020-01-05")), &mut cache, &provider);
    let answer = answer.unwrap();
    assert_eq!(log, vec!["read 2020-01-03..2020-01-05"]);
    assert_eq!(answer.len(), 3);
    assert_eq!(dates(&answer), vec!["2020-01-03", "2020-01-04", "2020-01-05"]);
    assert!(answer.iter().all(|r| r.value == "cached"));
    assert_eq!(cache.get_observations("SP500", None, None).len(), 10);
}

#[test]
fn open_bounds_have_no_gaps() {
    let mut cache = RealtimeObservationsDatabase::new();
    cache.put_observations("SP500", &days("2020-01-03", "2020-01-08", "cached"));
    let provider = Provider { truth: days("2019-12-20", "2020-01-20", "fresh"), failure: None };
    let (answer, log) = serve(&params(None, None), &mut cache, &provider);
    assert_eq!(log, vec!["read *..*"]);
    assert_eq!(answer.unwrap().len(), 6);
    let (answer, log) = serve(&params(Some("2020-01-03"), None), &mut cache, &provider);
    assert_eq!(log, vec!["read 2020-01-03..*"]);
    assert_eq!(answer.unwrap().len(), 6);
    let (answer, log) = serve(&params(None, Some("2020-01-05")), &mut cache, &provider);
    assert_eq!(log, vec!["read *..2020-01-05"]);
    assert_eq!(answer.unwrap().len(), 3);
}

#[test]
fn a_gap_on_one_side_is_fetched_alone() {
    let mut cache = RealtimeObservationsDatabase::new();
    cache.put_observations("SP500", &days("2020-01-03", "2020-01-08", "cached"));
    let provider = Provider { truth: days("2019-12-20", "2020-01-20", "fresh"), failure: None };
    let (answer, log) = serve(&params(Some("2020-01-02"), Some("2020-01-08")), &mut cache, &provider);
    assert_eq!(
        log,
        vec!["read 2020-01-02..2020-01-08", "fetch 2020-01-02..2020-01-02", "fetch 2020-01-02..2020-01-08", "store 7"]
    );
    assert_eq!(answer.unwrap().len(), 7);
    let mut cache = RealtimeObservationsDatabase::new();
    cache.put_observations("SP500", &days("2020-01-03", "2020-01-08", "cached"));
    let (answer, log) = serve(&params(None, Some("2020-01-09")), &mut cache, &provider);
    assert_eq!(log, vec!["read *..2020-01-09", "fetch 2020-01-09..2020-01-09", "fetch *..2020-01-09", "store 21"]);
    assert_eq!(answer.unwrap().len(), 21);
}

#[test]
fn gaps_without_data_leave_the_cached_rows_as_the_answer() {
    let mut cache = RealtimeObservationsDatabase::new();
    cache.put_observations("SP500", &days("2020-01-06", "2020-01-10", "cached"));
    let provider = Provider { truth: days("2020-01-06", "2020-01-10", "fresh"), failure: None };
    let (answer, log) = serve(&params(Some("2020-01-04"), Some("2020-01-12")), &mut cache, &provider);
    let answer = answer.unwrap();
    assert_eq!(
        log,
        vec!["read 2020-01-04..2020-01-12", "fetch 2020-01-04..2020-01-05", "fetch 2020-01-11..2020-01-12"]
    );
    assert_eq!(answer.len(), 5);
    assert!(answer.iter().all(|r| r.value == "cached"));
}

#[test]
fn rows_cached_outside_the_range_do_not_count() {
    let mut cache = RealtimeObservationsDatabase::new();
    cache.put_observations("SP500", &days("2019-12-01", "2019-12-31", "before"));
    cache.put_observations("SP500", &days("2020-02-01", "2020-02-10", "after"));
    let provider = Provider { truth: days("2019-12-01", "2020-02-10", "fresh"), failure: None };
    let (answer, log) = serve(&params(Some("2020-01-05"), Some("2020-01-07")), &mut cache, &provider);
    assert_eq!(log, vec!["read 2020-01-05..2020-01-07", "fetch 2020-01-05..2020-01-07", "store 3"]);
    assert_eq!(dates(&answer.unwrap()), vec!["2020-01-05", "2020-01-06", "2020-01-07"]);
}

#[test]
fn single_day_request_follows_the_same_rules() {
    let mut cache = RealtimeObservationsDatabase::new();
    let provider = Provider { truth: days("2020-01-01", "2020-01-10", "fresh"), failure: None };
    let (answer, log) = serve(&params(Some("2020-01-05"), Some("2020-01-05")), &mut cache, &provider);
    assert_eq!(log, vec!["read 2020-01-05..2020-01-05", "fetch 2020-01-05..2020-01-05", "store 1"]);
    assert_eq!(dates(&answer.unwrap()), vec!["2020-01-05"]);
    let (answer, log) = serve(&params(Some("2020-01-05"), Some("2020-01-05")), &mut cache, &provider);
    assert_eq!(log, vec!["read 2020-01-05..2020-01-05"]);
    assert_eq!(dates(&answer.unwrap()), vec!["2020-01-05"]);
}

#[test]
fn realtime_request_leaves_the_cache_alone() {
    let mut cache = RealtimeObservationsDatabase::new();
    cache.put_observations("SP500", &days("2020-01-01", "2020-01-10", "cached"));
    let provider = Provider { truth: days("2020-01-01", "2020-01-10", "as published"), failure: None };
    let mut request = params(Some("2020-01-03"), Some("2020-01-05"));
    request.realtime_start = Some(d("2020-02-01"));
    let (answer, log) = serve(&request, &mut cache, &provider);
    let answer = answer.unwrap();
    assert_eq!(log, vec!["fetch 2020-01-03..2020-01-05 as of 2020-02-01..*"]);
    assert_eq!(answer.len(), 3);
    assert!(answer.iter().all(|r| r.value == "as published"));
    assert!(cache.get_observations("SP500", None, None).iter().all(|r| r.value == "cached"));
    let mut request = params(None, None);
    request.realtime_end = Some(d("2020-02-01"));
    let (_, log) = serve(&request, &mut cache, &provider);
    assert_eq!(log, vec!["fetch *..* as of *..2020-02-01"]);
}

#[test]
fn upstream_failure_is_handed_on_with_its_status() {
    let mut cache = RealtimeObservationsDatabase::new();
    let provider = Provider { truth: Vec::new(), failure: Some(429) };
    let (answer, log) = serve(&params(Some("2020-01-01"), Some("2020-01-10")), &mut cache, &provider);
    let error = answer.unwrap_err();
    assert_eq!(error.status(), 429);
    assert!(matches!(error, ReconcileError::Upstream(FredApiError { status_code: 429, .. })));
    assert_eq!(log, vec!["read 2020-01-01..2020-01-10", "fetch 2020-01-01..2020-01-10"]);
    assert!(cache.get_observations("SP500", None, None).is_empty());
}

#[test]
fn failed_gap_fetch_writes_nothing() {
    let mut cache = RealtimeObservationsDatabase::new();
    cache.put_observations("SP500", &days("2020-01-03", "2020-01-08", "cached"));
    let provider = Provider { truth: Vec::new(), failure: Some(503) };
    let (answer, log) = serve(&params(Some("2020-01-01"), Some("2020-01-10")), &mut cache, &provider);
    assert_eq!(answer.unwrap_err().status(), 503);
    assert_eq!(log, vec!["read 2020-01-01..2020-01-10", "fetch 2020-01-01..2020-01-02"]);
    assert_eq!(cache.get_observations("SP500", None, None).len(), 6);
}

#[test]
fn storage_failures_end_the_request() {
    let (mut machine, action) = Reconciler::begin(&params(None, None));
    assert!(matches!(action, Action::ReadCache { since: None, until: None }));
    match machine.step(Event::CacheFailed) {
        Action::Fail(error) => {
            assert!(matches!(error, ReconcileError::Storage));
            assert_eq!(error.status(), 500);
        }
        _ => panic!("a failed read ends the request"),
    }
    assert!(machine.is_finished());
    let (mut machine, _) = Reconciler::begin(&params(None, None));
    machine.step(Event::CacheRows(Vec::new()));
    let action = machine.step(Event::Fetched(vec![row("2020-01-01", "a")]));
    assert!(matches!(action, Action::Store(_)));
    assert_eq!(machine.phase, Phase::Storing);
    assert!(matches!(machine.step(Event::StoreFailed), Action::Fail(ReconcileError::Storage)));
}

#[test]
fn cache_rows_are_restricted_and_sorted_before_use() {
    let (mut machine, _) = Reconciler::begin(&params(Some("2020-01-03"), Some("2020-01-05")));
    let rows = vec![
        row("2020-01-09", "i"),
        row("2020-01-05", "e"),
        row("2020-01-01", "a"),
        row("2020-01-03", "c"),
        row("2020-01-04", "d"),
    ];
    match machine.step(Event::CacheRows(rows)) {
        Action::Respond(rows) => assert_eq!(dates(&rows), vec!["2020-01-03", "2020-01-04", "2020-01-05"]),
        _ => panic!("the range is covered"),
    }
}

#[test]
fn reconciler_rejects_what_it_did_not_ask_for() {
    let (mut machine, _) = Reconciler::begin(&params(None, None));
    match machine.step(Event::Stored) {
        Action::Fail(error) => {
            assert!(matches!(error, ReconcileError::OutOfTurn));
            assert_eq!(error.status(), 500);
        }
        _ => panic!("nothing was being stored"),
    }
    assert!(matches!(machine.step(Event::CacheRows(Vec::new())), Action::Fail(ReconcileError::OutOfTurn)));
    let (mut machine, _) = Reconciler::begin(&params(None, None));
    assert!(matches!(machine.step(Event::Fetched(Vec::new())), Action::Fail(ReconcileError::OutOfTurn)));
}
