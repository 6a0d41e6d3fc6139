//! The upstream protocol: what is asked of the provider, how its pages are
//! put together, and how its failures are reported.

use vstd::prelude::*;
use vstd::std_specs::convert::FromSpecImpl;
use vstd::string::StringExecFns;
use crate::date_formats::{date_text, yyyy_mm_dd, Date};
use crate::entities::{FredApiResponse, FredResponseError, FredResponseObservation};
use crate::entities::{ObservationItem, RealtimeObservation};

verus! {

/// Rows asked for per page.
pub const LIMIT: usize = 10_000;

/// Status reported where the provider's own is no HTTP status.
pub const INTERNAL_SERVER_ERROR: u16 = 500;

/// Status reported where the provider could not be reached.
pub const SERVICE_UNAVAILABLE: u16 = 503;

/// A failed upstream call: an HTTP status and, where there is one, a message.
#[derive(Debug)]
pub struct FredApiError {
    pub status_code: u16,
    pub error_message: Option<String>,
}

/// Whether a number is an HTTP status code.
pub open spec fn is_status(code: u16) -> bool {
    100 <= code < 1000
}

/// The number itself where it is an HTTP status code, else 500.
pub open spec fn status_or_internal(code: u16) -> u16 {
    if is_status(code) {
        code
    } else {
        INTERNAL_SERVER_ERROR
    }
}

/// The line that hyper prints for a status code: the number and its
/// canonical reason.
pub uninterp spec fn status_text(code: int) -> Seq<char>;

/// The decimal digit for a number below ten.
pub open spec fn digit(d: nat) -> char {
    if d == 0 {
        '0'
    } else if d == 1 {
        '1'
    } else if d == 2 {
        '2'
    } else if d == 3 {
        '3'
    } else if d == 4 {
        '4'
    } else if d == 5 {
        '5'
    } else if d == 6 {
        '6'
    } else if d == 7 {
        '7'
    } else if d == 8 {
        '8'
    } else {
        '9'
    }
}

/// A number in decimal, without sign or leading zeros.
pub open spec fn decimal(n: nat) -> Seq<char>
    decreases n,
{
    if n < 10 {
        seq![digit(n)]
    } else {
        decimal(n / 10).push(digit(n % 10))
    }
}

/// Calls `StatusCode::from_u16` and `StatusCode::as_u16`. Claims that the
/// numbers from 100 up to 999 are accepted and come back unchanged, and that
/// no other number is accepted.
#[verifier::external_body]
pub(crate) fn checked_status(code: u16) -> (status: Option<u16>)
    ensures
        status == if is_status(code) { Some(code) } else { None::<u16> },
{
    hyper::StatusCode::from_u16(code).ok().map(|status| status.as_u16())
}

/// Calls `StatusCode::from_u16` and `StatusCode`'s `Display` through
/// `to_string`. Claims that the text is a function of the number alone.
/// Numbers that are no status code are left out: the first call returns an
/// error for them.
#[verifier::external_body]
pub(crate) fn status_line(code: u16) -> (text: String)
    requires
        is_status(code),
    ensures
        text@ == status_text(code as int),
{
    hyper::StatusCode::from_u16(code).unwrap().to_string()
}

/// Calls `usize`'s `to_string`. Claims that the text is the number in
/// decimal.
#[verifier::external_body]
pub(crate) fn decimal_text(n: usize) -> (text: String)
    ensures
        text@ == decimal(n as nat),
{
    n.to_string()
}

/// The status code to report for a number that the provider sent as one.
pub fn status_from(code: u16) -> (status: u16)
    ensures
        status == status_or_internal(code),
        is_status(status),
{
    match checked_status(code) {
        Some(status) => status,
        None => INTERNAL_SERVER_ERROR,
    }
}

impl Default for FredApiError {
    /// Status 500 without a message.
    fn default() -> (error: FredApiError)
        ensures
            error.status_code == INTERNAL_SERVER_ERROR,
            error.error_message is None,
    {
        FredApiError { status_code: INTERNAL_SERVER_ERROR, error_message: None }
    }
}

impl From<FredResponseError> for FredApiError {
    /// The provider's error payload as a failed call: its code where that is
    /// an HTTP status, else 500, and its message.
    fn from(value: FredResponseError) -> (error: FredApiError) {
        FredApiError {
            status_code: status_from(value.error_code),
            error_message: Some(value.error_message),
        }
    }
}

impl FromSpecImpl<FredResponseError> for FredApiError {
    open spec fn obeys_from_spec() -> bool {
        true
    }

    open spec fn from_spec(value: FredResponseError) -> FredApiError {
        FredApiError {
            status_code: status_or_internal(value.error_code),
            error_message: Some(value.error_message),
        }
    }
}

impl FredApiError {
    /// What is printed for this error.
    pub open spec fn description(self) -> Seq<char> {
        let head = "FRED API errored with status code "@ + status_text(
            status_or_internal(self.status_code) as int,
        );
        match self.error_message {
            Some(message) => head + ": "@ + message@,
            None => head,
        }
    }

    /// A failure to reach the provider or to read its answer: the HTTP status
    /// where one was received, else 503, and the transport's message.
    pub fn from_transport(status: Option<u16>, message: String) -> (error: FredApiError)
        ensures
            error.status_code == match status {
                Some(code) => status_or_internal(code),
                None => SERVICE_UNAVAILABLE,
            },
            error.error_message == Some(message),
    {
        let status_code = match status {
            Some(code) => status_from(code),
            None => SERVICE_UNAVAILABLE,
        };
        FredApiError { status_code, error_message: Some(message) }
    }

    /// The status to hand on to the client: this error's own where it is an
    /// HTTP status, else 500.
    pub fn status(&self) -> (status: u16)
        ensures
            status == status_or_internal(self.status_code),
            is_status(status),
    {
        status_from(self.status_code)
    }

    /// The text of this error: the status line and, where there is one, the
    /// message.
    pub fn describe(&self) -> (text: String)
        ensures
            text@ == self.description(),
    {
        let line = status_line(self.status());
        let head = String::from_str("FRED API errored with status code ").concat(line.as_str());
        match &self.error_message {
            Some(message) => head.concat(": ").concat(message.as_str()),
            None => head,
        }
    }
}

impl<T> FredApiResponse<T> {
    /// What a caller gets from a response: the payload, or the provider's
    /// error payload as a failed call.
    pub open spec fn outcome(self) -> Result<T, FredApiError> {
        match self {
            FredApiResponse::Payload(payload) => Ok(payload),
            FredApiResponse::ErrorMessage(error) => Err(
                FredApiError {
                    status_code: status_or_internal(error.error_code),
                    error_message: Some(error.error_message),
                },
            ),
        }
    }

    /// The payload, or the provider's error payload as a failed call. An
    /// error payload is a failure also where it came with HTTP status 200.
    pub fn into_result(self) -> (result: Result<T, FredApiError>)
        ensures
            result == self.outcome(),
    {
        match self {
            FredApiResponse::Payload(payload) => Ok(payload),
            FredApiResponse::ErrorMessage(error) => Err(FredApiError::from(error)),
        }
    }
}

/// One name and value of a query string.
#[derive(Debug)]
pub struct QueryPair {
    pub name: String,
    pub value: String,
}

/// The names and values of a query, as texts.
pub open spec fn pairs_text(pairs: Seq<QueryPair>) -> Seq<(Seq<char>, Seq<char>)> {
    pairs.map_values(|pair: QueryPair| (pair.name@, pair.value@))
}

/// One pair for a date bound that is set, none for one that is not.
pub open spec fn date_pair(name: Seq<char>, date: Option<Date>) -> Seq<(Seq<char>, Seq<char>)> {
    match date {
        Some(d) => seq![(name, date_text(d.day()))],
        None => Seq::empty(),
    }
}

/// The query of one page of observations: key, format, page size, ascending
/// order and series; then each date bound that is set; then the offset, where
/// it is not zero.
pub open spec fn observations_query_text(
    api_key: Seq<char>,
    series_id: Seq<char>,
    observation_start: Option<Date>,
    observation_end: Option<Date>,
    realtime_start: Option<Date>,
    realtime_end: Option<Date>,
    offset: nat,
) -> Seq<(Seq<char>, Seq<char>)> {
    seq![
        ("api_key"@, api_key),
        ("file_type"@, "json"@),
        ("limit"@, decimal(LIMIT as nat)),
        ("sort_order"@, "asc"@),
        ("series_id"@, series_id),
    ] + date_pair("observation_start"@, observation_start) + date_pair(
        "observation_end"@,
        observation_end,
    ) + date_pair("realtime_start"@, realtime_start) + date_pair("realtime_end"@, realtime_end) + (
    if offset > 0 {
        seq![("offset"@, decimal(offset))]
    } else {
        Seq::empty()
    })
}

/// The query of a series request: key, format and series.
pub open spec fn series_query_text(api_key: Seq<char>, series_id: Seq<char>) -> Seq<
    (Seq<char>, Seq<char>),
> {
    seq![("api_key"@, api_key), ("file_type"@, "json"@), ("series_id"@, series_id)]
}

fn push_pair(pairs: &mut Vec<QueryPair>, name: &str, value: String)
    ensures
        pairs_text(final(pairs)@) == pairs_text(old(pairs)@).push((name@, value@)),
{
    pairs.push(QueryPair { name: String::from_str(name), value });
    proof {
        assert(pairs_text(pairs@) =~= pairs_text(old(pairs)@).push((name@, value@)));
    }
}

fn push_date(pairs: &mut Vec<QueryPair>, name: &str, date: Option<Date>)
    ensures
        pairs_text(final(pairs)@) == pairs_text(old(pairs)@) + date_pair(name@, date),
{
    match date {
        Some(d) => {
            push_pair(pairs, name, yyyy_mm_dd::serialize(&d));
            proof {
                assert(pairs_text(pairs@) =~= pairs_text(old(pairs)@) + date_pair(name@, date));
            }
        },
        None => {
            proof {
                assert(pairs_text(pairs@) =~= pairs_text(old(pairs)@) + date_pair(name@, date));
            }
        },
    }
}

/// The query of one page of observations, starting behind the first `offset`
/// rows.
pub fn observations_query(
    api_key: &str,
    series_id: &str,
    observation_start: Option<Date>,
    observation_end: Option<Date>,
    realtime_start: Option<Date>,
    realtime_end: Option<Date>,
    offset: usize,
) -> (pairs: Vec<QueryPair>)
    ensures
        pairs_text(pairs@) == observations_query_text(
            api_key@,
            series_id@,
            observation_start,
            observation_end,
            realtime_start,
            realtime_end,
            offset as nat,
        ),
{
    let mut pairs: Vec<QueryPair> = Vec::new();
    proof {
        assert(pairs_text(pairs@) =~= Seq::empty());
    }
    push_pair(&mut pairs, "api_key", String::from_str(api_key));
    push_pair(&mut pairs, "file_type", String::from_str("json"));
    push_pair(&mut pairs, "limit", decimal_text(LIMIT));
    push_pair(&mut pairs, "sort_order", String::from_str("asc"));
    push_pair(&mut pairs, "series_id", String::from_str(series_id));
    proof {
        assert(pairs_text(pairs@) =~= seq![
            ("api_key"@, api_key@),
            ("file_type"@, "json"@),
            ("limit"@, decimal(LIMIT as nat)),
            ("sort_order"@, "asc"@),
            ("series_id"@, series_id@),
        ]);
    }
    push_date(&mut pairs, "observation_start", observation_start);
    push_date(&mut pairs, "observation_end", observation_end);
    push_date(&mut pairs, "realtime_start", realtime_start);
    push_date(&mut pairs, "realtime_end", realtime_end);
    if offset > 0 {
        let ghost before = pairs_text(pairs@);
        push_pair(&mut pairs, "offset", decimal_text(offset));
        proof {
            assert(pairs_text(pairs@) =~= before + seq![("offset"@, decimal(offset as nat))]);
        }
    } else {
        proof {
            assert(pairs_text(pairs@) =~= pairs_text(pairs@) + Seq::empty());
        }
    }
    pairs
}

/// The query of a series request.
pub fn series_query(api_key: &str, series_id: &str) -> (pairs: Vec<QueryPair>)
    ensures
        pairs_text(pairs@) == series_query_text(api_key@, series_id@),
{
    let mut pairs: Vec<QueryPair> = Vec::new();
    proof {
        assert(pairs_text(pairs@) =~= Seq::empty());
    }
    push_pair(&mut pairs, "api_key", String::from_str(api_key));
    push_pair(&mut pairs, "file_type", String::from_str("json"));
    push_pair(&mut pairs, "series_id", String::from_str(series_id));
    proof {
        assert(pairs_text(pairs@) =~= series_query_text(api_key@, series_id@));
    }
    pairs
}

/// Where observations are asked for.
pub const OBSERVATIONS_ENDPOINT: &'static str = "https://api.stlouisfed.org/fred/series/observations";

/// Where series metadata is asked for.
pub const SERIES_ENDPOINT: &'static str = "https://api.stlouisfed.org/fred/series";

/// The URL that the url crate makes of an address and the pairs of a query,
/// if it accepts the address.
pub uninterp spec fn url_text(address: Seq<char>, pairs: Seq<(Seq<char>, Seq<char>)>) -> Option<Seq<char>>;

/// Calls `Url::parse_with_params` and `Url`'s `Display` through `to_string`.
/// Claims that acceptance and the URL are a function of the address and the
/// pairs alone.
#[verifier::external_body]
pub(crate) fn url_with_query(address: &str, pairs: &Vec<QueryPair>) -> (url: Option<String>)
    ensures
        match url {
            Some(text) => url_text(address@, pairs_text(pairs@)) == Some(text@),
            None => url_text(address@, pairs_text(pairs@)) is None,
        },
{
    let parts = pairs.iter().map(|pair| (pair.name.as_str(), pair.value.as_str()));
    reqwest::Url::parse_with_params(address, parts).ok().map(|url| url.to_string())
}

/// The URL of one page of observations, starting behind the first `offset`
/// rows.
pub fn observations_url(
    api_key: &str,
    series_id: &str,
    observation_start: Option<Date>,
    observation_end: Option<Date>,
    realtime_start: Option<Date>,
    realtime_end: Option<Date>,
    offset: usize,
) -> (url: Option<String>)
    ensures
        match url {
            Some(text) => Some(text@),
            None => None,
        } == url_text(
            OBSERVATIONS_ENDPOINT@,
            observations_query_text(
                api_key@,
                series_id@,
                observation_start,
                observation_end,
                realtime_start,
                realtime_end,
                offset as nat,
            ),
        ),
{
    let pairs = observations_query(
        api_key,
        series_id,
        observation_start,
        observation_end,
        realtime_start,
        realtime_end,
        offset,
    );
    url_with_query(OBSERVATIONS_ENDPOINT, &pairs)
}

/// The URL of a series request.
pub fn series_url(api_key: &str, series_id: &str) -> (url: Option<String>)
    ensures
        match url {
            Some(text) => Some(text@),
            None => None,
        } == url_text(SERIES_ENDPOINT@, series_query_text(api_key@, series_id@)),
{
    let pairs = series_query(api_key, series_id);
    url_with_query(SERIES_ENDPOINT, &pairs)
}

/// The observations of a page's rows, in the page's order.
pub open spec fn page_rows(items: Seq<ObservationItem>) -> Seq<RealtimeObservation> {
    items.map_values(|item: ObservationItem| item.observation())
}

/// The rows received so far over the pages of one fetch. The next page is
/// asked for behind as many rows as have been received.
pub struct ObservationsPager {
    pub received: Vec<RealtimeObservation>,
}

/// What follows a page.
pub enum PageOutcome {
    /// The page was full: ask for the next one, behind the rows received.
    More(ObservationsPager),
    /// The page was short: these are all the rows.
    Complete(Vec<RealtimeObservation>),
    /// The provider reported an error: the fetch fails as a whole.
    Failed(FredApiError),
}

impl ObservationsPager {
    /// Before the first page: nothing received.
    pub fn new() -> (pager: ObservationsPager)
        ensures
            pager.received@ == Seq::<RealtimeObservation>::empty(),
    {
        ObservationsPager { received: Vec::new() }
    }

    /// The offset to ask the next page with: the number of rows received.
    pub fn offset(&self) -> (offset: usize)
        ensures
            offset == self.received@.len(),
    {
        self.received.len()
    }

    /// Takes in the response to the page last asked for. An error payload
    /// fails the fetch. A page of at least `LIMIT` rows is followed by
    /// another; a shorter one ends the fetch with all rows received, in the
    /// order in which they came.
    pub fn absorb(self, response: FredApiResponse<FredResponseObservation>) -> (outcome: PageOutcome)
        ensures
            match response.outcome() {
                Err(error) => outcome == PageOutcome::Failed(error),
                Ok(page) => match outcome {
                    PageOutcome::More(pager) => page.observations@.len() >= LIMIT && pager.received@
                        == self.received@ + page_rows(page.observations@),
                    PageOutcome::Complete(rows) => page.observations@.len() < LIMIT && rows@
                        == self.received@ + page_rows(page.observations@),
                    PageOutcome::Failed(_) => false,
                },
            },
    {
        match response.into_result() {
            Err(error) => PageOutcome::Failed(error),
            Ok(page) => {
                let mut received = self.received;
                let mut i: usize = 0;
                while i < page.observations.len()
                    invariant
                        i <= page.observations@.len(),
                        received@ == self.received@ + page_rows(page.observations@.take(i as int)),
                    decreases page.observations@.len() - i,
                {
                    received.push(page.observations[i].to_observation());
                    proof {
                        assert(page.observations@.take(i + 1) =~= page.observations@.take(i as int).push(
                            page.observations@[i as int],
                        ));
                        assert(received@ =~= self.received@ + page_rows(page.observations@.take(i + 1)));
                    }
                    i = i + 1;
                }
                proof {
                    assert(page.observations@.take(page.observations@.len() as int) =~= page.observations@);
                }
                if page.observations.len() >= LIMIT {
                    PageOutcome::More(ObservationsPager { received })
                } else {
                    PageOutcome::Complete(received)
                }
            },
        }
    }
}

} // verus!
