//! Query parameters, the provider's response shapes, and what the cache holds.

use vstd::prelude::*;
use crate::date_formats::{Date, Timestamp};

verus! {

/// One observation of a series: a date and the provider's raw text for its
/// value.
#[derive(Debug, Clone)]
pub struct RealtimeObservation {
    pub date: Date,
    pub value: String,
}

/// Query parameters of a series request.
#[derive(Debug)]
pub struct GetSeriesParams {
    pub series_id: String,
}

/// Query parameters of an observations request.
#[derive(Debug)]
pub struct GetObservationsParams {
    pub series_id: String,
    pub observation_start: Option<Date>,
    pub observation_end: Option<Date>,
    pub realtime_start: Option<Date>,
    pub realtime_end: Option<Date>,
}

/// The provider's error payload.
#[derive(Debug)]
pub struct FredResponseError {
    pub error_message: String,
    pub error_code: u16,
}

/// One row of an observations page.
#[derive(Debug, Clone)]
pub struct ObservationItem {
    pub date: Date,
    pub value: String,
    pub realtime_start: Date,
    pub realtime_end: Date,
}

/// One page of observations.
#[derive(Debug)]
pub struct FredResponseObservation {
    pub realtime_start: Date,
    pub realtime_end: Date,
    pub count: usize,
    pub offset: usize,
    pub limit: usize,
    pub observations: Vec<ObservationItem>,
}

/// What an observations request returns: a page, or the provider's error.
#[derive(Debug)]
pub enum FredObservationsResponseWithError {
    Payload(FredResponseObservation),
    ErrorMessage(FredResponseError),
}

/// What any request returns: its payload, or the provider's error.
#[derive(Debug)]
pub enum FredApiResponse<T> {
    Payload(T),
    ErrorMessage(FredResponseError),
}

/// The payload of a series request.
#[derive(Debug)]
pub struct FredResponseSeries {
    pub realtime_start: Date,
    pub realtime_end: Date,
    pub seriess: Vec<FredEconomicDataSeries>,
}

/// What a series request returns: its payload, or the provider's error.
#[derive(Debug)]
pub enum FredResponseSeriesWithError {
    FredResponseSeries(FredResponseSeries),
    FredResponseError(FredResponseError),
}

/// The metadata of one series.
#[derive(Debug, Clone)]
pub struct FredEconomicDataSeries {
    pub id: String,
    pub last_updated: Timestamp,
    pub realtime_start: Date,
    pub realtime_end: Date,
    pub title: String,
    pub observation_start: Date,
    pub observation_end: Date,
    pub frequency: String,
    pub frequency_short: String,
    pub units: String,
    pub units_short: String,
    pub seasonal_adjustment: String,
    pub seasonal_adjustment_short: String,
    pub popularity: i64,
    pub notes: String,
}

impl RealtimeObservation {
    /// A copy of this observation.
    pub fn duplicate(&self) -> (copy: RealtimeObservation)
        ensures
            copy == *self,
    {
        RealtimeObservation { date: self.date, value: self.value.clone() }
    }
}

impl FredEconomicDataSeries {
    /// A copy of this metadata.
    pub fn duplicate(&self) -> (copy: FredEconomicDataSeries)
        ensures
            copy == *self,
    {
        FredEconomicDataSeries {
            id: self.id.clone(),
            last_updated: self.last_updated,
            realtime_start: self.realtime_start,
            realtime_end: self.realtime_end,
            title: self.title.clone(),
            observation_start: self.observation_start,
            observation_end: self.observation_end,
            frequency: self.frequency.clone(),
            frequency_short: self.frequency_short.clone(),
            units: self.units.clone(),
            units_short: self.units_short.clone(),
            seasonal_adjustment: self.seasonal_adjustment.clone(),
            seasonal_adjustment_short: self.seasonal_adjustment_short.clone(),
            popularity: self.popularity,
            notes: self.notes.clone(),
        }
    }
}

impl ObservationItem {
    /// The observation in this row, without its realtime bounds.
    pub open spec fn observation(self) -> RealtimeObservation {
        RealtimeObservation { date: self.date, value: self.value }
    }

    /// The observation in this row, without its realtime bounds.
    pub fn to_observation(&self) -> (row: RealtimeObservation)
        ensures
            row == self.observation(),
    {
        RealtimeObservation { date: self.date, value: self.value.clone() }
    }
}

impl GetObservationsParams {
    /// Whether the request asks for the data as of a past publication
    /// snapshot: either realtime bound is set.
    pub open spec fn realtime(self) -> bool {
        self.realtime_start is Some || self.realtime_end is Some
    }

    /// Whether either realtime bound is set.
    pub fn is_realtime(&self) -> (result: bool)
        ensures
            result == self.realtime(),
    {
        self.realtime_start.is_some() || self.realtime_end.is_some()
    }
}

/// A copy of a sequence of observations.
pub fn duplicate_rows(rows: &Vec<RealtimeObservation>) -> (copy: Vec<RealtimeObservation>)
    ensures
        copy@ == rows@,
{
    let mut copy: Vec<RealtimeObservation> = Vec::new();
    let mut i: usize = 0;
    while i < rows.len()
        invariant
            i <= rows.len(),
            copy@ == rows@.take(i as int),
        decreases rows.len() - i,
    {
        copy.push(rows[i].duplicate());
        proof {
            assert(rows@.take(i + 1) =~= rows@.take(i as int).push(rows@[i as int]));
        }
        i = i + 1;
    }
    proof {
        assert(rows@.take(rows.len() as int) =~= rows@);
    }
    copy
}

} // verus!
