//! Refreshing the metadata of a series: it is always fetched from the
//! provider, written to the cache only where the cache holds none or an older
//! one, and answered as fetched.

use vstd::prelude::*;
use crate::entities::{FredApiResponse, FredEconomicDataSeries, FredResponseSeries};
use crate::fred::{FredApiError, INTERNAL_SERVER_ERROR};

verus! {

/// Status reported where the provider knows no series of that name.
pub const NOT_FOUND: u16 = 404;

/// Why a refresh failed.
#[derive(Debug)]
pub enum RefreshError {
    /// The provider failed; its error is handed on unchanged.
    Upstream(FredApiError),
    /// The provider returned no series for the id.
    NotFound,
    /// The cache could not be read.
    Storage,
    /// The machine was told of something it had not asked for.
    OutOfTurn,
}

/// What the machine is waiting for.
#[derive(Clone, Copy, Debug, PartialEq, Eq, Structural)]
pub enum RefreshPhase {
    /// The provider's metadata.
    Fetching,
    /// The metadata that the cache holds.
    ReadingStored,
    /// The write of the fetched metadata.
    Writing,
    /// Nothing: the request is answered or has failed.
    Finished,
}

/// What the caller is to do next.
#[derive(Debug)]
pub enum RefreshAction {
    /// Fetch the metadata of the series from the provider, and report it.
    FetchSeries,
    /// Read the metadata that the cache holds for the series, and report it.
    ReadStored,
    /// Upsert the metadata into the cache, and report it.
    PutSeries(FredEconomicDataSeries),
    /// Answer the request with the metadata; `write_failed` says that the
    /// cache could not take it.
    Respond { series: FredEconomicDataSeries, write_failed: bool },
    /// Answer the request with the error.
    Fail(RefreshError),
}

/// What the caller reports back.
#[derive(Debug)]
pub enum RefreshEvent {
    /// The provider's response.
    Fetched(FredApiResponse<FredResponseSeries>),
    /// The fetch failed.
    FetchFailed(FredApiError),
    /// What the cache holds for the series, if anything.
    Stored(Option<FredEconomicDataSeries>),
    /// The cache could not be read.
    ReadFailed,
    /// The metadata is in the cache.
    Written,
    /// The cache could not be written.
    WriteFailed,
}

/// One refresh in progress.
#[derive(Debug)]
pub struct Refresher {
    pub phase: RefreshPhase,
    /// The metadata that the provider returned.
    pub fetched: Option<FredEconomicDataSeries>,
}

/// Whether fetched metadata is to be written: the cache holds none, or what
/// it holds was last updated strictly earlier.
pub open spec fn outdated(stored: Option<FredEconomicDataSeries>, fetched: FredEconomicDataSeries) -> bool {
    match stored {
        None => true,
        Some(held) => held.last_updated.earlier_than(fetched.last_updated),
    }
}

/// The metadata in a response: the first series of its payload.
pub open spec fn first_series(response: FredApiResponse<FredResponseSeries>) -> Result<
    FredEconomicDataSeries,
    RefreshError,
> {
    match response.outcome() {
        Err(error) => Err(RefreshError::Upstream(error)),
        Ok(payload) => if payload.seriess@.len() == 0 {
            Err(RefreshError::NotFound)
        } else {
            Ok(payload.seriess@[0])
        },
    }
}

/// The end of a refresh that failed.
pub open spec fn refresh_failed(r: Refresher, error: RefreshError) -> (Refresher, RefreshAction) {
    (Refresher { phase: RefreshPhase::Finished, fetched: r.fetched }, RefreshAction::Fail(error))
}

/// The end of a refresh that has metadata to answer with; without any it has
/// failed.
pub open spec fn refresh_answered(r: Refresher, write_failed: bool) -> (Refresher, RefreshAction) {
    match r.fetched {
        Some(series) => (
            Refresher { phase: RefreshPhase::Finished, fetched: r.fetched },
            RefreshAction::Respond { series, write_failed },
        ),
        None => refresh_failed(r, RefreshError::OutOfTurn),
    }
}

/// The next state and action for each state and event. An event that the
/// state does not wait for ends the refresh with `OutOfTurn`.
pub open spec fn refresh_next(r: Refresher, event: RefreshEvent) -> (Refresher, RefreshAction) {
    match event {
        RefreshEvent::Fetched(response) => if r.phase == RefreshPhase::Fetching {
            match first_series(response) {
                Ok(series) => (
                    Refresher { phase: RefreshPhase::ReadingStored, fetched: Some(series) },
                    RefreshAction::ReadStored,
                ),
                Err(error) => refresh_failed(r, error),
            }
        } else {
            refresh_failed(r, RefreshError::OutOfTurn)
        },
        RefreshEvent::FetchFailed(error) => if r.phase == RefreshPhase::Fetching {
            refresh_failed(r, RefreshError::Upstream(error))
        } else {
            refresh_failed(r, RefreshError::OutOfTurn)
        },
        RefreshEvent::Stored(stored) => if r.phase == RefreshPhase::ReadingStored && r.fetched is Some {
            if outdated(stored, r.fetched.unwrap()) {
                (
                    Refresher { phase: RefreshPhase::Writing, fetched: r.fetched },
                    RefreshAction::PutSeries(r.fetched.unwrap()),
                )
            } else {
                refresh_answered(r, false)
            }
        } else {
            refresh_failed(r, RefreshError::OutOfTurn)
        },
        RefreshEvent::ReadFailed => if r.phase == RefreshPhase::ReadingStored {
            refresh_failed(r, RefreshError::Storage)
        } else {
            refresh_failed(r, RefreshError::OutOfTurn)
        },
        RefreshEvent::Written => if r.phase == RefreshPhase::Writing {
            refresh_answered(r, false)
        } else {
            refresh_failed(r, RefreshError::OutOfTurn)
        },
        RefreshEvent::WriteFailed => if r.phase == RefreshPhase::Writing {
            refresh_answered(r, true)
        } else {
            refresh_failed(r, RefreshError::OutOfTurn)
        },
    }
}

/// Whether fetched metadata is to be written over what the cache holds.
pub fn needs_write(stored: &Option<FredEconomicDataSeries>, fetched: &FredEconomicDataSeries) -> (result: bool)
    ensures
        result == outdated(*stored, *fetched),
{
    match stored {
        None => true,
        Some(held) => held.last_updated.is_before(&fetched.last_updated),
    }
}

/// The metadata in a response: the provider's error where it sent one,
/// `NotFound` where the payload holds no series, else the first series.
pub fn take_first_series(response: FredApiResponse<FredResponseSeries>) -> (result: Result<
    FredEconomicDataSeries,
    RefreshError,
>)
    ensures
        result == first_series(response),
{
    match response.into_result() {
        Err(error) => Err(RefreshError::Upstream(error)),
        Ok(payload) => {
            if payload.seriess.len() == 0 {
                Err(RefreshError::NotFound)
            } else {
                Ok(payload.seriess[0].duplicate())
            }
        },
    }
}

impl RefreshError {
    /// The status to answer with: the provider's where it failed, 404 where
    /// it knows no such series, 500 otherwise.
    pub fn status(&self) -> (status: u16)
        ensures
            status == match *self {
                RefreshError::Upstream(error) => crate::fred::status_or_internal(error.status_code),
                RefreshError::NotFound => NOT_FOUND,
                RefreshError::Storage => INTERNAL_SERVER_ERROR,
                RefreshError::OutOfTurn => INTERNAL_SERVER_ERROR,
            },
    {
        match self {
            RefreshError::Upstream(error) => error.status(),
            RefreshError::NotFound => NOT_FOUND,
            RefreshError::Storage => INTERNAL_SERVER_ERROR,
            RefreshError::OutOfTurn => INTERNAL_SERVER_ERROR,
        }
    }
}

impl Refresher {
    /// Starts a refresh and says what to do first: fetch.
    pub fn begin() -> (started: (Refresher, RefreshAction))
        ensures
            started.0 == (Refresher { phase: RefreshPhase::Fetching, fetched: None }),
            started.1 == RefreshAction::FetchSeries,
    {
        (Refresher { phase: RefreshPhase::Fetching, fetched: None }, RefreshAction::FetchSeries)
    }

    fn fail(&mut self, error: RefreshError) -> (action: RefreshAction)
        ensures
            (*final(self), action) == refresh_failed(*old(self), error),
    {
        self.phase = RefreshPhase::Finished;
        RefreshAction::Fail(error)
    }

    fn answer(&mut self, write_failed: bool) -> (action: RefreshAction)
        ensures
            (*final(self), action) == refresh_answered(*old(self), write_failed),
    {
        let copy = match &self.fetched {
            Some(series) => Some(series.duplicate()),
            None => None,
        };
        match copy {
            Some(series) => {
                self.phase = RefreshPhase::Finished;
                RefreshAction::Respond { series, write_failed }
            },
            None => self.fail(RefreshError::OutOfTurn),
        }
    }

    /// Takes in what the caller reports and says what to do next.
    pub fn step(&mut self, event: RefreshEvent) -> (action: RefreshAction)
        ensures
            (*final(self), action) == refresh_next(*old(self), event),
    {
        match event {
            RefreshEvent::Fetched(response) => {
                if self.phase == RefreshPhase::Fetching {
                    match take_first_series(response) {
                        Ok(series) => {
                            self.phase = RefreshPhase::ReadingStored;
                            self.fetched = Some(series);
                            RefreshAction::ReadStored
                        },
                        Err(error) => self.fail(error),
                    }
                } else {
                    self.fail(RefreshError::OutOfTurn)
                }
            },
            RefreshEvent::FetchFailed(error) => {
                if self.phase == RefreshPhase::Fetching {
                    self.fail(RefreshError::Upstream(error))
                } else {
                    self.fail(RefreshError::OutOfTurn)
                }
            },
            RefreshEvent::Stored(stored) => {
                if self.phase == RefreshPhase::ReadingStored {
                    let copy = match &self.fetched {
                        Some(series) => Some(series.duplicate()),
                        None => None,
                    };
                    match copy {
                        Some(series) => {
                            if needs_write(&stored, &series) {
                                self.phase = RefreshPhase::Writing;
                                RefreshAction::PutSeries(series)
                            } else {
                                self.answer(false)
                            }
                        },
                        None => self.fail(RefreshError::OutOfTurn),
                    }
                } else {
                    self.fail(RefreshError::OutOfTurn)
                }
            },
            RefreshEvent::ReadFailed => {
                if self.phase == RefreshPhase::ReadingStored {
                    self.fail(RefreshError::Storage)
                } else {
                    self.fail(RefreshError::OutOfTurn)
                }
            },
            RefreshEvent::Written => {
                if self.phase == RefreshPhase::Writing {
                    self.answer(false)
                } else {
                    self.fail(RefreshError::OutOfTurn)
                }
            },
            RefreshEvent::WriteFailed => {
                if self.phase == RefreshPhase::Writing {
                    self.answer(true)
                } else {
                    self.fail(RefreshError::OutOfTurn)
                }
            },
        }
    }
}

/// The cache is written only with fresher metadata: whenever a step asks for
/// a write, the step was told what the cache holds, the metadata to write is
/// what the provider returned, and the cache holds none or one that was last
/// updated strictly earlier.
pub proof fn lemma_write_only_fresher(r: Refresher, event: RefreshEvent)
    ensures
        match refresh_next(r, event).1 {
            RefreshAction::PutSeries(series) => {
                &&& r.fetched == Some(series)
                &&& match event {
                    RefreshEvent::Stored(None) => true,
                    RefreshEvent::Stored(Some(held)) => held.last_updated.earlier_than(series.last_updated),
                    _ => false,
                }
            },
            _ => true,
        },
{
}

/// Whatever the cache holds or does, an answer carries the metadata that the
/// provider returned.
pub proof fn lemma_answer_is_upstream(r: Refresher, event: RefreshEvent)
    ensures
        match refresh_next(r, event).1 {
            RefreshAction::Respond { series, write_failed } => r.fetched == Some(series),
            _ => true,
        },
{
}

/// What surrounds a refresh: what the provider returns, what the cache holds
/// for the series (nothing at all where it cannot be read), and whether the
/// cache can be written.
pub struct RefreshSurroundings {
    pub provider: Result<FredApiResponse<FredResponseSeries>, FredApiError>,
    pub stored: Result<Option<FredEconomicDataSeries>, ()>,
    pub writable: bool,
}

/// What is reported back for an action; nothing for one that answers the
/// request.
pub open spec fn refresh_report(around: RefreshSurroundings, action: RefreshAction) -> Option<RefreshEvent> {
    match action {
        RefreshAction::FetchSeries => Some(
            match around.provider {
                Ok(response) => RefreshEvent::Fetched(response),
                Err(error) => RefreshEvent::FetchFailed(error),
            },
        ),
        RefreshAction::ReadStored => Some(
            match around.stored {
                Ok(stored) => RefreshEvent::Stored(stored),
                Err(_) => RefreshEvent::ReadFailed,
            },
        ),
        RefreshAction::PutSeries(series) => Some(
            if around.writable {
                RefreshEvent::Written
            } else {
                RefreshEvent::WriteFailed
            },
        ),
        RefreshAction::Respond { series, write_failed } => None,
        RefreshAction::Fail(error) => None,
    }
}

/// The actions taken from a state on, each reported back as the
/// surroundings have it, up to the one that answers the request; `limit`
/// bounds how many are followed.
pub open spec fn refresh_course(
    r: Refresher,
    action: RefreshAction,
    around: RefreshSurroundings,
    limit: nat,
) -> Seq<RefreshAction>
    decreases limit,
{
    if limit == 0 {
        seq![action]
    } else {
        match refresh_report(around, action) {
            None => seq![action],
            Some(event) => {
                let (q, then) = refresh_next(r, event);
                seq![action] + refresh_course(q, then, around, (limit - 1) as nat)
            },
        }
    }
}

/// The actions that a refresh leads to in given surroundings.
pub open spec fn whole_refresh(around: RefreshSurroundings) -> Seq<RefreshAction> {
    refresh_course(
        Refresher { phase: RefreshPhase::Fetching, fetched: None },
        RefreshAction::FetchSeries,
        around,
        6,
    )
}

/// A refresh always fetches first. It fails where the provider fails, where
/// the provider returns no series, and where the cache cannot be read. Else
/// it answers with the fetched metadata, after writing it exactly where the
/// cache holds none or an older one; a write that fails is reported with the
/// answer and does not change it.
pub proof fn lemma_whole_refresh(around: RefreshSurroundings)
    ensures
        whole_refresh(around) == match around.provider {
            Err(error) => seq![RefreshAction::FetchSeries, RefreshAction::Fail(RefreshError::Upstream(error))],
            Ok(response) => match first_series(response) {
                Err(error) => seq![RefreshAction::FetchSeries, RefreshAction::Fail(error)],
                Ok(series) => match around.stored {
                    Err(_) => seq![
                        RefreshAction::FetchSeries,
                        RefreshAction::ReadStored,
                        RefreshAction::Fail(RefreshError::Storage),
                    ],
                    Ok(stored) => if outdated(stored, series) {
                        seq![
                            RefreshAction::FetchSeries,
                            RefreshAction::ReadStored,
                            RefreshAction::PutSeries(series),
                            RefreshAction::Respond { series, write_failed: !around.writable },
                        ]
                    } else {
                        seq![
                            RefreshAction::FetchSeries,
                            RefreshAction::ReadStored,
                            RefreshAction::Respond { series, write_failed: false },
                        ]
                    },
                },
            },
        },
{
    reveal_with_fuel(refresh_course, 7);
    let taken = whole_refresh(around);
    match around.provider {
        Err(error) => {
            assert(taken =~= seq![RefreshAction::FetchSeries, RefreshAction::Fail(RefreshError::Upstream(error))]);
        },
        Ok(response) => match first_series(response) {
            Err(error) => {
                assert(taken =~= seq![RefreshAction::FetchSeries, RefreshAction::Fail(error)]);
            },
            Ok(series) => match around.stored {
                Err(_) => {
                    assert(taken =~= seq![
                        RefreshAction::FetchSeries,
                        RefreshAction::ReadStored,
                        RefreshAction::Fail(RefreshError::Storage),
                    ]);
                },
                Ok(stored) => {
                    if outdated(stored, series) {
                        assert(taken =~= seq![
                            RefreshAction::FetchSeries,
                            RefreshAction::ReadStored,
                            RefreshAction::PutSeries(series),
                            RefreshAction::Respond { series, write_failed: !around.writable },
                        ]);
                    } else {
                        assert(taken =~= seq![
                            RefreshAction::FetchSeries,
                            RefreshAction::ReadStored,
                            RefreshAction::Respond { series, write_failed: false },
                        ]);
                    }
                },
            },
        },
    }
}

} // verus!
