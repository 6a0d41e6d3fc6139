//! Reconciling a requested date range with the cache: a state machine that is
//! told what the cache and the provider returned and says what to do next.
//!
//! A request with a realtime bound is fetched and answered without touching
//! the cache. Any other request reads the cache first. With nothing cached in
//! range, the whole range is fetched, stored and answered. Otherwise the gap
//! before the first cached row and the gap behind the last one are fetched,
//! each only where it exists; if either fetch brings rows, the whole range is
//! fetched again, stored and answered, and if none does, the cached rows are
//! the answer. Rows that a gap fetch brings are never stitched to cached
//! rows: they only show that the cache is behind.

use vstd::prelude::*;
use crate::date_formats::{day_of, Date};
use crate::entities::{duplicate_rows, GetObservationsParams, RealtimeObservation};
use crate::fred::{status_or_internal, FredApiError, INTERNAL_SERVER_ERROR};
use crate::local_cache::{ascending, distinct_dates, in_bounds, lemma_ordered_within_fixed};
use crate::local_cache::{lemma_ordered_within_strict, ordered_within};
use crate::local_cache::{strictly_ascending, within_date_bounds};

verus! {

/// Why a reconciliation failed.
#[derive(Debug)]
pub enum ReconcileError {
    /// The provider failed; its error is handed on unchanged.
    Upstream(FredApiError),
    /// The cache could not be read or written.
    Storage,
    /// The machine was told of something it had not asked for.
    OutOfTurn,
}

/// The date bounds of one upstream fetch.
#[derive(Clone, Copy, Debug)]
pub struct FetchWindow {
    pub observation_start: Option<Date>,
    pub observation_end: Option<Date>,
    pub realtime_start: Option<Date>,
    pub realtime_end: Option<Date>,
}

/// The date bounds of a fetch, as day numbers.
pub struct Window {
    pub observation_start: Option<int>,
    pub observation_end: Option<int>,
    pub realtime_start: Option<int>,
    pub realtime_end: Option<int>,
}

/// What the machine is waiting for.
#[derive(Clone, Copy, Debug, PartialEq, Eq, Structural)]
pub enum Phase {
    /// The rows cached for the series.
    ReadingCache,
    /// The fetch of a realtime request, which bypasses the cache.
    Bypassing,
    /// The fetch of the whole range, nothing being cached in it: a full
    /// miss.
    FetchingMiss,
    /// The fetch of the gap before the first cached row: a gap fill.
    FetchingLeftGap,
    /// The fetch of the gap behind the last cached row: a gap fill.
    FetchingRightGap,
    /// The fetch of the whole range, a gap having brought rows: an
    /// incomplete hit.
    Refetching,
    /// The write of the fetched rows to the cache.
    Storing,
    /// Nothing: the request is answered or has failed.
    Finished,
}

/// What the caller is to do next.
#[derive(Debug)]
pub enum Action {
    /// Read the rows cached for the series between the bounds, and report
    /// them.
    ReadCache { since: Option<Date>, until: Option<Date> },
    /// Fetch the observations of the series in the window from the provider,
    /// and report them.
    Fetch(FetchWindow),
    /// Upsert the rows into the cache, and report it.
    Store(Vec<RealtimeObservation>),
    /// Answer the request with the rows.
    Respond(Vec<RealtimeObservation>),
    /// Answer the request with the error.
    Fail(ReconcileError),
}

/// An action with its dates as day numbers and its rows as a sequence.
pub enum ActionView {
    ReadCache { since: Option<int>, until: Option<int> },
    Fetch(Window),
    Store(Seq<RealtimeObservation>),
    Respond(Seq<RealtimeObservation>),
    Fail(ReconcileError),
}

/// What the caller reports back.
#[derive(Debug)]
pub enum Event {
    /// The rows that the cache holds for the series.
    CacheRows(Vec<RealtimeObservation>),
    /// The cache could not be read.
    CacheFailed,
    /// The rows that the provider returned for the window.
    Fetched(Vec<RealtimeObservation>),
    /// The fetch failed.
    FetchFailed(FredApiError),
    /// The rows are in the cache.
    Stored,
    /// The cache could not be written.
    StoreFailed,
}

/// An event with its rows as a sequence.
pub enum EventView {
    CacheRows(Seq<RealtimeObservation>),
    CacheFailed,
    Fetched(Seq<RealtimeObservation>),
    FetchFailed(FredApiError),
    Stored,
    StoreFailed,
}

/// One reconciliation in progress.
#[derive(Debug)]
pub struct Reconciler {
    pub observation_start: Option<Date>,
    pub observation_end: Option<Date>,
    pub realtime_start: Option<Date>,
    pub realtime_end: Option<Date>,
    pub phase: Phase,
    /// The cached rows within the requested range, ascending.
    pub cached: Vec<RealtimeObservation>,
    /// Whether a gap fetch has brought rows.
    pub incomplete: bool,
    /// The fetched rows that are being stored.
    pub answer: Vec<RealtimeObservation>,
}

/// A reconciliation in progress, with its dates as day numbers and its rows
/// as sequences.
pub struct Progress {
    pub observation_start: Option<int>,
    pub observation_end: Option<int>,
    pub realtime_start: Option<int>,
    pub realtime_end: Option<int>,
    pub phase: Phase,
    pub cached: Seq<RealtimeObservation>,
    pub incomplete: bool,
    pub answer: Seq<RealtimeObservation>,
}

impl View for FetchWindow {
    type V = Window;

    open spec fn view(&self) -> Window {
        Window {
            observation_start: day_of(self.observation_start),
            observation_end: day_of(self.observation_end),
            realtime_start: day_of(self.realtime_start),
            realtime_end: day_of(self.realtime_end),
        }
    }
}

impl FetchWindow {
    /// Two windows with the same day numbers are the same window.
    pub proof fn lemma_view_determines(self, other: FetchWindow)
        requires
            self@ == other@,
        ensures
            self == other,
    {
        if self.observation_start is Some {
            self.observation_start.unwrap().lemma_day_determines(other.observation_start.unwrap());
        }
        if self.observation_end is Some {
            self.observation_end.unwrap().lemma_day_determines(other.observation_end.unwrap());
        }
        if self.realtime_start is Some {
            self.realtime_start.unwrap().lemma_day_determines(other.realtime_start.unwrap());
        }
        if self.realtime_end is Some {
            self.realtime_end.unwrap().lemma_day_determines(other.realtime_end.unwrap());
        }
    }
}

impl View for Action {
    type V = ActionView;

    open spec fn view(&self) -> ActionView {
        match *self {
            Action::ReadCache { since, until } => ActionView::ReadCache {
                since: day_of(since),
                until: day_of(until),
            },
            Action::Fetch(window) => ActionView::Fetch(window@),
            Action::Store(rows) => ActionView::Store(rows@),
            Action::Respond(rows) => ActionView::Respond(rows@),
            Action::Fail(error) => ActionView::Fail(error),
        }
    }
}

impl View for Event {
    type V = EventView;

    open spec fn view(&self) -> EventView {
        match *self {
            Event::CacheRows(rows) => EventView::CacheRows(rows@),
            Event::CacheFailed => EventView::CacheFailed,
            Event::Fetched(rows) => EventView::Fetched(rows@),
            Event::FetchFailed(error) => EventView::FetchFailed(error),
            Event::Stored => EventView::Stored,
            Event::StoreFailed => EventView::StoreFailed,
        }
    }
}

impl View for Reconciler {
    type V = Progress;

    open spec fn view(&self) -> Progress {
        Progress {
            observation_start: day_of(self.observation_start),
            observation_end: day_of(self.observation_end),
            realtime_start: day_of(self.realtime_start),
            realtime_end: day_of(self.realtime_end),
            phase: self.phase,
            cached: self.cached@,
            incomplete: self.incomplete,
            answer: self.answer@,
        }
    }
}

/// The window of the whole requested range, without realtime bounds.
pub open spec fn whole_range(p: Progress) -> Window {
    Window {
        observation_start: p.observation_start,
        observation_end: p.observation_end,
        realtime_start: None,
        realtime_end: None,
    }
}

/// The gap before the first cached row: from the requested start to the day
/// before that row. There is none where the start is open or the row is not
/// dated later than it.
pub open spec fn left_gap(cached: Seq<RealtimeObservation>, start: Option<int>) -> Option<Window> {
    if cached.len() > 0 && start is Some && cached.first().date.day() > start.unwrap() {
        Some(
            Window {
                observation_start: start,
                observation_end: Some(cached.first().date.day() - 1),
                realtime_start: None,
                realtime_end: None,
            },
        )
    } else {
        None
    }
}

/// The gap behind the last cached row: from the day after that row to the
/// requested end. There is none where the end is open or the row is not dated
/// earlier than it.
pub open spec fn right_gap(cached: Seq<RealtimeObservation>, end: Option<int>) -> Option<Window> {
    if cached.len() > 0 && end is Some && cached.last().date.day() < end.unwrap() {
        Some(
            Window {
                observation_start: Some(cached.last().date.day() + 1),
                observation_end: end,
                realtime_start: None,
                realtime_end: None,
            },
        )
    } else {
        None
    }
}

/// How a request starts: a realtime request with the fetch of exactly what
/// was asked for, any other with a read of the cache.
pub open spec fn opening(
    observation_start: Option<int>,
    observation_end: Option<int>,
    realtime_start: Option<int>,
    realtime_end: Option<int>,
) -> (Progress, ActionView) {
    let realtime = realtime_start is Some || realtime_end is Some;
    let p = Progress {
        observation_start,
        observation_end,
        realtime_start,
        realtime_end,
        phase: if realtime {
            Phase::Bypassing
        } else {
            Phase::ReadingCache
        },
        cached: Seq::empty(),
        incomplete: false,
        answer: Seq::empty(),
    };
    if realtime {
        (p, ActionView::Fetch(Window { observation_start, observation_end, realtime_start, realtime_end }))
    } else {
        (p, ActionView::ReadCache { since: observation_start, until: observation_end })
    }
}

/// The end of a request that failed.
pub open spec fn failed(p: Progress, error: ReconcileError) -> (Progress, ActionView) {
    (Progress { phase: Phase::Finished, ..p }, ActionView::Fail(error))
}

/// After the gaps: the whole range is fetched again if a gap brought rows,
/// else the cached rows are the answer: an exact hit.
pub open spec fn settled(p: Progress) -> (Progress, ActionView) {
    if p.incomplete {
        (Progress { phase: Phase::Refetching, ..p }, ActionView::Fetch(whole_range(p)))
    } else {
        (Progress { phase: Phase::Finished, ..p }, ActionView::Respond(p.cached))
    }
}

/// After the left gap: the right gap is fetched where there is one.
pub open spec fn past_left(p: Progress) -> (Progress, ActionView) {
    match right_gap(p.cached, p.observation_end) {
        Some(window) => (Progress { phase: Phase::FetchingRightGap, ..p }, ActionView::Fetch(window)),
        None => settled(p),
    }
}

/// After the cache was read: with no cached row in range the whole range is
/// fetched; else the left gap is fetched where there is one.
pub open spec fn classified(p: Progress, rows: Seq<RealtimeObservation>) -> (Progress, ActionView) {
    let cached = ordered_within(rows, p.observation_start, p.observation_end);
    let q = Progress { cached, incomplete: false, ..p };
    if cached.len() == 0 {
        (Progress { phase: Phase::FetchingMiss, ..q }, ActionView::Fetch(whole_range(p)))
    } else {
        match left_gap(cached, p.observation_start) {
            Some(window) => (Progress { phase: Phase::FetchingLeftGap, ..q }, ActionView::Fetch(window)),
            None => past_left(q),
        }
    }
}

/// Whether the machine is waiting for the provider.
pub open spec fn fetching(phase: Phase) -> bool {
    phase == Phase::Bypassing || phase == Phase::FetchingMiss || phase == Phase::FetchingLeftGap
        || phase == Phase::FetchingRightGap || phase == Phase::Refetching
}

/// After the provider returned rows.
pub open spec fn fetched(p: Progress, rows: Seq<RealtimeObservation>) -> (Progress, ActionView) {
    match p.phase {
        Phase::Bypassing => (Progress { phase: Phase::Finished, ..p }, ActionView::Respond(rows)),
        Phase::FetchingMiss | Phase::Refetching => (
            Progress { phase: Phase::Storing, answer: rows, ..p },
            ActionView::Store(rows),
        ),
        Phase::FetchingLeftGap => past_left(Progress { incomplete: rows.len() > 0, ..p }),
        Phase::FetchingRightGap => settled(Progress { incomplete: p.incomplete || rows.len() > 0, ..p }),
        _ => failed(p, ReconcileError::OutOfTurn),
    }
}

/// The next state and action for each state and event. An event that the
/// state does not wait for ends the request with `OutOfTurn`.
pub open spec fn next(p: Progress, event: EventView) -> (Progress, ActionView) {
    match event {
        EventView::CacheRows(rows) => if p.phase == Phase::ReadingCache {
            classified(p, rows)
        } else {
            failed(p, ReconcileError::OutOfTurn)
        },
        EventView::CacheFailed => if p.phase == Phase::ReadingCache {
            failed(p, ReconcileError::Storage)
        } else {
            failed(p, ReconcileError::OutOfTurn)
        },
        EventView::Fetched(rows) => fetched(p, rows),
        EventView::FetchFailed(error) => if fetching(p.phase) {
            failed(p, ReconcileError::Upstream(error))
        } else {
            failed(p, ReconcileError::OutOfTurn)
        },
        EventView::Stored => if p.phase == Phase::Storing {
            (Progress { phase: Phase::Finished, ..p }, ActionView::Respond(p.answer))
        } else {
            failed(p, ReconcileError::OutOfTurn)
        },
        EventView::StoreFailed => if p.phase == Phase::Storing {
            failed(p, ReconcileError::Storage)
        } else {
            failed(p, ReconcileError::OutOfTurn)
        },
    }
}

impl ReconcileError {
    /// The status to answer with: the provider's where it failed, 500
    /// otherwise.
    pub fn status(&self) -> (status: u16)
        ensures
            status == match *self {
                ReconcileError::Upstream(error) => status_or_internal(error.status_code),
                ReconcileError::Storage => INTERNAL_SERVER_ERROR,
                ReconcileError::OutOfTurn => INTERNAL_SERVER_ERROR,
            },
    {
        match self {
            ReconcileError::Upstream(error) => error.status(),
            ReconcileError::Storage => INTERNAL_SERVER_ERROR,
            ReconcileError::OutOfTurn => INTERNAL_SERVER_ERROR,
        }
    }
}

impl Reconciler {
    /// Starts the reconciliation of a request and says what to do first.
    pub fn begin(params: &GetObservationsParams) -> (started: (Reconciler, Action))
        ensures
            (started.0@, started.1@) == opening(
                day_of(params.observation_start),
                day_of(params.observation_end),
                day_of(params.realtime_start),
                day_of(params.realtime_end),
            ),
    {
        let realtime = params.is_realtime();
        let machine = Reconciler {
            observation_start: params.observation_start,
            observation_end: params.observation_end,
            realtime_start: params.realtime_start,
            realtime_end: params.realtime_end,
            phase: if realtime {
                Phase::Bypassing
            } else {
                Phase::ReadingCache
            },
            cached: Vec::new(),
            incomplete: false,
            answer: Vec::new(),
        };
        let action = if realtime {
            Action::Fetch(
                FetchWindow {
                    observation_start: params.observation_start,
                    observation_end: params.observation_end,
                    realtime_start: params.realtime_start,
                    realtime_end: params.realtime_end,
                },
            )
        } else {
            Action::ReadCache { since: params.observation_start, until: params.observation_end }
        };
        (machine, action)
    }

    /// Whether the request is answered or has failed.
    pub fn is_finished(&self) -> (result: bool)
        ensures
            result == (self@.phase == Phase::Finished),
    {
        self.phase == Phase::Finished
    }

    fn whole(&self) -> (window: FetchWindow)
        ensures
            window@ == whole_range(self@),
    {
        FetchWindow {
            observation_start: self.observation_start,
            observation_end: self.observation_end,
            realtime_start: None,
            realtime_end: None,
        }
    }

    fn fail(&mut self, error: ReconcileError) -> (action: Action)
        ensures
            (final(self)@, action@) == failed(old(self)@, error),
    {
        self.phase = Phase::Finished;
        Action::Fail(error)
    }

    fn settle(&mut self) -> (action: Action)
        ensures
            (final(self)@, action@) == settled(old(self)@),
    {
        if self.incomplete {
            self.phase = Phase::Refetching;
            Action::Fetch(self.whole())
        } else {
            self.phase = Phase::Finished;
            Action::Respond(duplicate_rows(&self.cached))
        }
    }

    fn pass_left(&mut self) -> (action: Action)
        ensures
            (final(self)@, action@) == past_left(old(self)@),
    {
        let n = self.cached.len();
        if n > 0 {
            if let Some(end) = self.observation_end {
                let last = self.cached[n - 1].date;
                if last.days() < end.days() {
                    self.phase = Phase::FetchingRightGap;
                    return Action::Fetch(
                        FetchWindow {
                            observation_start: Some(last.day_after(&end)),
                            observation_end: Some(end),
                            realtime_start: None,
                            realtime_end: None,
                        },
                    );
                }
            }
        }
        self.settle()
    }

    fn classify(&mut self, rows: Vec<RealtimeObservation>) -> (action: Action)
        ensures
            (final(self)@, action@) == classified(old(self)@, rows@),
    {
        self.cached = within_date_bounds(&rows, self.observation_start, self.observation_end);
        self.incomplete = false;
        if self.cached.len() == 0 {
            self.phase = Phase::FetchingMiss;
            return Action::Fetch(self.whole());
        }
        if let Some(start) = self.observation_start {
            let first = self.cached[0].date;
            if first.days() > start.days() {
                self.phase = Phase::FetchingLeftGap;
                return Action::Fetch(
                    FetchWindow {
                        observation_start: Some(start),
                        observation_end: Some(first.day_before(&start)),
                        realtime_start: None,
                        realtime_end: None,
                    },
                );
            }
        }
        self.pass_left()
    }

    fn take_in(&mut self, rows: Vec<RealtimeObservation>) -> (action: Action)
        ensures
            (final(self)@, action@) == fetched(old(self)@, rows@),
    {
        match self.phase {
            Phase::Bypassing => {
                self.phase = Phase::Finished;
                Action::Respond(rows)
            },
            Phase::FetchingMiss | Phase::Refetching => {
                self.phase = Phase::Storing;
                self.answer = duplicate_rows(&rows);
                Action::Store(rows)
            },
            Phase::FetchingLeftGap => {
                self.incomplete = rows.len() > 0;
                self.pass_left()
            },
            Phase::FetchingRightGap => {
                self.incomplete = self.incomplete || rows.len() > 0;
                self.settle()
            },
            _ => self.fail(ReconcileError::OutOfTurn),
        }
    }

    /// Takes in what the caller reports and says what to do next.
    pub fn step(&mut self, event: Event) -> (action: Action)
        ensures
            (final(self)@, action@) == next(old(self)@, event@),
    {
        match event {
            Event::CacheRows(rows) => {
                if self.phase == Phase::ReadingCache {
                    self.classify(rows)
                } else {
                    self.fail(ReconcileError::OutOfTurn)
                }
            },
            Event::CacheFailed => {
                if self.phase == Phase::ReadingCache {
                    self.fail(ReconcileError::Storage)
                } else {
                    self.fail(ReconcileError::OutOfTurn)
                }
            },
            Event::Fetched(rows) => self.take_in(rows),
            Event::FetchFailed(error) => {
                let waiting = self.phase == Phase::Bypassing || self.phase == Phase::FetchingMiss
                    || self.phase == Phase::FetchingLeftGap || self.phase == Phase::FetchingRightGap
                    || self.phase == Phase::Refetching;
                if waiting {
                    self.fail(ReconcileError::Upstream(error))
                } else {
                    self.fail(ReconcileError::OutOfTurn)
                }
            },
            Event::Stored => {
                if self.phase == Phase::Storing {
                    self.phase = Phase::Finished;
                    Action::Respond(duplicate_rows(&self.answer))
                } else {
                    self.fail(ReconcileError::OutOfTurn)
                }
            },
            Event::StoreFailed => {
                if self.phase == Phase::Storing {
                    self.fail(ReconcileError::Storage)
                } else {
                    self.fail(ReconcileError::OutOfTurn)
                }
            },
        }
    }
}

/// What surrounds a reconciliation: the rows that the cache holds for the
/// series (none where it cannot be read), what the provider returns for each
/// window, and whether the cache can be written.
pub struct Surroundings {
    pub cache: Option<Seq<RealtimeObservation>>,
    pub provider: spec_fn(Window) -> Result<Seq<RealtimeObservation>, FredApiError>,
    pub writable: bool,
}

/// What is reported back for an action; nothing for one that answers the
/// request.
pub open spec fn report(around: Surroundings, action: ActionView) -> Option<EventView> {
    match action {
        ActionView::ReadCache { since, until } => Some(
            match around.cache {
                Some(rows) => EventView::CacheRows(rows),
                None => EventView::CacheFailed,
            },
        ),
        ActionView::Fetch(window) => Some(
            match (around.provider)(window) {
                Ok(rows) => EventView::Fetched(rows),
                Err(error) => EventView::FetchFailed(error),
            },
        ),
        ActionView::Store(rows) => Some(
            if around.writable {
                EventView::Stored
            } else {
                EventView::StoreFailed
            },
        ),
        ActionView::Respond(rows) => None,
        ActionView::Fail(error) => None,
    }
}

/// The actions taken from a state on, each reported back as the
/// surroundings have it, up to the one that answers the request; `limit`
/// bounds how many are followed.
pub open spec fn course(p: Progress, action: ActionView, around: Surroundings, limit: nat) -> Seq<
    ActionView,
>
    decreases limit,
{
    if limit == 0 {
        seq![action]
    } else {
        match report(around, action) {
            None => seq![action],
            Some(event) => {
                let (q, then) = next(p, event);
                seq![action] + course(q, then, around, (limit - 1) as nat)
            },
        }
    }
}

/// The actions that a request leads to in given surroundings.
pub open spec fn request_course(
    observation_start: Option<int>,
    observation_end: Option<int>,
    realtime_start: Option<int>,
    realtime_end: Option<int>,
    around: Surroundings,
) -> Seq<ActionView> {
    let (p, first) = opening(observation_start, observation_end, realtime_start, realtime_end);
    course(p, first, around, 8)
}

/// Whether an action answers the request.
pub open spec fn answers(action: ActionView) -> bool {
    action is Respond || action is Fail
}

/// Every request is answered after at most six actions: a read of the cache,
/// at most three fetches and a write come before the answer, and nothing
/// comes after it.
pub proof fn lemma_request_is_answered(
    observation_start: Option<int>,
    observation_end: Option<int>,
    realtime_start: Option<int>,
    realtime_end: Option<int>,
    around: Surroundings,
)
    ensures
        ({
            let taken = request_course(observation_start, observation_end, realtime_start, realtime_end, around);
            &&& 2 <= taken.len() <= 6
            &&& answers(taken.last())
            &&& forall|i: int| 0 <= i < taken.len() - 1 ==> !answers(#[trigger] taken[i])
        }),
{
    reveal_with_fuel(course, 9);
}

/// A request whose range the cache covers leads to no fetch and no write:
/// where the cache holds rows in range, the first of them is not dated later
/// than a requested start and the last not earlier than a requested end, the
/// cache is read and its rows in range, ascending, are the answer.
pub proof fn lemma_exact_hit_fetches_nothing(
    observation_start: Option<int>,
    observation_end: Option<int>,
    around: Surroundings,
)
    requires
        around.cache is Some,
        ordered_within(around.cache.unwrap(), observation_start, observation_end).len() > 0,
        left_gap(
            ordered_within(around.cache.unwrap(), observation_start, observation_end),
            observation_start,
        ) is None,
        right_gap(
            ordered_within(around.cache.unwrap(), observation_start, observation_end),
            observation_end,
        ) is None,
    ensures
        request_course(observation_start, observation_end, None, None, around) == seq![
            ActionView::ReadCache { since: observation_start, until: observation_end },
            ActionView::Respond(
                ordered_within(around.cache.unwrap(), observation_start, observation_end),
            ),
        ],
{
    reveal_with_fuel(course, 9);
    let taken = request_course(observation_start, observation_end, None, None, around);
    assert(taken =~= seq![
        ActionView::ReadCache { since: observation_start, until: observation_end },
        ActionView::Respond(ordered_within(around.cache.unwrap(), observation_start, observation_end)),
    ]);
}

/// Rows that the cache hands over as it holds them for the range, ascending
/// and within it, are taken as they are: the gaps are found from their first
/// and last row, and in an exact hit they are the answer.
pub proof fn lemma_cache_rows_taken_as_read(p: Progress, rows: Seq<RealtimeObservation>)
    requires
        ascending(rows),
        forall|k: int| 0 <= k < rows.len() ==> in_bounds(rows[k], p.observation_start, p.observation_end),
    ensures
        classified(p, rows).0.cached == rows,
        rows.len() > 0 && left_gap(rows, p.observation_start) is None && right_gap(rows, p.observation_end)
            is None ==> classified(p, rows).1 == ActionView::Respond(rows),
{
    lemma_ordered_within_fixed(rows, p.observation_start, p.observation_end);
}

/// A request with nothing cached in its range leads to exactly one fetch,
/// that of the whole requested range: it is the second action, no other
/// action is a fetch, and what it brings is stored and then answered.
pub proof fn lemma_full_miss_fetches_once(
    observation_start: Option<int>,
    observation_end: Option<int>,
    around: Surroundings,
)
    requires
        around.cache is Some,
        ordered_within(around.cache.unwrap(), observation_start, observation_end).len() == 0,
    ensures
        ({
            let taken = request_course(observation_start, observation_end, None, None, around);
            let window = Window { observation_start, observation_end, realtime_start: None, realtime_end: None };
            &&& taken[0] == ActionView::ReadCache { since: observation_start, until: observation_end }
            &&& taken[1] == ActionView::Fetch(window)
            &&& forall|i: int| 0 <= i < taken.len() && i != 1 ==> !(#[trigger] taken[i] is Fetch)
            &&& match (around.provider)(window) {
                Ok(rows) => if around.writable {
                    taken == seq![taken[0], taken[1], ActionView::Store(rows), ActionView::Respond(rows)]
                } else {
                    taken == seq![
                        taken[0],
                        taken[1],
                        ActionView::Store(rows),
                        ActionView::Fail(ReconcileError::Storage),
                    ]
                },
                Err(error) => taken == seq![
                    taken[0],
                    taken[1],
                    ActionView::Fail(ReconcileError::Upstream(error)),
                ],
            }
        }),
{
    reveal_with_fuel(course, 9);
    let taken = request_course(observation_start, observation_end, None, None, around);
    let window = Window { observation_start, observation_end, realtime_start: None, realtime_end: None };
    match (around.provider)(window) {
        Ok(rows) => {
            if around.writable {
                assert(taken =~= seq![taken[0], taken[1], ActionView::Store(rows), ActionView::Respond(rows)]);
            } else {
                assert(taken =~= seq![
                    taken[0],
                    taken[1],
                    ActionView::Store(rows),
                    ActionView::Fail(ReconcileError::Storage),
                ]);
            }
        },
        Err(error) => {
            assert(taken =~= seq![taken[0], taken[1], ActionView::Fail(ReconcileError::Upstream(error))]);
        },
    }
}

/// The fetch of a gap, where there is one.
pub open spec fn gap_fetch(gap: Option<Window>) -> Seq<ActionView> {
    match gap {
        Some(window) => seq![ActionView::Fetch(window)],
        None => Seq::empty(),
    }
}

/// Whether the fetch of a gap, where there is one, brings rows.
pub open spec fn gap_brings_rows(around: Surroundings, gap: Option<Window>) -> bool {
    match gap {
        Some(window) => (around.provider)(window) is Ok && (around.provider)(window).unwrap().len() > 0,
        None => false,
    }
}

/// A request that finds cached rows in its range, where nothing fails: the
/// cache is read; the gap before the first cached row and the gap behind the
/// last are fetched, each where it exists; if either brings rows, the whole
/// range is fetched once more, stored and answered as fetched; if neither
/// does, the cached rows in range are the answer and nothing is stored.
pub proof fn lemma_partial_hit_fills_gaps(
    observation_start: Option<int>,
    observation_end: Option<int>,
    around: Surroundings,
)
    requires
        around.cache is Some,
        ordered_within(around.cache.unwrap(), observation_start, observation_end).len() > 0,
        around.writable,
        forall|window: Window| #[trigger] (around.provider)(window) is Ok,
    ensures
        ({
            let cached = ordered_within(around.cache.unwrap(), observation_start, observation_end);
            let left = left_gap(cached, observation_start);
            let right = right_gap(cached, observation_end);
            let whole = Window { observation_start, observation_end, realtime_start: None, realtime_end: None };
            let fresh = (around.provider)(whole).unwrap();
            request_course(observation_start, observation_end, None, None, around) == seq![
                ActionView::ReadCache { since: observation_start, until: observation_end },
            ] + gap_fetch(left) + gap_fetch(right) + (if gap_brings_rows(around, left) || gap_brings_rows(
                around,
                right,
            ) {
                seq![ActionView::Fetch(whole), ActionView::Store(fresh), ActionView::Respond(fresh)]
            } else {
                seq![ActionView::Respond(cached)]
            })
        }),
{
    reveal_with_fuel(course, 9);
    let cached = ordered_within(around.cache.unwrap(), observation_start, observation_end);
    let left = left_gap(cached, observation_start);
    let right = right_gap(cached, observation_end);
    let whole = Window { observation_start, observation_end, realtime_start: None, realtime_end: None };
    let fresh = (around.provider)(whole).unwrap();
    let taken = request_course(observation_start, observation_end, None, None, around);
    let stated = seq![ActionView::ReadCache { since: observation_start, until: observation_end }] + gap_fetch(
        left,
    ) + gap_fetch(right) + (if gap_brings_rows(around, left) || gap_brings_rows(around, right) {
        seq![ActionView::Fetch(whole), ActionView::Store(fresh), ActionView::Respond(fresh)]
    } else {
        seq![ActionView::Respond(cached)]
    });
    if left is Some {
        assert((around.provider)(left.unwrap()) is Ok);
    }
    if right is Some {
        assert((around.provider)(right.unwrap()) is Ok);
    }
    assert((around.provider)(whole) is Ok);
    assert(taken =~= stated);
}

/// A request with a realtime bound never reads or writes the cache: it
/// leads to the fetch of exactly what was asked for, and then to the answer,
/// which is what the provider returned.
pub proof fn lemma_realtime_bypasses_cache(
    observation_start: Option<int>,
    observation_end: Option<int>,
    realtime_start: Option<int>,
    realtime_end: Option<int>,
    around: Surroundings,
)
    requires
        realtime_start is Some || realtime_end is Some,
    ensures
        ({
            let window = Window { observation_start, observation_end, realtime_start, realtime_end };
            request_course(observation_start, observation_end, realtime_start, realtime_end, around) == seq![
                ActionView::Fetch(window),
                match (around.provider)(window) {
                    Ok(rows) => ActionView::Respond(rows),
                    Err(error) => ActionView::Fail(ReconcileError::Upstream(error)),
                },
            ]
        }),
{
    reveal_with_fuel(course, 9);
    let window = Window { observation_start, observation_end, realtime_start, realtime_end };
    assert(request_course(observation_start, observation_end, realtime_start, realtime_end, around) =~= seq![
        ActionView::Fetch(window),
        match (around.provider)(window) {
            Ok(rows) => ActionView::Respond(rows),
            Err(error) => ActionView::Fail(ReconcileError::Upstream(error)),
        },
    ]);
}

/// Where no two cached rows of the series share a date and the provider
/// returns rows in strictly ascending order of date, the rows of every answer
/// are in strictly ascending order of date.
pub proof fn lemma_answer_is_sorted(
    observation_start: Option<int>,
    observation_end: Option<int>,
    realtime_start: Option<int>,
    realtime_end: Option<int>,
    around: Surroundings,
)
    requires
        around.cache is Some ==> distinct_dates(around.cache.unwrap()),
        forall|window: Window| #[trigger]
            (around.provider)(window) is Ok ==> strictly_ascending((around.provider)(window).unwrap()),
    ensures
        ({
            let taken = request_course(observation_start, observation_end, realtime_start, realtime_end, around);
            forall|i: int|
                0 <= i < taken.len() ==> match #[trigger] taken[i] {
                    ActionView::Respond(rows) => strictly_ascending(rows),
                    _ => true,
                }
        }),
{
    reveal_with_fuel(course, 9);
    if around.cache is Some {
        lemma_ordered_within_strict(around.cache.unwrap(), observation_start, observation_end);
    }
}

} // verus!
