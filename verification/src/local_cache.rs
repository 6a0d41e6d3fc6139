//! The observation cache: rows keyed by series and date, read back by date
//! range in ascending order.

use vstd::prelude::*;
use crate::date_formats::{day_of, Date};
use vstd::string::StringExecFns;
use crate::entities::{FredEconomicDataSeries, RealtimeObservation};

verus! {

/// Whether a row's date lies within the closed range; an absent bound is
/// open.
pub open spec fn in_bounds(row: RealtimeObservation, since: Option<int>, until: Option<int>) -> bool {
    &&& since is Some ==> since.unwrap() <= row.date.day()
    &&& until is Some ==> row.date.day() <= until.unwrap()
}

/// No row is dated later than one that follows it.
pub open spec fn ascending(rows: Seq<RealtimeObservation>) -> bool {
    forall|i: int, j: int| 0 <= i < j < rows.len() ==> rows[i].date.day() <= rows[j].date.day()
}

/// Every row is dated earlier than each one that follows it.
pub open spec fn strictly_ascending(rows: Seq<RealtimeObservation>) -> bool {
    forall|i: int, j: int| 0 <= i < j < rows.len() ==> rows[i].date.day() < rows[j].date.day()
}

/// No two rows share a date.
pub open spec fn distinct_dates(rows: Seq<RealtimeObservation>) -> bool {
    forall|i: int, j: int| 0 <= i < j < rows.len() ==> rows[i].date.day() != rows[j].date.day()
}

/// Where a row dated `day` goes in ascending rows: behind the last row that
/// is not dated later.
pub open spec fn slot(rows: Seq<RealtimeObservation>, day: int) -> int
    decreases rows.len(),
{
    if rows.len() == 0 || rows.last().date.day() <= day {
        rows.len() as int
    } else {
        slot(rows.drop_last(), day)
    }
}

/// The rows with one more row put in its slot.
pub open spec fn placed(rows: Seq<RealtimeObservation>, row: RealtimeObservation) -> Seq<RealtimeObservation> {
    rows.insert(slot(rows, row.date.day()), row)
}

/// The rows dated within the range, in ascending order of date; rows that
/// share a date keep the order they came in.
pub open spec fn ordered_within(
    rows: Seq<RealtimeObservation>,
    since: Option<int>,
    until: Option<int>,
) -> Seq<RealtimeObservation>
    decreases rows.len(),
{
    if rows.len() == 0 {
        Seq::empty()
    } else {
        let earlier = ordered_within(rows.drop_last(), since, until);
        if in_bounds(rows.last(), since, until) {
            placed(earlier, rows.last())
        } else {
            earlier
        }
    }
}

/// The slot lies behind every row that is not dated later and before every
/// row that is.
pub proof fn lemma_slot(rows: Seq<RealtimeObservation>, day: int)
    ensures
        0 <= slot(rows, day) <= rows.len(),
        forall|k: int| slot(rows, day) <= k < rows.len() ==> rows[k].date.day() > day,
        slot(rows, day) > 0 ==> rows[slot(rows, day) - 1].date.day() <= day,
    decreases rows.len(),
{
    if rows.len() == 0 || rows.last().date.day() <= day {
    } else {
        let front = rows.drop_last();
        lemma_slot(front, day);
        assert forall|k: int| slot(rows, day) <= k < rows.len() implies rows[k].date.day() > day by {
            if k < front.len() {
                assert(front[k] == rows[k]);
            }
        }
    }
}

/// Placing a row keeps ascending rows ascending.
pub proof fn lemma_placed_ascending(rows: Seq<RealtimeObservation>, row: RealtimeObservation)
    requires
        ascending(rows),
    ensures
        ascending(placed(rows, row)),
{
    lemma_slot(rows, row.date.day());
    let at = slot(rows, row.date.day());
    let out = placed(rows, row);
    assert forall|i: int, j: int| 0 <= i < j < out.len() implies out[i].date.day() <= out[j].date.day() by {
        if i < at && j > at {
            assert(rows[i].date.day() <= rows[at - 1].date.day() || i == at - 1);
        } else if i < at && j == at {
            assert(rows[i].date.day() <= rows[at - 1].date.day() || i == at - 1);
        }
    }
}

/// Placing a row whose date no other row has keeps strictly ascending rows
/// strictly ascending.
pub proof fn lemma_placed_strictly_ascending(rows: Seq<RealtimeObservation>, row: RealtimeObservation)
    requires
        strictly_ascending(rows),
        forall|k: int| 0 <= k < rows.len() ==> rows[k].date.day() != row.date.day(),
    ensures
        strictly_ascending(placed(rows, row)),
{
    lemma_slot(rows, row.date.day());
    let at = slot(rows, row.date.day());
    let out = placed(rows, row);
    assert forall|i: int, j: int| 0 <= i < j < out.len() implies out[i].date.day() < out[j].date.day() by {
        if i < at && j >= at {
            assert(rows[i].date.day() <= rows[at - 1].date.day());
        }
    }
}

/// Rows that are already ascending and within the range come back
/// unchanged.
pub proof fn lemma_ordered_within_fixed(rows: Seq<RealtimeObservation>, since: Option<int>, until: Option<int>)
    requires
        ascending(rows),
        forall|k: int| 0 <= k < rows.len() ==> in_bounds(rows[k], since, until),
    ensures
        ordered_within(rows, since, until) == rows,
    decreases rows.len(),
{
    if rows.len() > 0 {
        let front = rows.drop_last();
        lemma_ordered_within_fixed(front, since, until);
        lemma_slot(front, rows.last().date.day());
        let at = slot(front, rows.last().date.day());
        if at < front.len() {
            assert(front[at].date.day() > rows.last().date.day());
            assert(rows[at].date.day() <= rows[rows.len() - 1].date.day());
        }
        assert(front.insert(at, rows.last()) =~= rows);
    }
}

/// What `ordered_within` gives is ascending, lies within the range, and holds
/// the rows of the input that lie within the range, each as often as the
/// input does.
pub proof fn lemma_ordered_within(rows: Seq<RealtimeObservation>, since: Option<int>, until: Option<int>)
    ensures
        ascending(ordered_within(rows, since, until)),
        forall|k: int| 0 <= k < ordered_within(rows, since, until).len() ==> in_bounds(
            #[trigger] ordered_within(rows, since, until)[k],
            since,
            until,
        ),
        ordered_within(rows, since, until).to_multiset() == rows.filter(
            |row: RealtimeObservation| in_bounds(row, since, until),
        ).to_multiset(),
    decreases rows.len(),
{
    broadcast use vstd::seq_lib::to_multiset_insert, vstd::seq_lib::to_multiset_build;
    let pred = |row: RealtimeObservation| in_bounds(row, since, until);
    if rows.len() == 0 {
        reveal(Seq::filter);
        assert(rows.filter(pred) =~= Seq::empty());
    } else {
        let front = rows.drop_last();
        let earlier = ordered_within(front, since, until);
        lemma_ordered_within(front, since, until);
        assert(front.push(rows.last()) =~= rows);
        front.lemma_filter_push(rows.last(), pred);
        if in_bounds(rows.last(), since, until) {
            lemma_placed_ascending(earlier, rows.last());
            lemma_slot(earlier, rows.last().date.day());
            assert(placed(earlier, rows.last()).to_multiset() =~= earlier.to_multiset().insert(rows.last()));
            assert(front.filter(pred).push(rows.last()).to_multiset() =~= front.filter(pred).to_multiset().insert(rows.last()));
        }
    }
}

/// Where no two rows of the input share a date, what `ordered_within` gives
/// is strictly ascending, and each of its rows is a row of the input.
pub proof fn lemma_ordered_within_strict(rows: Seq<RealtimeObservation>, since: Option<int>, until: Option<int>)
    requires
        distinct_dates(rows),
    ensures
        strictly_ascending(ordered_within(rows, since, until)),
        forall|k: int| 0 <= k < ordered_within(rows, since, until).len() ==> rows.contains(
            #[trigger] ordered_within(rows, since, until)[k],
        ),
    decreases rows.len(),
{
    if rows.len() > 0 {
        let front = rows.drop_last();
        let earlier = ordered_within(front, since, until);
        assert(distinct_dates(front));
        lemma_ordered_within_strict(front, since, until);
        assert forall|k: int| 0 <= k < earlier.len() implies rows.contains(#[trigger] earlier[k])
            && earlier[k].date.day() != rows.last().date.day() by {
            let at = choose|at: int| 0 <= at < front.len() && front[at] == earlier[k];
            assert(rows[at] == earlier[k]);
        }
        if in_bounds(rows.last(), since, until) {
            lemma_placed_strictly_ascending(earlier, rows.last());
            lemma_slot(earlier, rows.last().date.day());
            let out = placed(earlier, rows.last());
            let at = slot(earlier, rows.last().date.day());
            assert forall|k: int| 0 <= k < out.len() implies rows.contains(#[trigger] out[k]) by {
                if k < at {
                    assert(out[k] == earlier[k]);
                } else if k == at {
                    assert(rows[rows.len() - 1] == out[k]);
                } else {
                    assert(out[k] == earlier[k - 1]);
                }
            }
        }
    }
}

/// Puts a row into ascending rows, behind the last row that is not dated
/// later.
pub fn place(rows: &mut Vec<RealtimeObservation>, row: RealtimeObservation)
    ensures
        final(rows)@ == placed(old(rows)@, row),
{
    let day: i32 = row.date.days();
    let mut at: usize = rows.len();
    while at > 0 && rows[at - 1].date.days() > day
        invariant
            at <= rows.len(),
            day == row.date.day(),
            forall|k: int| at <= k < rows.len() ==> rows@[k].date.day() > day,
        decreases at,
    {
        at = at - 1;
    }
    proof {
        lemma_slot(rows@, day as int);
        let found = slot(rows@, day as int);
        if at < found {
            assert(rows@[found - 1].date.day() > day);
        }
        if at > found {
            assert(rows@[at - 1].date.day() > day);
        }
    }
    rows.insert(at, row);
}

/// The rows dated within `[since, until]`, sorted ascending by date. An
/// absent bound is open.
pub fn within_date_bounds(
    rows: &Vec<RealtimeObservation>,
    since: Option<Date>,
    until: Option<Date>,
) -> (result: Vec<RealtimeObservation>)
    ensures
        result@ == ordered_within(rows@, day_of(since), day_of(until)),
        ascending(result@),
        forall|k: int| 0 <= k < result@.len() ==> in_bounds(#[trigger] result@[k], day_of(since), day_of(until)),
        result@.to_multiset() == rows@.filter(
            |row: RealtimeObservation| in_bounds(row, day_of(since), day_of(until)),
        ).to_multiset(),
{
    let mut result: Vec<RealtimeObservation> = Vec::new();
    let mut i: usize = 0;
    while i < rows.len()
        invariant
            i <= rows.len(),
            result@ == ordered_within(rows@.take(i as int), day_of(since), day_of(until)),
        decreases rows.len() - i,
    {
        let row = &rows[i];
        let late_enough = match since {
            Some(bound) => bound.days() <= row.date.days(),
            None => true,
        };
        let early_enough = match until {
            Some(bound) => row.date.days() <= bound.days(),
            None => true,
        };
        proof {
            assert(rows@.take(i + 1).drop_last() =~= rows@.take(i as int));
        }
        if late_enough && early_enough {
            place(&mut result, row.duplicate());
        }
        i = i + 1;
    }
    proof {
        assert(rows@.take(rows.len() as int) =~= rows@);
        lemma_ordered_within(rows@, day_of(since), day_of(until));
    }
    result
}

/// Every row of the input that lies within the range is among what
/// `ordered_within` gives.
pub proof fn lemma_ordered_within_keeps(rows: Seq<RealtimeObservation>, since: Option<int>, until: Option<int>)
    ensures
        forall|j: int|
            0 <= j < rows.len() && in_bounds(#[trigger] rows[j], since, until) ==> ordered_within(
                rows,
                since,
                until,
            ).contains(rows[j]),
    decreases rows.len(),
{
    if rows.len() > 0 {
        let front = rows.drop_last();
        let earlier = ordered_within(front, since, until);
        lemma_ordered_within_keeps(front, since, until);
        let out = ordered_within(rows, since, until);
        let at = slot(earlier, rows.last().date.day());
        lemma_slot(earlier, rows.last().date.day());
        assert forall|j: int| 0 <= j < rows.len() && in_bounds(#[trigger] rows[j], since, until) implies out.contains(
            rows[j],
        ) by {
            if j < front.len() {
                assert(front[j] == rows[j]);
                let k = choose|k: int| 0 <= k < earlier.len() && earlier[k] == rows[j];
                if in_bounds(rows.last(), since, until) {
                    if k < at {
                        assert(out[k] == rows[j]);
                    } else {
                        assert(out[k + 1] == rows[j]);
                    }
                } else {
                    assert(out[k] == rows[j]);
                }
            } else {
                assert(out[at] == rows[j]);
            }
        }
    }
}

/// One cached observation: its series, its date and the provider's text for
/// its value.
#[derive(Debug)]
pub struct StoredObservation {
    pub series_id: String,
    pub date: Date,
    pub value: String,
}

/// The key of a cached observation: series and day number.
pub open spec fn observation_key(row: StoredObservation) -> (Seq<char>, int) {
    (row.series_id@, row.date.day())
}

/// No two cached observations share a key.
pub open spec fn unique_observations(rows: Seq<StoredObservation>) -> bool {
    forall|i: int, j: int|
        0 <= i < j < rows.len() ==> observation_key(#[trigger] rows[i]) != observation_key(#[trigger] rows[j])
}

/// No two cached series share an id.
pub open spec fn unique_series(rows: Seq<FredEconomicDataSeries>) -> bool {
    forall|i: int, j: int| 0 <= i < j < rows.len() ==> (#[trigger] rows[i]).id@ != (#[trigger] rows[j]).id@
}

/// The value cached under each key.
pub open spec fn observation_table(rows: Seq<StoredObservation>) -> Map<(Seq<char>, int), Seq<char>> {
    Map::new(
        |key: (Seq<char>, int)| exists|i: int| 0 <= i < rows.len() && observation_key(#[trigger] rows[i]) == key,
        |key: (Seq<char>, int)|
            rows[choose|i: int| 0 <= i < rows.len() && observation_key(#[trigger] rows[i]) == key].value@,
    )
}

/// The metadata cached under each series id.
pub open spec fn series_table(rows: Seq<FredEconomicDataSeries>) -> Map<Seq<char>, FredEconomicDataSeries> {
    Map::new(
        |id: Seq<char>| exists|i: int| 0 <= i < rows.len() && (#[trigger] rows[i]).id@ == id,
        |id: Seq<char>| rows[choose|i: int| 0 <= i < rows.len() && (#[trigger] rows[i]).id@ == id],
    )
}

/// The table after the rows of one series were upserted in order: each takes
/// the place of what was cached under its key.
pub open spec fn upserted(
    table: Map<(Seq<char>, int), Seq<char>>,
    series_id: Seq<char>,
    rows: Seq<RealtimeObservation>,
) -> Map<(Seq<char>, int), Seq<char>>
    decreases rows.len(),
{
    if rows.len() == 0 {
        table
    } else {
        upserted(table, series_id, rows.drop_last()).insert(
            (series_id, rows.last().date.day()),
            rows.last().value@,
        )
    }
}

/// Whether a cached observation is held under a key.
pub open spec fn held_under(key: (Seq<char>, int)) -> spec_fn(StoredObservation) -> bool {
    |row: StoredObservation| observation_key(row) == key
}

proof fn lemma_rows_under(rows: Seq<StoredObservation>, key: (Seq<char>, int))
    requires
        unique_observations(rows),
    ensures
        rows.filter(held_under(key)).len() == if observation_table(rows).contains_key(key) {
            1nat
        } else {
            0nat
        },
    decreases rows.len(),
{
    if rows.len() == 0 {
        reveal(Seq::filter);
    } else {
        let front = rows.drop_last();
        lemma_rows_under(front, key);
        assert(front.push(rows.last()) =~= rows);
        front.lemma_filter_push(rows.last(), held_under(key));
        if observation_table(front).contains_key(key) {
            let j = choose|j: int| 0 <= j < front.len() && observation_key(#[trigger] front[j]) == key;
            assert(rows[j] == front[j]);
            assert(observation_key(rows[j]) != observation_key(rows[rows.len() - 1]));
        }
        if observation_table(rows).contains_key(key) && observation_key(rows.last()) != key {
            let j = choose|j: int| 0 <= j < rows.len() && observation_key(#[trigger] rows[j]) == key;
            assert(front[j] == rows[j]);
        }
        if observation_key(rows.last()) == key {
            assert(observation_key(rows[rows.len() - 1]) == key);
        }
    }
}

/// Writing an observation again changes nothing: the cache is as after the
/// first write, with the observation's value under its key.
pub proof fn lemma_upsert_is_idempotent(
    table: Map<(Seq<char>, int), Seq<char>>,
    series_id: Seq<char>,
    row: RealtimeObservation,
)
    ensures
        upserted(upserted(table, series_id, seq![row]), series_id, seq![row]) == upserted(
            table,
            series_id,
            seq![row],
        ),
        upserted(table, series_id, seq![row]) == table.insert((series_id, row.date.day()), row.value@),
        upserted(table, series_id, seq![row]).dom() == table.dom().insert((series_id, row.date.day())),
{
    reveal_with_fuel(upserted, 3);
    let once = table.insert((series_id, row.date.day()), row.value@);
    assert(seq![row].drop_last() =~= Seq::<RealtimeObservation>::empty());
    assert(upserted(table, series_id, seq![row]) == once);
    assert(upserted(once, series_id, seq![row]) == once.insert((series_id, row.date.day()), row.value@));
    assert(once.insert((series_id, row.date.day()), row.value@) =~= once);
    assert(once.dom() =~= table.dom().insert((series_id, row.date.day())));
}

/// The last write wins: after two observations of one day were written, the
/// day holds the value of the second, and every other key holds what it
/// held.
pub proof fn lemma_last_write_wins(
    table: Map<(Seq<char>, int), Seq<char>>,
    series_id: Seq<char>,
    first: RealtimeObservation,
    second: RealtimeObservation,
)
    requires
        first.date.day() == second.date.day(),
    ensures
        upserted(table, series_id, seq![first, second]) == table.insert(
            (series_id, second.date.day()),
            second.value@,
        ),
{
    reveal_with_fuel(upserted, 4);
    let both = seq![first, second];
    assert(both.drop_last() =~= seq![first]);
    assert(seq![first].drop_last() =~= Seq::<RealtimeObservation>::empty());
    let key = (series_id, second.date.day());
    assert(table.insert(key, first.value@).insert(key, second.value@) =~= table.insert(key, second.value@));
}

proof fn lemma_observation_at(rows: Seq<StoredObservation>, i: int)
    requires
        unique_observations(rows),
        0 <= i < rows.len(),
    ensures
        observation_table(rows).contains_key(observation_key(rows[i])),
        observation_table(rows)[observation_key(rows[i])] == rows[i].value@,
{
    let key = observation_key(rows[i]);
    let found = choose|j: int| 0 <= j < rows.len() && observation_key(#[trigger] rows[j]) == key;
    assert(found == i);
}

proof fn lemma_series_at(rows: Seq<FredEconomicDataSeries>, i: int)
    requires
        unique_series(rows),
        0 <= i < rows.len(),
    ensures
        series_table(rows).contains_key(rows[i].id@),
        series_table(rows)[rows[i].id@] == rows[i],
{
    let id = rows[i].id@;
    let found = choose|j: int| 0 <= j < rows.len() && (#[trigger] rows[j]).id@ == id;
    assert(found == i);
}

/// The cache: observations keyed by series and date, and series metadata
/// keyed by series id. A write under a key that is taken replaces what was
/// there; nothing is ever removed.
#[derive(Debug)]
pub struct RealtimeObservationsDatabase {
    observations: Vec<StoredObservation>,
    series: Vec<FredEconomicDataSeries>,
}

impl RealtimeObservationsDatabase {
    /// No key is held twice.
    pub closed spec fn wf(self) -> bool {
        unique_observations(self.observations@) && unique_series(self.series@)
    }

    /// The value cached under each series and day.
    pub closed spec fn observations(self) -> Map<(Seq<char>, int), Seq<char>> {
        observation_table(self.observations@)
    }

    /// The metadata cached under each series id.
    pub closed spec fn seriess(self) -> Map<Seq<char>, FredEconomicDataSeries> {
        series_table(self.series@)
    }

    /// The number of rows held for a series and day.
    pub closed spec fn rows_under(self, series_id: Seq<char>, day: int) -> nat {
        self.observations@.filter(held_under((series_id, day))).len()
    }

    /// No series and day has more than one row: it has one where a value is
    /// cached for it, and none where none is.
    pub proof fn lemma_one_row_per_key(self, series_id: Seq<char>, day: int)
        requires
            self.wf(),
        ensures
            self.rows_under(series_id, day) == if self.observations().contains_key((series_id, day)) {
                1nat
            } else {
                0nat
            },
    {
        lemma_rows_under(self.observations@, (series_id, day));
    }

    /// The number of rows held for a series and day.
    pub fn count_rows(&self, series_id: &str, date: Date) -> (count: usize)
        requires
            self.wf(),
        ensures
            count == self.rows_under(series_id@, date.day()),
            count == if self.observations().contains_key((series_id@, date.day())) {
                1nat
            } else {
                0nat
            },
    {
        let wanted = String::from_str(series_id);
        let ghost key = (series_id@, date.day());
        let mut count: usize = 0;
        let mut i: usize = 0;
        while i < self.observations.len()
            invariant
                i <= self.observations@.len(),
                wanted@ == series_id@,
                key == (series_id@, date.day()),
                count == self.observations@.take(i as int).filter(held_under(key)).len(),
                count <= i,
            decreases self.observations@.len() - i,
        {
            proof {
                let front = self.observations@.take(i as int);
                assert(self.observations@.take(i + 1) =~= front.push(self.observations@[i as int]));
                front.lemma_filter_push(self.observations@[i as int], held_under(key));
            }
            if self.observations[i].date.days() == date.days() && self.observations[i].series_id == wanted {
                count = count + 1;
            }
            i = i + 1;
        }
        proof {
            assert(self.observations@.take(self.observations@.len() as int) =~= self.observations@);
            lemma_rows_under(self.observations@, key);
        }
        count
    }

    /// An empty cache.
    pub fn new() -> (cache: RealtimeObservationsDatabase)
        ensures
            cache.wf(),
            cache.observations() == Map::<(Seq<char>, int), Seq<char>>::empty(),
            cache.seriess() == Map::<Seq<char>, FredEconomicDataSeries>::empty(),
    {
        let cache = RealtimeObservationsDatabase { observations: Vec::new(), series: Vec::new() };
        proof {
            assert(cache.observations() =~= Map::<(Seq<char>, int), Seq<char>>::empty());
            assert(cache.seriess() =~= Map::<Seq<char>, FredEconomicDataSeries>::empty());
        }
        cache
    }

    fn find_observation(&self, series_id: &String, day: i32) -> (found: Option<usize>)
        ensures
            match found {
                Some(i) => i < self.observations@.len() && observation_key(self.observations@[i as int]) == (
                    series_id@,
                    day as int,
                ),
                None => forall|i: int|
                    0 <= i < self.observations@.len() ==> observation_key(#[trigger] self.observations@[i]) != (
                        series_id@,
                        day as int,
                    ),
            },
    {
        let mut i: usize = 0;
        while i < self.observations.len()
            invariant
                i <= self.observations@.len(),
                forall|j: int|
                    0 <= j < i ==> observation_key(#[trigger] self.observations@[j]) != (series_id@, day as int),
            decreases self.observations@.len() - i,
        {
            if self.observations[i].date.days() == day && self.observations[i].series_id == *series_id {
                return Some(i);
            }
            i = i + 1;
        }
        None
    }

    fn upsert(&mut self, series_id: &String, row: &RealtimeObservation)
        requires
            old(self).wf(),
        ensures
            final(self).wf(),
            final(self).seriess() == old(self).seriess(),
            final(self).observations() == old(self).observations().insert(
                (series_id@, row.date.day()),
                row.value@,
            ),
    {
        let ghost before = self.observations@;
        let ghost key = (series_id@, row.date.day());
        let stored = StoredObservation {
            series_id: series_id.clone(),
            date: row.date,
            value: row.value.clone(),
        };
        let at: usize = match self.find_observation(series_id, row.date.days()) {
            Some(i) => {
                self.observations.set(i, stored);
                i
            },
            None => {
                self.observations.push(stored);
                self.observations.len() - 1
            },
        };
        proof {
            let after = self.observations@;
            assert(observation_key(after[at as int]) == key);
            assert forall|i: int| 0 <= i < after.len() && i != at implies i < before.len() && after[i]
                == before[i] && observation_key(#[trigger] after[i]) != key by {}
            assert(unique_observations(after));
            lemma_observation_at(after, at as int);
            let now = observation_table(after);
            let want = observation_table(before).insert(key, row.value@);
            assert forall|q: (Seq<char>, int)| #[trigger] now.dom().contains(q) == want.dom().contains(q) by {
                if q != key && observation_table(before).contains_key(q) {
                    let j = choose|j: int| 0 <= j < before.len() && observation_key(#[trigger] before[j]) == q;
                    assert(after[j] == before[j]);
                    lemma_observation_at(after, j);
                }
                if q != key && now.contains_key(q) {
                    let j = choose|j: int| 0 <= j < after.len() && observation_key(#[trigger] after[j]) == q;
                    assert(after[j] == before[j]);
                    lemma_observation_at(before, j);
                }
            }
            assert(now.dom() =~= want.dom());
            assert forall|q: (Seq<char>, int)| #[trigger] now.dom().contains(q) implies now[q] == want[q] by {
                if q != key {
                    let j = choose|j: int| 0 <= j < after.len() && observation_key(#[trigger] after[j]) == q;
                    assert(after[j] == before[j]);
                    lemma_observation_at(before, j);
                    lemma_observation_at(after, j);
                }
            }
            assert(observation_table(after) =~= observation_table(before).insert(key, row.value@));
        }
    }

    /// The cached rows of a series dated within `[since, until]`, ascending
    /// by date: one row for each cached day in range, with the value cached
    /// for it. An absent bound is open.
    pub fn get_observations(&self, series_id: &str, since: Option<Date>, until: Option<Date>) -> (result: Vec<
        RealtimeObservation,
    >)
        requires
            self.wf(),
        ensures
            strictly_ascending(result@),
            forall|k: int|
                0 <= k < result@.len() ==> {
                    &&& in_bounds(#[trigger] result@[k], day_of(since), day_of(until))
                    &&& self.observations().contains_key((series_id@, result@[k].date.day()))
                    &&& self.observations()[(series_id@, result@[k].date.day())] == result@[k].value@
                },
            forall|day: int| #[trigger]
                self.observations().contains_key((series_id@, day)) && (since is Some ==> since.unwrap().day()
                    <= day) && (until is Some ==> day <= until.unwrap().day()) ==> exists|k: int|
                    0 <= k < result@.len() && #[trigger] result@[k].date.day() == day,
    {
        let wanted = String::from_str(series_id);
        let mut picked: Vec<RealtimeObservation> = Vec::new();
        let ghost mut origin: Seq<int> = Seq::empty();
        let mut i: usize = 0;
        while i < self.observations.len()
            invariant
                i <= self.observations@.len(),
                wanted@ == series_id@,
                origin.len() == picked@.len(),
                forall|k: int|
                    0 <= k < picked@.len() ==> 0 <= #[trigger] origin[k] < i && self.observations@[origin[k]].series_id@
                        == series_id@ && self.observations@[origin[k]].date == picked@[k].date
                        && self.observations@[origin[k]].value == picked@[k].value,
                forall|k: int, l: int| 0 <= k < l < picked@.len() ==> origin[k] < origin[l],
                forall|j: int|
                    0 <= j < i && (#[trigger] self.observations@[j]).series_id@ == series_id@ ==> exists|k: int|
                        0 <= k < picked@.len() && #[trigger] origin[k] == j,
            decreases self.observations@.len() - i,
        {
            if self.observations[i].series_id == wanted {
                picked.push(
                    RealtimeObservation {
                        date: self.observations[i].date,
                        value: self.observations[i].value.clone(),
                    },
                );
                proof {
                    let ghost earlier = origin;
                    origin = origin.push(i as int);
                    assert forall|j: int|
                        0 <= j < i + 1 && (#[trigger] self.observations@[j]).series_id@ == series_id@ implies exists|
                        k: int,
                    |
                        0 <= k < picked@.len() && #[trigger] origin[k] == j by {
                        if j < i {
                            let k = choose|k: int| 0 <= k < earlier.len() && #[trigger] earlier[k] == j;
                            assert(origin[k] == j);
                        } else {
                            assert(origin[picked@.len() - 1] == j);
                        }
                    }
                }
            }
            i = i + 1;
        }
        let result = within_date_bounds(&picked, since, until);
        proof {
            let rows = self.observations@;
            assert(distinct_dates(picked@)) by {
                assert forall|k: int, l: int| 0 <= k < l < picked@.len() implies picked@[k].date.day()
                    != picked@[l].date.day() by {
                    assert(observation_key(rows[origin[k]]) != observation_key(rows[origin[l]]));
                }
            }
            lemma_ordered_within_strict(picked@, day_of(since), day_of(until));
            lemma_ordered_within_keeps(picked@, day_of(since), day_of(until));
            assert forall|k: int| 0 <= k < result@.len() implies self.observations().contains_key(
                (series_id@, (#[trigger] result@[k]).date.day()),
            ) && self.observations()[(series_id@, result@[k].date.day())] == result@[k].value@ by {
                let p = choose|p: int| 0 <= p < picked@.len() && picked@[p] == result@[k];
                lemma_observation_at(rows, origin[p]);
            }
            assert forall|day: int| #[trigger]
                self.observations().contains_key((series_id@, day)) && (since is Some ==> since.unwrap().day()
                    <= day) && (until is Some ==> day <= until.unwrap().day()) implies exists|k: int|
                0 <= k < result@.len() && #[trigger] result@[k].date.day() == day by {
                let j = choose|j: int| 0 <= j < rows.len() && observation_key(#[trigger] rows[j]) == (series_id@, day);
                let p = choose|p: int| 0 <= p < picked@.len() && #[trigger] origin[p] == j;
                assert(in_bounds(picked@[p], day_of(since), day_of(until)));
                let k = choose|k: int| 0 <= k < result@.len() && result@[k] == picked@[p];
                assert(result@[k].date.day() == day);
            }
        }
        result
    }

    /// Upserts the rows of one series, in order: afterwards each of their
    /// days holds the value of the last row dated so, and every other key
    /// holds what it held.
    pub fn put_observations(&mut self, series_id: &str, rows: &Vec<RealtimeObservation>)
        requires
            old(self).wf(),
        ensures
            final(self).wf(),
            final(self).seriess() == old(self).seriess(),
            final(self).observations() == upserted(old(self).observations(), series_id@, rows@),
    {
        let wanted = String::from_str(series_id);
        let mut i: usize = 0;
        while i < rows.len()
            invariant
                i <= rows@.len(),
                wanted@ == series_id@,
                self.wf(),
                self.seriess() == old(self).seriess(),
                self.observations() == upserted(old(self).observations(), series_id@, rows@.take(i as int)),
            decreases rows@.len() - i,
        {
            proof {
                assert(rows@.take(i + 1).drop_last() =~= rows@.take(i as int));
            }
            self.upsert(&wanted, &rows[i]);
            i = i + 1;
        }
        proof {
            assert(rows@.take(rows@.len() as int) =~= rows@);
        }
    }

    fn find_series(&self, id: &String) -> (found: Option<usize>)
        ensures
            match found {
                Some(i) => i < self.series@.len() && self.series@[i as int].id@ == id@,
                None => forall|i: int| 0 <= i < self.series@.len() ==> (#[trigger] self.series@[i]).id@ != id@,
            },
    {
        let mut i: usize = 0;
        while i < self.series.len()
            invariant
                i <= self.series@.len(),
                forall|j: int| 0 <= j < i ==> (#[trigger] self.series@[j]).id@ != id@,
            decreases self.series@.len() - i,
        {
            if self.series[i].id == *id {
                return Some(i);
            }
            i = i + 1;
        }
        None
    }

    /// The metadata cached for a series, if any.
    pub fn get_series(&self, series_id: &str) -> (result: Option<FredEconomicDataSeries>)
        requires
            self.wf(),
        ensures
            result == if self.seriess().contains_key(series_id@) {
                Some(self.seriess()[series_id@])
            } else {
                None
            },
    {
        let wanted = String::from_str(series_id);
        match self.find_series(&wanted) {
            Some(i) => {
                proof {
                    lemma_series_at(self.series@, i as int);
                }
                Some(self.series[i].duplicate())
            },
            None => None,
        }
    }

    /// Upserts the metadata of a series under its id, whatever was cached
    /// there.
    pub fn put_series(&mut self, series: &FredEconomicDataSeries)
        requires
            old(self).wf(),
        ensures
            final(self).wf(),
            final(self).observations() == old(self).observations(),
            final(self).seriess() == old(self).seriess().insert(series.id@, *series),
    {
        let ghost before = self.series@;
        let ghost key = series.id@;
        let at: usize = match self.find_series(&series.id) {
            Some(i) => {
                self.series.set(i, series.duplicate());
                i
            },
            None => {
                self.series.push(series.duplicate());
                self.series.len() - 1
            },
        };
        proof {
            let after = self.series@;
            assert(after[at as int] == *series);
            assert forall|i: int| 0 <= i < after.len() && i != at implies i < before.len() && after[i]
                == before[i] && (#[trigger] after[i]).id@ != key by {}
            assert(unique_series(after));
            lemma_series_at(after, at as int);
            let now = series_table(after);
            let want = series_table(before).insert(key, *series);
            assert forall|q: Seq<char>| #[trigger] now.dom().contains(q) == want.dom().contains(q) by {
                if q != key && series_table(before).contains_key(q) {
                    let j = choose|j: int| 0 <= j < before.len() && (#[trigger] before[j]).id@ == q;
                    assert(after[j] == before[j]);
                    lemma_series_at(after, j);
                }
                if q != key && now.contains_key(q) {
                    let j = choose|j: int| 0 <= j < after.len() && (#[trigger] after[j]).id@ == q;
                    assert(after[j] == before[j]);
                    lemma_series_at(before, j);
                }
            }
            assert(now.dom() =~= want.dom());
            assert forall|q: Seq<char>| #[trigger] now.dom().contains(q) implies now[q] == want[q] by {
                if q != key {
                    let j = choose|j: int| 0 <= j < after.len() && (#[trigger] after[j]).id@ == q;
                    assert(after[j] == before[j]);
                    lemma_series_at(before, j);
                    lemma_series_at(after, j);
                }
            }
            assert(series_table(after) =~= series_table(before).insert(key, *series));
        }
    }
}

} // verus!
