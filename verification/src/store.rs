//! The persistence contract, as a verified reference model.
//!
//! The pipeline needs two guarantees of its store: the metadata upsert
//! replaces by `call_id` and never duplicates, and the observation
//! insert appends by `(station_id, timestamp_UTC)` and reports — not
//! fails on — a duplicate key.  This model states both exactly; an
//! external database stands behind the same contract in production.

use vstd::prelude::*;

use crate::station::ObservationRecord;
use crate::station::StationRecord;
use crate::strutil::str_eq;

verus! {

/// Outcome of an observation insert: a duplicate key is an expected,
/// non-fatal outcome.
#[derive(Clone, Copy, PartialEq, Eq, Structural, Debug)]
pub enum InsertOutcome {
    Inserted,
    Duplicate,
}

/// Index of the station row keyed `call_id`.
pub open spec fn find_station(rows: Seq<StationRecord>, call_id: Seq<char>) -> Option<int>
    decreases rows.len(),
{
    if rows.len() == 0 {
        None
    } else if rows[0].call_id@ == call_id {
        Some(0int)
    } else {
        match find_station(rows.drop_first(), call_id) {
            Some(i) => Some(i + 1),
            None => None,
        }
    }
}

/// The station row keyed `call_id`, if any.
pub open spec fn station_row(rows: Seq<StationRecord>, call_id: Seq<char>) -> Option<StationRecord> {
    match find_station(rows, call_id) {
        Some(i) => Some(rows[i]),
        None => None,
    }
}

/// Replace-by-key: overwrite the row with this `call_id`, or append
/// the first row for it.
pub open spec fn spec_upsert(rows: Seq<StationRecord>, rec: StationRecord) -> Seq<StationRecord> {
    match find_station(rows, rec.call_id@) {
        Some(i) => rows.update(i, rec),
        None => rows.push(rec),
    }
}

/// Whether an observation row with this composite key exists.
pub open spec fn has_obs(rows: Seq<ObservationRecord>, station_id: Seq<char>, ts: Seq<char>) -> bool {
    exists|i: int|
        0 <= i < rows.len() && rows[i].station_id@ == station_id && rows[i].timestamp_UTC@ == ts
}

/// Append-with-duplicate-tolerance: the table and whether the key was
/// already present.
pub open spec fn spec_insert(rows: Seq<ObservationRecord>, rec: ObservationRecord) -> (
    Seq<ObservationRecord>,
    bool,
) {
    if has_obs(rows, rec.station_id@, rec.timestamp_UTC@) {
        (rows, true)
    } else {
        (rows.push(rec), false)
    }
}

/// The two tables of the persisted schema.
pub struct Tables {
    pub stations: Vec<StationRecord>,
    pub observations: Vec<ObservationRecord>,
}

impl Tables {
    /// Empty tables.
    pub fn new() -> (r: Tables)
        ensures
            r.stations@.len() == 0,
            r.observations@.len() == 0,
    {
        Tables { stations: Vec::new(), observations: Vec::new() }
    }

    /// Replace-semantics write keyed on `call_id`: idempotent, never
    /// duplicating, never failing.
    pub fn upsert_station(&mut self, rec: StationRecord) -> (replaced: bool)
        ensures
            final(self).stations@ == spec_upsert(old(self).stations@, rec),
            final(self).observations == old(self).observations,
            replaced == (find_station(old(self).stations@, rec.call_id@) is Some),
    {
        let ghost rows = self.stations@;
        proof {
            assert(rows.skip(0) =~= rows);
        }
        let n = self.stations.len();
        let mut i: usize = 0;
        while i < n
            invariant
                n == self.stations.len(),
                i <= n,
                rows == self.stations@,
                self.observations == old(self).observations,
                *self == *old(self),
                forall|k: int| 0 <= k < i ==> !(rows[k].call_id@ == rec.call_id@),
                find_station(rows, rec.call_id@) == match find_station(
                    rows.skip(i as int),
                    rec.call_id@,
                ) {
                    Some(j) => Some(j + i),
                    None => None::<int>,
                },
            decreases n - i,
        {
            proof {
                assert(rows.skip(i as int).len() > 0);
                assert(rows.skip(i as int)[0] == rows[i as int]);
                assert(rows.skip(i as int).drop_first() =~= rows.skip(i + 1));
            }
            if str_eq(self.stations[i].call_id.as_str(), rec.call_id.as_str()) {
                proof {
                    assert(find_station(rows.skip(i as int), rec.call_id@) == Some(0int));
                    assert(find_station(rows, rec.call_id@) == Some(i as int));
                }
                self.stations.set(i, rec);
                return true;
            }
            i = i + 1;
        }
        proof {
            assert(rows.skip(n as int).len() == 0);
            assert(find_station(rows, rec.call_id@) is None);
        }
        self.stations.push(rec);
        false
    }

    /// Append keyed on `(station_id, timestamp_UTC)`: a duplicate key
    /// is reported and leaves the tables untouched; it is never an
    /// error.
    pub fn insert_observation(&mut self, rec: ObservationRecord) -> (out: InsertOutcome)
        ensures
            (final(self).observations@, out == InsertOutcome::Duplicate) == spec_insert(
                old(self).observations@,
                rec,
            ),
            final(self).stations == old(self).stations,
            out == InsertOutcome::Duplicate <==> has_obs(
                old(self).observations@,
                rec.station_id@,
                rec.timestamp_UTC@,
            ),
            out == InsertOutcome::Duplicate ==> final(self).observations == old(self).observations,
            out == InsertOutcome::Inserted ==> final(self).observations@ == old(
                self,
            ).observations@.push(rec),
    {
        let ghost rows = self.observations@;
        let n = self.observations.len();
        let mut i: usize = 0;
        while i < n
            invariant
                n == self.observations.len(),
                i <= n,
                rows == self.observations@,
                *self == *old(self),
                forall|k: int|
                    0 <= k < i ==> !(rows[k].station_id@ == rec.station_id@
                        && rows[k].timestamp_UTC@ == rec.timestamp_UTC@),
            decreases n - i,
        {
            if str_eq(self.observations[i].station_id.as_str(), rec.station_id.as_str()) && str_eq(
                self.observations[i].timestamp_UTC.as_str(),
                rec.timestamp_UTC.as_str(),
            ) {
                proof {
                    assert(has_obs(rows, rec.station_id@, rec.timestamp_UTC@));
                }
                return InsertOutcome::Duplicate;
            }
            i = i + 1;
        }
        proof {
            assert(!has_obs(rows, rec.station_id@, rec.timestamp_UTC@));
        }
        self.observations.push(rec);
        InsertOutcome::Inserted
    }
}

/// Law: re-inserting an observation with the key it was just stored
/// under reports the duplicate and leaves the table without a second
/// row — storage is exactly-once per `(station_id, timestamp_UTC)`.
pub proof fn lemma_duplicate_insert_tolerated(rows: Seq<ObservationRecord>, rec: ObservationRecord)
    ensures
        ({
            let (rows1, dup1) = spec_insert(rows, rec);
            let (rows2, dup2) = spec_insert(rows1, rec);
            &&& dup2
            &&& rows2 == rows1
        }),
{
    let (rows1, dup1) = spec_insert(rows, rec);
    if !has_obs(rows, rec.station_id@, rec.timestamp_UTC@) {
        assert(rows1[rows.len() as int] == rec);
        assert(has_obs(rows1, rec.station_id@, rec.timestamp_UTC@));
    }
}

/// A found station index is in range and carries the key.
pub proof fn lemma_find_station_in_range(rows: Seq<StationRecord>, call_id: Seq<char>)
    ensures
        match find_station(rows, call_id) {
            Some(i) => 0 <= i < rows.len() && rows[i].call_id@ == call_id,
            None => true,
        },
    decreases rows.len(),
{
    if rows.len() > 0 && !(rows[0].call_id@ == call_id) {
        lemma_find_station_in_range(rows.drop_first(), call_id);
    }
}

/// The upsert leaves the upserted record as the row under its key.
pub proof fn lemma_upsert_stores(rows: Seq<StationRecord>, rec: StationRecord)
    ensures
        station_row(spec_upsert(rows, rec), rec.call_id@) == Some(rec),
    decreases rows.len(),
{
    if rows.len() == 0 {
        assert(spec_upsert(rows, rec) == rows.push(rec));
        assert(rows.push(rec)[0] == rec);
    } else if rows[0].call_id@ == rec.call_id@ {
        assert(spec_upsert(rows, rec) == rows.update(0, rec));
        assert(rows.update(0, rec)[0] == rec);
    } else {
        lemma_upsert_stores(rows.drop_first(), rec);
        lemma_find_station_in_range(rows, rec.call_id@);
        lemma_find_station_in_range(rows.drop_first(), rec.call_id@);
        let up = spec_upsert(rows, rec);
        match find_station(rows, rec.call_id@) {
            Some(i) => {
                assert(find_station(rows.drop_first(), rec.call_id@) == Some(i - 1));
                assert(up == rows.update(i, rec));
                assert(up.drop_first() =~= rows.drop_first().update(i - 1, rec));
                assert(up[0] == rows[0]);
            },
            None => {
                assert(find_station(rows.drop_first(), rec.call_id@) is None);
                assert(up == rows.push(rec));
                assert(up.drop_first() =~= rows.drop_first().push(rec));
                assert(up[0] == rows[0]);
            },
        }
        let sub = up.drop_first();
        assert(sub == spec_upsert(rows.drop_first(), rec));
        lemma_find_station_in_range(sub, rec.call_id@);
        match find_station(sub, rec.call_id@) {
            Some(k) => {
                assert(up.drop_first()[k] == up[k + 1]);
                assert(!(up[0].call_id@ == rec.call_id@));
                assert(find_station(up, rec.call_id@) == Some(k + 1));
            },
            None => {
                assert(false);
            },
        }
    }
}

/// Law: upserting twice under one `call_id` overwrites — the stored
/// row reflects the second write, and no second row appears.
pub proof fn lemma_upsert_overwrites(
    rows: Seq<StationRecord>,
    r1: StationRecord,
    r2: StationRecord,
)
    requires
        r1.call_id@ == r2.call_id@,
    ensures
        ({
            let rows1 = spec_upsert(rows, r1);
            let rows2 = spec_upsert(rows1, r2);
            &&& station_row(rows2, r2.call_id@) == Some(r2)
            &&& rows2.len() == rows1.len()
        }),
{
    let rows1 = spec_upsert(rows, r1);
    lemma_upsert_stores(rows, r1);
    lemma_upsert_stores(rows1, r2);
    assert(find_station(rows1, r2.call_id@) is Some);
    lemma_find_station_in_range(rows1, r2.call_id@);
}

} // verus!
