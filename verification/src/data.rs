//! Hit counts collected during one run.

use crate::data::probe_kind::ProbeKind;
use crate::order::{ascending_ids, lemma_ascending_ids, sorted_keys};
use std::collections::hash_map::Entry;
use std::collections::HashMap;
use std::time::UNIX_EPOCH;
use vstd::prelude::*;
use vstd::std_specs::iter::IteratorSpec;

pub mod probe_kind;

verus! {

/// How often one probe fired.
#[derive(Debug, Clone, Copy, PartialEq, Eq, Structural)]
pub struct ProbeHit {
    /// Unique identifier of the probe.
    pub probe_id: u64,
    /// Kind of probe (see [`probe_kind`]).
    pub kind: u8,
    /// Number of times the probe was hit.
    pub count: u64,
}

impl ProbeHit {
    /// A first hit of a probe: the count is 1.
    pub fn new(probe_id: u64, kind: u8) -> (hit: Self)
        ensures
            hit == (ProbeHit { probe_id, kind, count: 1 }),
    {
        ProbeHit { probe_id, kind, count: 1 }
    }

    /// A hit record with a given count.
    pub fn with_count(probe_id: u64, kind: u8, count: u64) -> (hit: Self)
        ensures
            hit == (ProbeHit { probe_id, kind, count }),
    {
        ProbeHit { probe_id, kind, count }
    }

    /// The kind of the probe, if the record holds one of the four kinds.
    pub fn probe_kind(&self) -> (kind: Option<ProbeKind>)
        ensures
            kind == ProbeKind::of_code(self.kind),
    {
        ProbeKind::from_code(self.kind)
    }
}

/// `n` as a hit count: counts stop at `u64::MAX` instead of wrapping, so a
/// count never goes down.
pub open spec fn saturated(n: int) -> u64 {
    if n >= u64::MAX {
        u64::MAX
    } else if n <= 0 {
        0
    } else {
        n as u64
    }
}

/// The count recorded for `probe_id`; 0 for a probe that was never hit.
pub open spec fn count_in(hits: Map<u64, ProbeHit>, probe_id: u64) -> u64 {
    if hits.contains_key(probe_id) {
        hits[probe_id].count
    } else {
        0
    }
}

/// The hits after one more hit of `probe_id`: a known probe counts one
/// more and keeps its kind, an unknown one enters with count 1. A count
/// that stands at `u64::MAX` stays there.
pub open spec fn recorded(hits: Map<u64, ProbeHit>, probe_id: u64, kind: u8) -> Map<u64, ProbeHit> {
    if hits.contains_key(probe_id) {
        hits.insert(
            probe_id,
            ProbeHit {
                probe_id: hits[probe_id].probe_id,
                kind: hits[probe_id].kind,
                count: saturated(hits[probe_id].count + 1),
            },
        )
    } else {
        hits.insert(probe_id, ProbeHit { probe_id, kind, count: 1 })
    }
}

/// The record of one probe after `theirs` was merged into `ours`: the
/// counts are added, the rest is ours.
pub open spec fn merged_hit(ours: ProbeHit, theirs: ProbeHit) -> ProbeHit {
    ProbeHit {
        probe_id: ours.probe_id,
        kind: ours.kind,
        count: saturated(ours.count + theirs.count),
    }
}

/// The hits of `a` after `b` was merged into it.
pub open spec fn merged(a: Map<u64, ProbeHit>, b: Map<u64, ProbeHit>) -> Map<u64, ProbeHit> {
    Map::new(
        |id: u64| a.contains_key(id) || b.contains_key(id),
        |id: u64|
            if a.contains_key(id) && b.contains_key(id) {
                merged_hit(a[id], b[id])
            } else if a.contains_key(id) {
                a[id]
            } else {
                b[id]
            },
    )
}

/// The hits held after inserting `hits` one by one, each under its own
/// probe id: of two records for one probe the later one stays.
pub open spec fn hits_by_id(hits: Seq<ProbeHit>) -> Map<u64, ProbeHit>
    decreases hits.len(),
{
    if hits.len() == 0 {
        Map::empty()
    } else {
        hits_by_id(hits.drop_last()).insert(hits.last().probe_id, hits.last())
    }
}

/// The records of `hits`, one per probe, in ascending order of probe id.
pub open spec fn hits_in_order(hits: Map<u64, ProbeHit>) -> Seq<ProbeHit> {
    ascending_ids(hits.dom()).map_values(|id: u64| hits[id])
}

/// The hits after a run of recordings, each a probe id with its kind, in
/// the order in which they came.
pub open spec fn recorded_all(hits: Map<u64, ProbeHit>, events: Seq<(u64, u8)>) -> Map<
    u64,
    ProbeHit,
>
    decreases events.len(),
{
    if events.len() == 0 {
        hits
    } else {
        recorded(recorded_all(hits, events.drop_last()), events.last().0, events.last().1)
    }
}

/// How many of `events` are recordings of `probe_id`.
pub open spec fn occurrences(events: Seq<(u64, u8)>, probe_id: u64) -> nat
    decreases events.len(),
{
    if events.len() == 0 {
        0
    } else {
        occurrences(events.drop_last(), probe_id) + if events.last().0 == probe_id {
            1nat
        } else {
            0nat
        }
    }
}

/// The ids among the first `n` entries of a walk through a hit map.
spec fn walked(walk: Seq<(&u64, &ProbeHit)>, n: int) -> Set<u64> {
    Set::new(|id: u64| exists|j: int| 0 <= j < n && *walk[j].0 == id)
}

/// Hit counts of one run, with the time window of the collection.
#[derive(Debug)]
pub struct CoverageData {
    /// Hit records, keyed by probe id.
    pub probe_hits: HashMap<u64, ProbeHit>,
    /// When collection started (Unix milliseconds).
    pub start_time: u64,
    /// When collection ended (Unix milliseconds); 0 while it is running.
    pub end_time: u64,
}

impl Clone for CoverageData {
    fn clone(&self) -> (copy: Self)
        ensures
            copy.probe_hits@ == self.probe_hits@,
            copy.start_time == self.start_time,
            copy.end_time == self.end_time,
            self.wf() ==> copy.wf(),
    {
        CoverageData {
            probe_hits: self.probe_hits.clone(),
            start_time: self.start_time,
            end_time: self.end_time,
        }
    }
}

impl Default for CoverageData {
    fn default() -> (data: Self)
        ensures
            data.probe_hits@ == Map::<u64, ProbeHit>::empty(),
            data.end_time == 0,
            data.wf(),
    {
        CoverageData::new()
    }
}

impl CoverageData {
    /// Every record is filed under its own probe id, and a finished
    /// collection did not end before it started.
    pub open spec fn wf(&self) -> bool {
        &&& forall|id: u64| #[trigger]
            self.probe_hits@.contains_key(id) ==> self.probe_hits@[id].probe_id == id
        &&& self.end_time == 0 || self.end_time >= self.start_time
    }

    /// Empty data whose collection starts now.
    pub fn new() -> (data: Self)
        ensures
            data.probe_hits@ == Map::<u64, ProbeHit>::empty(),
            data.end_time == 0,
            data.wf(),
    {
        CoverageData::started_at(current_time_millis())
    }

    /// Empty data whose collection started at `start_time`.
    pub fn started_at(start_time: u64) -> (data: Self)
        ensures
            data.probe_hits@ == Map::<u64, ProbeHit>::empty(),
            data.start_time == start_time,
            data.end_time == 0,
            data.wf(),
    {
        CoverageData { probe_hits: HashMap::new(), start_time, end_time: 0 }
    }

    /// Records one hit of a probe.
    pub fn record_hit(&mut self, probe_id: u64, kind: u8)
        ensures
            final(self).probe_hits@ == recorded(old(self).probe_hits@, probe_id, kind),
            final(self).start_time == old(self).start_time,
            final(self).end_time == old(self).end_time,
            old(self).wf() ==> final(self).wf(),
    {
        match self.probe_hits.entry(probe_id) {
            Entry::Occupied(mut occupied) => {
                let hit = occupied.get_mut();
                hit.count = hit.count.saturating_add(1);
            },
            Entry::Vacant(vacant) => {
                vacant.insert(ProbeHit::new(probe_id, kind));
            },
        }
    }

    /// The hit count of a probe; 0 if it was never hit.
    pub fn get_hit_count(&self, probe_id: u64) -> (count: u64)
        ensures
            count == count_in(self.probe_hits@, probe_id),
    {
        match self.probe_hits.get(&probe_id) {
            Some(hit) => hit.count,
            None => 0,
        }
    }

    /// Marks the collection as finished now.
    pub fn finish(&mut self)
        ensures
            final(self).probe_hits@ == old(self).probe_hits@,
            final(self).start_time == old(self).start_time,
            final(self).end_time >= final(self).start_time,
            old(self).wf() ==> final(self).wf(),
    {
        self.finish_at(current_time_millis());
    }

    /// Marks the collection as finished at `now`. A clock that went back
    /// behind the start does not move the end before the start.
    pub fn finish_at(&mut self, now: u64)
        ensures
            final(self).probe_hits@ == old(self).probe_hits@,
            final(self).start_time == old(self).start_time,
            final(self).end_time == if now < old(self).start_time {
                old(self).start_time
            } else {
                now
            },
            old(self).wf() ==> final(self).wf(),
    {
        if now < self.start_time {
            self.end_time = self.start_time;
        } else {
            self.end_time = now;
        }
    }

    /// Drops all hits and starts a new collection now.
    pub fn reset(&mut self)
        ensures
            final(self).probe_hits@ == Map::<u64, ProbeHit>::empty(),
            final(self).end_time == 0,
            final(self).wf(),
    {
        self.reset_at(current_time_millis());
    }

    /// Drops all hits and starts a new collection at `now`.
    pub fn reset_at(&mut self, now: u64)
        ensures
            final(self).probe_hits@ == Map::<u64, ProbeHit>::empty(),
            final(self).start_time == now,
            final(self).end_time == 0,
            final(self).wf(),
    {
        self.probe_hits.clear();
        self.start_time = now;
        self.end_time = 0;
    }

    /// Merges the data of another execution context into this one: the
    /// counts of each probe are added, and the time window grows to span
    /// both.
    pub fn merge(&mut self, other: &CoverageData)
        ensures
            final(self).probe_hits@ == merged(old(self).probe_hits@, other.probe_hits@),
            final(self).start_time == if other.start_time < old(self).start_time {
                other.start_time
            } else {
                old(self).start_time
            },
            final(self).end_time == if other.end_time > old(self).end_time {
                other.end_time
            } else {
                old(self).end_time
            },
            old(self).wf() && other.wf() ==> final(self).wf(),
    {
        let ghost before = self.probe_hits@;
        let ghost theirs = other.probe_hits@;
        let ghost walk = other.probe_hits.iter().remaining();
        assert(before == merged(before, theirs.restrict(walked(walk, 0))));
        for entry in it: other.probe_hits.iter()
            invariant
                it.seq() == walk,
                walk.no_duplicates(),
                theirs == other.probe_hits@,
                forall|j: int|
                    0 <= j < walk.len() ==> theirs.contains_key(*walk[j].0) && theirs[*walk[j].0]
                        == *walk[j].1,
                forall|id: u64| theirs.contains_key(id) ==> walk.contains((&id, &theirs[id])),
                self.probe_hits@ == merged(before, theirs.restrict(walked(walk, it.index()))),
                self.start_time == old(self).start_time,
                self.end_time == old(self).end_time,
        {
            let ghost n = it.index();
            let id = *entry.0;
            let hit = *entry.1;
            match self.probe_hits.entry(id) {
                Entry::Occupied(mut occupied) => {
                    let ours = occupied.get_mut();
                    ours.count = ours.count.saturating_add(hit.count);
                },
                Entry::Vacant(vacant) => {
                    vacant.insert(hit);
                },
            }
            assert(self.probe_hits@ == merged(before, theirs.restrict(walked(walk, n + 1)))) by {
                assert(walked(walk, n + 1) =~= walked(walk, n).insert(id));
            }
        }
        assert(self.probe_hits@ == merged(before, theirs)) by {
            assert(walked(walk, walk.len() as int) =~= theirs.dom());
        }
        if other.start_time < self.start_time {
            self.start_time = other.start_time;
        }
        if other.end_time > self.end_time {
            self.end_time = other.end_time;
        }
    }

    /// The hit records, one per probe, in ascending order of probe id.
    pub fn iter(&self) -> (hits: Vec<&ProbeHit>)
        ensures
            hits@.map_values(|hit: &ProbeHit| *hit) == hits_in_order(self.probe_hits@),
    {
        let ids = sorted_keys(&self.probe_hits);
        let mut hits: Vec<&ProbeHit> = Vec::new();
        let mut i: usize = 0;
        while i < ids.len()
            invariant
                0 <= i <= ids.len(),
                ids@ == ascending_ids(self.probe_hits@.dom()),
                ids@.to_set() == self.probe_hits@.dom(),
                hits@.len() == i,
                forall|j: int| 0 <= j < i ==> *hits@[j] == self.probe_hits@[ids@[j]],
            decreases ids.len() - i,
        {
            match self.probe_hits.get(&ids[i]) {
                Some(hit) => {
                    hits.push(hit);
                },
                None => {},
            }
            i += 1;
        }
        hits
    }

    /// Copies of the hit records, one per probe, in ascending order of
    /// probe id.
    pub fn to_probe_hits_vec(&self) -> (hits: Vec<ProbeHit>)
        ensures
            hits@ == hits_in_order(self.probe_hits@),
    {
        let ids = sorted_keys(&self.probe_hits);
        let mut hits: Vec<ProbeHit> = Vec::new();
        let mut i: usize = 0;
        while i < ids.len()
            invariant
                0 <= i <= ids.len(),
                ids@ == ascending_ids(self.probe_hits@.dom()),
                ids@.to_set() == self.probe_hits@.dom(),
                hits@.len() == i,
                forall|j: int| 0 <= j < i ==> hits@[j] == self.probe_hits@[ids@[j]],
            decreases ids.len() - i,
        {
            match self.probe_hits.get(&ids[i]) {
                Some(hit) => {
                    hits.push(*hit);
                },
                None => {},
            }
            i += 1;
        }
        hits
    }

    /// Data that holds the given records, each under its own probe id, and
    /// whose collection starts now. Of two records for one probe the later
    /// one stays.
    pub fn from_probe_hits(hits: Vec<ProbeHit>) -> (data: Self)
        ensures
            data.probe_hits@ == hits_by_id(hits@),
            data.end_time == 0,
            data.wf(),
    {
        let mut data = CoverageData::new();
        let mut i: usize = 0;
        while i < hits.len()
            invariant
                0 <= i <= hits.len(),
                data.probe_hits@ == hits_by_id(hits@.subrange(0, i as int)),
                data.end_time == 0,
                data.wf(),
            decreases hits.len() - i,
        {
            let hit = hits[i];
            proof {
                assert(hits@.subrange(0, i + 1).drop_last() =~= hits@.subrange(0, i as int));
            }
            data.probe_hits.insert(hit.probe_id, hit);
            i += 1;
        }
        assert(hits@.subrange(0, i as int) =~= hits@);
        data
    }

    /// The number of distinct probes that were hit.
    pub fn probes_hit(&self) -> (n: usize)
        ensures
            n == self.probe_hits@.len(),
    {
        self.probe_hits.len()
    }
}

/// Counting is exact: after a run of recordings the count of a probe is
/// its count before plus the number of its recordings, whatever else was
/// recorded in between, up to the ceiling of the counter. A probe that was
/// never recorded keeps its count, so it reads 0 in fresh data.
pub proof fn lemma_recorded_counts(hits: Map<u64, ProbeHit>, events: Seq<(u64, u8)>, probe_id: u64)
    ensures
        count_in(recorded_all(hits, events), probe_id) == saturated(
            count_in(hits, probe_id) + occurrences(events, probe_id),
        ),
        occurrences(events, probe_id) == 0 ==> count_in(recorded_all(hits, events), probe_id)
            == count_in(hits, probe_id),
        count_in(hits, probe_id) <= count_in(recorded_all(hits, events), probe_id),
    decreases events.len(),
{
    if events.len() > 0 {
        lemma_recorded_counts(hits, events.drop_last(), probe_id);
    }
}

/// In data that started empty, a probe that was recorded `n` times counts
/// `n`, as long as `n` fits the counter, and a probe that was never
/// recorded counts 0.
pub proof fn lemma_fresh_counts(events: Seq<(u64, u8)>, probe_id: u64)
    ensures
        occurrences(events, probe_id) <= u64::MAX ==> count_in(
            recorded_all(Map::empty(), events),
            probe_id,
        ) == occurrences(events, probe_id),
        occurrences(events, probe_id) == 0 ==> count_in(
            recorded_all(Map::empty(), events),
            probe_id,
        ) == 0,
{
    lemma_recorded_counts(Map::empty(), events, probe_id);
}

/// Merging is commutative on the counts: the two orders give the same
/// probes with the same counts.
pub proof fn lemma_merge_commutative(a: Map<u64, ProbeHit>, b: Map<u64, ProbeHit>)
    ensures
        merged(a, b).dom() == merged(b, a).dom(),
        forall|id: u64| count_in(merged(a, b), id) == count_in(merged(b, a), id),
        forall|id: u64| #[trigger]
            count_in(merged(a, b), id) == saturated(count_in(a, id) + count_in(b, id)),
{
}

/// Merging is associative on the counts: three sets of data merged in
/// either grouping give the same probes with the same counts.
pub proof fn lemma_merge_associative(
    a: Map<u64, ProbeHit>,
    b: Map<u64, ProbeHit>,
    c: Map<u64, ProbeHit>,
)
    ensures
        merged(merged(a, b), c).dom() == merged(a, merged(b, c)).dom(),
        forall|id: u64|
            count_in(merged(merged(a, b), c), id) == count_in(merged(a, merged(b, c)), id),
{
}

/// The records that come out in order hold, filed by id, what the data
/// held, where every record was filed under its own probe id.
pub proof fn lemma_hits_round_trip(hits: Map<u64, ProbeHit>)
    requires
        hits.dom().finite(),
        forall|id: u64| #[trigger] hits.contains_key(id) ==> hits[id].probe_id == id,
    ensures
        hits_by_id(hits_in_order(hits)) == hits,
{
    lemma_ascending_ids(hits.dom());
    let ids = ascending_ids(hits.dom());
    lemma_hits_filed(hits, ids, ids.len() as int);
    assert(hits_in_order(hits).subrange(0, ids.len() as int) =~= hits_in_order(hits));
    assert(ids.subrange(0, ids.len() as int) =~= ids);
}

/// Filing the first `n` records of the records in order gives the hits of
/// the first `n` ids.
proof fn lemma_hits_filed(hits: Map<u64, ProbeHit>, ids: Seq<u64>, n: int)
    requires
        0 <= n <= ids.len(),
        forall|i: int| 0 <= i < ids.len() ==> hits.contains_key(#[trigger] ids[i]),
        forall|id: u64| #[trigger] hits.contains_key(id) ==> hits[id].probe_id == id,
    ensures
        hits_by_id(ids.map_values(|id: u64| hits[id]).subrange(0, n)) == hits.restrict(
            ids.subrange(0, n).to_set(),
        ),
    decreases n,
{
    let records = ids.map_values(|id: u64| hits[id]);
    if n > 0 {
        lemma_hits_filed(hits, ids, n - 1);
        let front = records.subrange(0, n);
        assert(front.drop_last() =~= records.subrange(0, n - 1));
        let shorter = ids.subrange(0, n - 1);
        let longer = ids.subrange(0, n);
        assert(longer.to_set() =~= shorter.to_set().insert(ids[n - 1])) by {
            assert forall|id: u64|
                longer.to_set().contains(id) <==> shorter.to_set().insert(ids[n - 1]).contains(
                    id,
                ) by {
                if id == ids[n - 1] {
                    assert(longer[n - 1] == id);
                }
            }
        }
    }
}

/// The current time in milliseconds since the Unix epoch, as
/// `std::time::SystemTime::elapsed` measures it from `UNIX_EPOCH`; 0 if the
/// clock stands before the epoch. Nothing is claimed of the value: it is
/// the clock's.
#[verifier::external_body]
fn current_time_millis() -> (millis: u64) {
    match UNIX_EPOCH.elapsed() {
        Ok(since_epoch) => since_epoch.as_millis() as u64,
        Err(_) => 0,
    }
}

} // verus!
