//! The coverage maps of several files.

use crate::map::{CoverageMap, ProbeLocation};
use vstd::prelude::*;

verus! {

/// The place in `maps` of the map for `file`, if there is one. Among
/// several it is the first.
pub open spec fn position_of(maps: Seq<CoverageMap>, file: Seq<char>) -> Option<int>
    decreases maps.len(),
{
    if maps.len() == 0 {
        None
    } else {
        match position_of(maps.drop_last(), file) {
            Some(at) => Some(at),
            None => if maps.last().file@ == file {
                Some(maps.len() - 1)
            } else {
                None
            },
        }
    }
}

/// The place in `maps` of the first map that knows `probe_id`.
pub open spec fn position_of_probe(maps: Seq<CoverageMap>, probe_id: u64) -> Option<int>
    decreases maps.len(),
{
    if maps.len() == 0 {
        None
    } else {
        match position_of_probe(maps.drop_last(), probe_id) {
            Some(at) => Some(at),
            None => if maps.last().probes@.contains_key(probe_id) {
                Some(maps.len() - 1)
            } else {
                None
            },
        }
    }
}

/// The maps after `map` was stored: it takes the place of the map for the
/// same file, or comes last if there was none.
pub open spec fn stored(maps: Seq<CoverageMap>, map: CoverageMap) -> Seq<CoverageMap> {
    match position_of(maps, map.file@) {
        Some(at) => maps.update(at, map),
        None => maps.push(map),
    }
}

/// The maps held after storing `maps` one by one.
pub open spec fn stored_all(maps: Seq<CoverageMap>) -> Seq<CoverageMap>
    decreases maps.len(),
{
    if maps.len() == 0 {
        Seq::empty()
    } else {
        stored(stored_all(maps.drop_last()), maps.last())
    }
}

/// No two of `maps` are for the same file.
pub open spec fn distinct_files(maps: Seq<CoverageMap>) -> bool {
    forall|i: int, j: int| 0 <= i < j < maps.len() ==> maps[i].file@ != maps[j].file@
}

/// The sum of the probe counts of `maps`.
pub open spec fn probe_total(maps: Seq<CoverageMap>) -> nat
    decreases maps.len(),
{
    if maps.len() == 0 {
        0
    } else {
        probe_total(maps.drop_last()) + maps.last().total_probes as nat
    }
}

/// What `position_of` finds is a map for the file, and no map before it
/// is; where it finds none, there is none.
pub proof fn lemma_position_of(maps: Seq<CoverageMap>, file: Seq<char>)
    ensures
        match position_of(maps, file) {
            Some(at) => 0 <= at < maps.len() && maps[at].file@ == file && forall|i: int|
                0 <= i < at ==> maps[i].file@ != file,
            None => forall|i: int| 0 <= i < maps.len() ==> maps[i].file@ != file,
        },
    decreases maps.len(),
{
    if maps.len() > 0 {
        let front = maps.drop_last();
        lemma_position_of(front, file);
        assert(forall|i: int| 0 <= i < front.len() ==> front[i] == maps[i]);
    }
}

/// What `position_of_probe` finds is a map that knows the probe, and no
/// map before it does; where it finds none, no map knows the probe.
pub proof fn lemma_position_of_probe(maps: Seq<CoverageMap>, probe_id: u64)
    ensures
        match position_of_probe(maps, probe_id) {
            Some(at) => 0 <= at < maps.len() && maps[at].probes@.contains_key(probe_id)
                && forall|i: int| 0 <= i < at ==> !maps[i].probes@.contains_key(probe_id),
            None => forall|i: int| 0 <= i < maps.len() ==> !maps[i].probes@.contains_key(probe_id),
        },
    decreases maps.len(),
{
    if maps.len() > 0 {
        let front = maps.drop_last();
        lemma_position_of_probe(front, probe_id);
        assert(forall|i: int| 0 <= i < front.len() ==> front[i] == maps[i]);
    }
}

/// The coverage maps of several files, at most one per file, in the order
/// in which their files first came. They are held in a list and found by
/// comparing file paths: of a hash map keyed by text nothing is known to
/// the verifier, not even that what was put in is found again.
#[derive(Debug, Clone)]
pub struct CoverageMapSet {
    /// The maps, each for another file.
    pub maps: Vec<CoverageMap>,
}

impl Default for CoverageMapSet {
    fn default() -> (set: Self)
        ensures
            set.maps@ == Seq::<CoverageMap>::empty(),
    {
        CoverageMapSet::new()
    }
}

impl CoverageMapSet {
    /// No two maps of the set are for the same file.
    pub open spec fn wf(&self) -> bool {
        distinct_files(self.maps@)
    }

    /// An empty set.
    pub fn new() -> (set: Self)
        ensures
            set.maps@ == Seq::<CoverageMap>::empty(),
            set.wf(),
    {
        CoverageMapSet { maps: Vec::new() }
    }

    /// A set that holds the given maps, stored one by one: of two maps for
    /// one file the later one stays, at the place of the earlier.
    pub fn from_maps(maps: Vec<CoverageMap>) -> (set: Self)
        ensures
            set.maps@ == stored_all(maps@),
            set.wf(),
    {
        let mut set = CoverageMapSet::new();
        let ghost all = maps@;
        for map in it: maps
            invariant
                it.seq() == all,
                set.maps@ == stored_all(all.subrange(0, it.index())),
                set.wf(),
        {
            proof {
                assert(all.subrange(0, it.index() + 1).drop_last() =~= all.subrange(
                    0,
                    it.index(),
                ));
            }
            set.add(map);
        }
        assert(all.subrange(0, all.len() as int) =~= all);
        set
    }

    /// The place of the map for `file`, if the set has one.
    fn find(&self, file: &String) -> (found: Option<usize>)
        ensures
            match found {
                Some(at) => position_of(self.maps@, file@) == Some(at as int),
                None => position_of(self.maps@, file@) is None,
            },
    {
        let mut i: usize = 0;
        while i < self.maps.len()
            invariant
                0 <= i <= self.maps.len(),
                position_of(self.maps@.subrange(0, i as int), file@) is None,
            decreases self.maps.len() - i,
        {
            proof {
                lemma_position_of_extends(self.maps@, file@, i as int);
            }
            if self.maps[i].file == *file {
                return Some(i);
            }
            i += 1;
        }
        assert(self.maps@.subrange(0, i as int) =~= self.maps@);
        None
    }

    /// Stores a map: it takes the place of the map for the same file, or
    /// comes last if the set had none.
    pub fn add(&mut self, map: CoverageMap)
        ensures
            final(self).maps@ == stored(old(self).maps@, map),
            old(self).wf() ==> final(self).wf(),
    {
        proof {
            lemma_position_of(self.maps@, map.file@);
        }
        match self.find(&map.file) {
            Some(at) => {
                self.maps.set(at, map);
            },
            None => {
                self.maps.push(map);
            },
        }
    }

    /// The map for a file, if the set has one.
    pub fn get(&self, file: &str) -> (map: Option<&CoverageMap>)
        ensures
            map == match position_of(self.maps@, file@) {
                Some(at) => Some(&self.maps@[at]),
                None => None,
            },
    {
        proof {
            lemma_position_of(self.maps@, file@);
        }
        let wanted = file.to_owned();
        match self.find(&wanted) {
            Some(at) => Some(&self.maps[at]),
            None => None,
        }
    }

    /// The location of a probe in the first map that knows it.
    pub fn get_location(&self, probe_id: u64) -> (location: Option<&ProbeLocation>)
        ensures
            location == match position_of_probe(self.maps@, probe_id) {
                Some(at) => Some(&self.maps@[at].probes@[probe_id]),
                None => None,
            },
    {
        let mut i: usize = 0;
        while i < self.maps.len()
            invariant
                0 <= i <= self.maps.len(),
                position_of_probe(self.maps@.subrange(0, i as int), probe_id) is None,
            decreases self.maps.len() - i,
        {
            proof {
                lemma_position_of_probe_extends(self.maps@, probe_id, i as int);
            }
            match self.maps[i].get_location(probe_id) {
                Some(location) => {
                    return Some(location);
                },
                None => {},
            }
            i += 1;
        }
        assert(self.maps@.subrange(0, i as int) =~= self.maps@);
        None
    }

    /// The files of the set, in the order of its maps.
    pub fn files(&self) -> (files: Vec<&str>)
        ensures
            files@.len() == self.maps@.len(),
            forall|i: int| 0 <= i < files@.len() ==> files@[i]@ == self.maps@[i].file@,
    {
        let mut files: Vec<&str> = Vec::new();
        let mut i: usize = 0;
        while i < self.maps.len()
            invariant
                0 <= i <= self.maps.len(),
                files@.len() == i,
                forall|j: int| 0 <= j < i ==> files@[j]@ == self.maps@[j].file@,
            decreases self.maps.len() - i,
        {
            files.push(self.maps[i].file.as_str());
            i += 1;
        }
        files
    }

    /// The number of probes over all maps; it stops at `usize::MAX`.
    pub fn total_probes(&self) -> (total: usize)
        ensures
            total == if probe_total(self.maps@) > usize::MAX {
                usize::MAX as nat
            } else {
                probe_total(self.maps@)
            },
    {
        let mut total: usize = 0;
        let mut i: usize = 0;
        while i < self.maps.len()
            invariant
                0 <= i <= self.maps.len(),
                total == if probe_total(self.maps@.subrange(0, i as int)) > usize::MAX {
                    usize::MAX as nat
                } else {
                    probe_total(self.maps@.subrange(0, i as int))
                },
            decreases self.maps.len() - i,
        {
            proof {
                assert(self.maps@.subrange(0, i + 1).drop_last() =~= self.maps@.subrange(
                    0,
                    i as int,
                ));
            }
            total = total.saturating_add(self.maps[i].total_probes);
            i += 1;
        }
        assert(self.maps@.subrange(0, i as int) =~= self.maps@);
        total
    }
}

/// Looking one map further: the search in a longer front of `maps` finds
/// what the search in the shorter front found, or else the new map.
proof fn lemma_position_of_extends(maps: Seq<CoverageMap>, file: Seq<char>, i: int)
    requires
        0 <= i < maps.len(),
        position_of(maps.subrange(0, i), file) is None,
    ensures
        maps[i].file@ == file ==> position_of(maps, file) == Some(i),
        maps[i].file@ != file ==> position_of(maps.subrange(0, i + 1), file) is None,
{
    let front = maps.subrange(0, i + 1);
    assert(front.drop_last() =~= maps.subrange(0, i));
    if maps[i].file@ == file {
        lemma_position_of_front(maps, file, i + 1);
    }
}

/// What the search finds in a front of `maps` it finds in all of `maps`.
proof fn lemma_position_of_front(maps: Seq<CoverageMap>, file: Seq<char>, n: int)
    requires
        0 <= n <= maps.len(),
        position_of(maps.subrange(0, n), file) is Some,
    ensures
        position_of(maps, file) == position_of(maps.subrange(0, n), file),
    decreases maps.len() - n,
{
    if n < maps.len() {
        let next = maps.subrange(0, n + 1);
        assert(next.drop_last() =~= maps.subrange(0, n));
        lemma_position_of_front(maps, file, n + 1);
    } else {
        assert(maps.subrange(0, n) =~= maps);
    }
}

/// Looking one map further for a probe.
proof fn lemma_position_of_probe_extends(maps: Seq<CoverageMap>, probe_id: u64, i: int)
    requires
        0 <= i < maps.len(),
        position_of_probe(maps.subrange(0, i), probe_id) is None,
    ensures
        maps[i].probes@.contains_key(probe_id) ==> position_of_probe(maps, probe_id) == Some(i),
        !maps[i].probes@.contains_key(probe_id) ==> position_of_probe(
            maps.subrange(0, i + 1),
            probe_id,
        ) is None,
{
    let front = maps.subrange(0, i + 1);
    assert(front.drop_last() =~= maps.subrange(0, i));
    if maps[i].probes@.contains_key(probe_id) {
        lemma_position_of_probe_front(maps, probe_id, i + 1);
    }
}

/// What the search for a probe finds in a front of `maps` it finds in all
/// of `maps`.
proof fn lemma_position_of_probe_front(maps: Seq<CoverageMap>, probe_id: u64, n: int)
    requires
        0 <= n <= maps.len(),
        position_of_probe(maps.subrange(0, n), probe_id) is Some,
    ensures
        position_of_probe(maps, probe_id) == position_of_probe(maps.subrange(0, n), probe_id),
    decreases maps.len() - n,
{
    if n < maps.len() {
        let next = maps.subrange(0, n + 1);
        assert(next.drop_last() =~= maps.subrange(0, n));
        lemma_position_of_probe_front(maps, probe_id, n + 1);
    } else {
        assert(maps.subrange(0, n) =~= maps);
    }
}

} // verus!
