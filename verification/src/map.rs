//! Coverage maps: where each probe stands in the source.

use crate::data::probe_kind;
use crate::data::probe_kind::ProbeKind;
use crate::order::{ascending_line_numbers, lines_in_order};
use std::collections::BTreeSet;
use std::collections::HashMap;
use vstd::prelude::*;
use vstd::std_specs::iter::IteratorSpec;

pub mod filter;
pub mod set;

pub use filter::{
    entries_of, filtered_ids, lemma_filtered_ids, lemma_matching, lemma_matching_none,
    lemma_matching_step, located, matching, ProbeFilter,
};
pub use set::{
    distinct_files, lemma_position_of, lemma_position_of_probe, position_of, position_of_probe,
    probe_total, stored, stored_all, CoverageMapSet,
};

verus! {

/// A function of the instrumented source.
#[derive(Debug, Clone, PartialEq, Eq)]
pub struct FunctionInfo {
    /// Function name.
    pub name: String,
    /// First line (1-indexed).
    pub start_line: u32,
    /// Last line (1-indexed, inclusive).
    pub end_line: u32,
    /// Id of the probe at the function's entry.
    pub entry_probe: u64,
}

/// The place of one probe in the source.
#[derive(Debug, Clone, PartialEq, Eq)]
pub struct ProbeLocation {
    /// Line number (1-indexed).
    pub line: u32,
    /// Column number (1-indexed).
    pub column: u32,
    /// Kind of probe (see [`probe_kind`]).
    pub kind: u8,
    /// Name of the enclosing function, if any.
    pub function: Option<String>,
    /// Source file path.
    pub file: String,
}

impl ProbeLocation {
    /// The kind of the probe, if the location holds one of the four
    /// kinds.
    pub fn probe_kind(&self) -> (kind: Option<ProbeKind>)
        ensures
            kind == ProbeKind::of_code(self.kind),
    {
        ProbeKind::from_code(self.kind)
    }
}

/// The line numbers on which at least one probe stands.
pub open spec fn probed_lines(probes: Map<u64, ProbeLocation>) -> Set<u32> {
    Set::new(
        |line: u32|
            exists|id: u64| #[trigger] probes.contains_key(id) && probes[id].line == line,
    )
}

/// Whether `line` lies in the range of lines of `function`.
pub open spec fn covers(function: FunctionInfo, line: u32) -> bool {
    function.start_line <= line <= function.end_line
}

/// The first of `functions` whose range of lines holds `line`.
pub open spec fn first_covering(functions: Seq<FunctionInfo>, line: u32) -> Option<FunctionInfo>
    decreases functions.len(),
{
    if functions.len() == 0 {
        None
    } else if covers(functions.first(), line) {
        Some(functions.first())
    } else {
        first_covering(functions.drop_first(), line)
    }
}

/// The probes of a map stand on finitely many lines.
pub proof fn lemma_probed_lines_finite(probes: Map<u64, ProbeLocation>)
    requires
        probes.dom().finite(),
    ensures
        probed_lines(probes).finite(),
{
    let line_of = |id: u64| probes[id].line;
    probes.dom().lemma_map_finite(line_of);
    vstd::set_lib::lemma_set_subset_finite(probes.dom().map(line_of), probed_lines(probes));
}

/// The order after a probe with id `probe_id` came to a map with the
/// given order and probes: a new id comes last, a known id keeps its
/// place.
pub open spec fn order_with(order: Seq<u64>, probes: Map<u64, ProbeLocation>, probe_id: u64) -> Seq<
    u64,
> {
    if probes.contains_key(probe_id) {
        order
    } else {
        order.push(probe_id)
    }
}

/// Where the order holds the ids of the probes, each once, it still does
/// after a probe came.
pub proof fn lemma_order_with(
    order: Seq<u64>,
    probes: Map<u64, ProbeLocation>,
    probe_id: u64,
    location: ProbeLocation,
)
    requires
        order.no_duplicates(),
        order.to_set() == probes.dom(),
    ensures
        order_with(order, probes, probe_id).no_duplicates(),
        order_with(order, probes, probe_id).to_set() == probes.insert(probe_id, location).dom(),
{
    let after = order_with(order, probes, probe_id);
    if probes.contains_key(probe_id) {
        assert(after.to_set() =~= probes.insert(probe_id, location).dom());
    } else {
        assert(!order.contains(probe_id)) by {
            assert(order.to_set().contains(probe_id) <==> order.contains(probe_id));
        }
        assert forall|id: u64| after.to_set().contains(id) <==> probes.insert(
            probe_id,
            location,
        ).dom().contains(id) by {
            if after.to_set().contains(id) {
                let i = choose|i: int| 0 <= i < after.len() && after[i] == id;
                if i < order.len() {
                    assert(order[i] == id);
                    assert(order.to_set().contains(id));
                }
            }
            if probes.contains_key(id) {
                assert(order.to_set().contains(id));
                let i = choose|i: int| 0 <= i < order.len() && order[i] == id;
                assert(after[i] == id);
            }
            if id == probe_id {
                assert(after[order.len() as int] == id);
            }
        }
        assert(after.to_set() =~= probes.insert(probe_id, location).dom());
    }
}

/// The probes and functions of one source file. It is made once by the
/// instrumentation and only read while reports are made. Its probes are
/// walked in the order in which they came, so that what is read from it
/// is the same on every walk.
#[derive(Debug, Clone)]
pub struct CoverageMap {
    /// Locations, keyed by probe id.
    pub probes: HashMap<u64, ProbeLocation>,
    /// The ids of the probes, in the order in which the probes came. Only
    /// the probes whose ids stand here are walked.
    pub order: Vec<u64>,
    /// The functions of the file, in the order of their declaration.
    pub functions: Vec<FunctionInfo>,
    /// Source file path.
    pub file: String,
    /// Number of probes in this map.
    pub total_probes: usize,
}

impl CoverageMap {
    /// The order holds the ids of the probes, each once.
    pub open spec fn ordered(&self) -> bool {
        &&& self.order@.no_duplicates()
        &&& self.order@.to_set() == self.probes@.dom()
    }

    /// The order holds the ids of the probes, each once, and the probe
    /// count matches the probes held.
    pub open spec fn wf(&self) -> bool {
        &&& self.ordered()
        &&& self.total_probes == self.probes@.len()
    }

    /// An empty map for a file.
    pub fn new(file: String) -> (map: Self)
        ensures
            map.probes@ == Map::<u64, ProbeLocation>::empty(),
            map.order@ == Seq::<u64>::empty(),
            map.functions@ == Seq::<FunctionInfo>::empty(),
            map.file == file,
            map.total_probes == 0,
            map.wf(),
    {
        let map = CoverageMap {
            probes: HashMap::new(),
            order: Vec::new(),
            functions: Vec::new(),
            file,
            total_probes: 0,
        };
        assert(map.order@.to_set() =~= map.probes@.dom());
        map
    }

    /// Puts a probe on the map. A new probe comes last in the order; a
    /// probe already known by that id gets the new location and keeps its
    /// place.
    pub fn add_probe(&mut self, probe_id: u64, location: ProbeLocation)
        ensures
            final(self).probes@ == old(self).probes@.insert(probe_id, location),
            final(self).order@ == order_with(old(self).order@, old(self).probes@, probe_id),
            final(self).functions == old(self).functions,
            final(self).file == old(self).file,
            final(self).total_probes == final(self).probes@.len(),
            old(self).ordered() ==> final(self).wf(),
    {
        let known = self.probes.contains_key(&probe_id);
        self.probes.insert(probe_id, location);
        if !known {
            self.order.push(probe_id);
        }
        self.total_probes = self.probes.len();
        proof {
            if old(self).ordered() {
                lemma_order_with(old(self).order@, old(self).probes@, probe_id, location);
            }
        }
    }

    /// Appends a function to the map.
    pub fn add_function(&mut self, info: FunctionInfo)
        ensures
            final(self).functions@ == old(self).functions@.push(info),
            final(self).probes == old(self).probes,
            final(self).order == old(self).order,
            final(self).file == old(self).file,
            final(self).total_probes == old(self).total_probes,
    {
        self.functions.push(info);
    }

    /// The location of a probe, if the map knows it.
    pub fn get_location(&self, probe_id: u64) -> (location: Option<&ProbeLocation>)
        ensures
            location == if self.probes@.contains_key(probe_id) {
                Some(&self.probes@[probe_id])
            } else {
                None
            },
    {
        self.probes.get(&probe_id)
    }

    /// The probes that a filter admits, in the order in which the probes
    /// came.
    pub fn select(&self, filter: ProbeFilter) -> (list: Vec<(u64, &ProbeLocation)>)
        ensures
            entries_of(list@) == located(
                self.probes@,
                filtered_ids(self.order@, self.probes@, filter),
            ),
    {
        let mut list: Vec<(u64, &ProbeLocation)> = Vec::new();
        let mut i: usize = 0;
        proof {
            lemma_matching_none(self.probes@, filter);
            assert(self.order@.subrange(0, 0) =~= Seq::<u64>::empty());
        }
        while i < self.order.len()
            invariant
                0 <= i <= self.order.len(),
                entries_of(list@) == located(
                    self.probes@,
                    matching(self.order@.subrange(0, i as int), self.probes@, filter),
                ),
            decreases self.order.len() - i,
        {
            let id = self.order[i];
            let ghost chosen = matching(self.order@.subrange(0, i as int), self.probes@, filter);
            proof {
                lemma_matching_step(self.order@, i as int, self.probes@, filter);
            }
            match self.probes.get(&id) {
                Some(location) => {
                    if filter.keeps(location) {
                        list.push((id, location));
                        assert(located(self.probes@, chosen.push(id)) =~= located(
                            self.probes@,
                            chosen,
                        ).push((id, *location)));
                    }
                },
                None => {},
            }
            i += 1;
        }
        assert(self.order@.subrange(0, i as int) =~= self.order@);
        list
    }

    /// The probes on one line, in the order in which the probes
    /// came.
    pub fn probes_for_line(&self, line: u32) -> (list: Vec<(u64, &ProbeLocation)>)
        ensures
            entries_of(list@) == located(
                self.probes@,
                filtered_ids(self.order@, self.probes@, ProbeFilter::OnLine(line)),
            ),
    {
        self.select(ProbeFilter::OnLine(line))
    }

    /// The line probes, in the order in which the probes
    /// came.
    pub fn line_probes(&self) -> (list: Vec<(u64, &ProbeLocation)>)
        ensures
            entries_of(list@) == located(
                self.probes@,
                filtered_ids(self.order@, self.probes@, ProbeFilter::OfKind(probe_kind::LINE)),
            ),
    {
        self.select(ProbeFilter::OfKind(probe_kind::LINE))
    }

    /// The function-entry probes, in the order in which the probes
    /// came.
    pub fn function_probes(&self) -> (list: Vec<(u64, &ProbeLocation)>)
        ensures
            entries_of(list@) == located(
                self.probes@,
                filtered_ids(
                    self.order@,
                    self.probes@,
                    ProbeFilter::OfKind(probe_kind::FUNCTION_ENTRY),
                ),
            ),
    {
        self.select(ProbeFilter::OfKind(probe_kind::FUNCTION_ENTRY))
    }

    /// The branch probes, true and false, in the order in which the probes
    /// came.
    pub fn branch_probes(&self) -> (list: Vec<(u64, &ProbeLocation)>)
        ensures
            entries_of(list@) == located(
                self.probes@,
                filtered_ids(self.order@, self.probes@, ProbeFilter::Branch),
            ),
    {
        self.select(ProbeFilter::Branch)
    }

    /// The line numbers that have at least one probe, each once, in
    /// ascending order.
    pub fn covered_lines(&self) -> (lines: Vec<u32>)
        ensures
            lines@ == ascending_line_numbers(probed_lines(self.probes@)),
    {
        let mut set: BTreeSet<u32> = BTreeSet::new();
        let ghost walk = self.probes.values().remaining();
        for location in it: self.probes.values()
            invariant
                it.seq() == walk,
                walk.unref().to_set() == self.probes@.values(),
                forall|j: int| 0 <= j < it.index() ==> set@.contains(walk[j].line),
                forall|line: u32| set@.contains(line) ==> probed_lines(self.probes@).contains(line),
        {
            assert(walk.unref().to_set().contains(*location));
            set.insert(location.line);
        }
        assert(set@ =~= probed_lines(self.probes@)) by {
            assert forall|line: u32|
                probed_lines(self.probes@).contains(line) implies set@.contains(line) by {
                let id = choose|id: u64| #[trigger]
                    self.probes@.contains_key(id) && self.probes@[id].line == line;
                assert(self.probes@.values().contains(self.probes@[id]));
            }
        }
        lines_in_order(&set)
    }

    /// The first function, in the order of declaration, whose range of
    /// lines holds `line`.
    pub fn function_at_line(&self, line: u32) -> (function: Option<&FunctionInfo>)
        ensures
            function == match first_covering(self.functions@, line) {
                Some(found) => Some(&found),
                None => None,
            },
    {
        let mut i: usize = 0;
        assert(self.functions@.subrange(0, self.functions@.len() as int) =~= self.functions@);
        while i < self.functions.len()
            invariant
                0 <= i <= self.functions.len(),
                first_covering(self.functions@, line) == first_covering(
                    self.functions@.subrange(i as int, self.functions@.len() as int),
                    line,
                ),
            decreases self.functions.len() - i,
        {
            let function = &self.functions[i];
            proof {
                let rest = self.functions@.subrange(i as int, self.functions@.len() as int);
                assert(rest.drop_first() =~= self.functions@.subrange(
                    i + 1,
                    self.functions@.len() as int,
                ));
            }
            if line >= function.start_line && line <= function.end_line {
                return Some(function);
            }
            i += 1;
        }
        None
    }
}

} // verus!
