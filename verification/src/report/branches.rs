//! Branch coverage: the true and false probes of each line, paired.

use crate::data::probe_kind;
use crate::data::{count_in, CoverageData, ProbeHit};
use crate::map::{
    filtered_ids, lemma_matching, lemma_matching_step, matching, CoverageMap, ProbeFilter,
    ProbeLocation,
};
use crate::order::{ascending_line_numbers, line_keys};
use crate::report::summary::capped;
use std::collections::BTreeMap;
use vstd::prelude::*;

verus! {

/// Coverage of one conditional.
#[derive(Debug, Clone, Copy, PartialEq, Eq, Structural)]
pub struct BranchCoverage {
    /// Line on which the conditional stands.
    pub line: u32,
    /// Which conditional of the line it is, counted from 0.
    pub branch_index: u32,
    /// Number of times the true side was taken.
    pub true_count: u64,
    /// Number of times the false side was taken.
    pub false_count: u64,
    /// Whether both sides were taken.
    pub fully_covered: bool,
}

/// The ids of the branch-true probes on `line`, in the order in which the
/// probes came.
pub open spec fn true_probe_ids(order: Seq<u64>, probes: Map<u64, ProbeLocation>, line: u32) -> Seq<
    u64,
> {
    filtered_ids(order, probes, ProbeFilter::OfKindOnLine(probe_kind::BRANCH_TRUE, line))
}

/// The ids of the branch-false probes on `line`, in the order in which
/// the probes came.
pub open spec fn false_probe_ids(order: Seq<u64>, probes: Map<u64, ProbeLocation>, line: u32)
    -> Seq<u64> {
    filtered_ids(order, probes, ProbeFilter::OfKindOnLine(probe_kind::BRANCH_FALSE, line))
}

/// The lines with at least one branch probe.
pub open spec fn branch_lines(order: Seq<u64>, probes: Map<u64, ProbeLocation>) -> Set<u32> {
    Set::new(
        |line: u32|
            true_probe_ids(order, probes, line).len() + false_probe_ids(
                order,
                probes,
                line,
            ).len() > 0,
    )
}

/// Whether `id` is the id of a branch probe, true or false, on `line`.
pub open spec fn is_branch_probe(
    order: Seq<u64>,
    probes: Map<u64, ProbeLocation>,
    line: u32,
    id: u64,
) -> bool {
    order.contains(id) && probes.contains_key(id) && ProbeFilter::Branch.admits(probes[id])
        && probes[id].line == line
}

/// The count of the probe at place `at` of `ids`; 0 where `ids` has no
/// such place, which is the side of a conditional that has no probe.
pub open spec fn side_count(ids: Seq<u64>, at: int, hits: Map<u64, ProbeHit>) -> u64 {
    if 0 <= at < ids.len() {
        count_in(hits, ids[at])
    } else {
        0
    }
}

/// The record of the conditional at place `at` of a line: the pair of the
/// true probe and the false probe at that place.
pub open spec fn branch_record(
    line: u32,
    at: int,
    trues: Seq<u64>,
    falses: Seq<u64>,
    hits: Map<u64, ProbeHit>,
) -> BranchCoverage {
    BranchCoverage {
        line,
        branch_index: capped(at),
        true_count: side_count(trues, at, hits),
        false_count: side_count(falses, at, hits),
        fully_covered: side_count(trues, at, hits) > 0 && side_count(falses, at, hits) > 0,
    }
}

/// The conditionals of one line: the true probes and the false probes of
/// the line, each in the order in which the probes came, are paired by
/// place, and a probe without a partner forms a conditional whose other
/// side has count 0.
pub open spec fn paired(line: u32, trues: Seq<u64>, falses: Seq<u64>, hits: Map<u64, ProbeHit>)
    -> Seq<BranchCoverage> {
    Seq::new(
        if trues.len() >= falses.len() {
            trues.len()
        } else {
            falses.len()
        },
        |at: int| branch_record(line, at, trues, falses, hits),
    )
}

/// The conditionals of one line of a map.
pub open spec fn line_branches(
    order: Seq<u64>,
    probes: Map<u64, ProbeLocation>,
    hits: Map<u64, ProbeHit>,
    line: u32,
) -> Seq<BranchCoverage> {
    paired(
        line,
        true_probe_ids(order, probes, line),
        false_probe_ids(order, probes, line),
        hits,
    )
}

/// The conditionals of `lines`, line after line.
pub open spec fn branches_on(
    lines: Seq<u32>,
    order: Seq<u64>,
    probes: Map<u64, ProbeLocation>,
    hits: Map<u64, ProbeHit>,
) -> Seq<BranchCoverage>
    decreases lines.len(),
{
    if lines.len() == 0 {
        Seq::empty()
    } else {
        branches_on(lines.drop_last(), order, probes, hits) + line_branches(
            order,
            probes,
            hits,
            lines.last(),
        )
    }
}

/// Branch coverage: the conditionals of all lines with branch probes, in
/// ascending order of line, and within a line in the order of pairing.
pub open spec fn branch_coverage(
    order: Seq<u64>,
    probes: Map<u64, ProbeLocation>,
    hits: Map<u64, ProbeHit>,
) -> Seq<BranchCoverage> {
    branches_on(ascending_line_numbers(branch_lines(order, probes)), order, probes, hits)
}

/// The lines with branch probes are finitely many, and a line is among
/// them exactly if a branch probe, true or false, stands on it.
pub proof fn lemma_branch_lines(order: Seq<u64>, probes: Map<u64, ProbeLocation>)
    ensures
        branch_lines(order, probes).finite(),
        forall|line: u32|
            branch_lines(order, probes).contains(line) <==> exists|id: u64|
                is_branch_probe(order, probes, line, id),
{
    let line_of = |id: u64| probes[id].line;
    let lines = order.to_set().map(line_of);
    vstd::seq_lib::seq_to_set_is_finite(order);
    order.to_set().lemma_map_finite(line_of);
    assert forall|line: u32|
        branch_lines(order, probes).contains(line) <==> exists|id: u64|
            is_branch_probe(order, probes, line, id) by {
        let trues = true_probe_ids(order, probes, line);
        let falses = false_probe_ids(order, probes, line);
        lemma_matching(order, probes, ProbeFilter::OfKindOnLine(probe_kind::BRANCH_TRUE, line));
        lemma_matching(order, probes, ProbeFilter::OfKindOnLine(probe_kind::BRANCH_FALSE, line));
        if trues.len() > 0 {
            let id = trues[0];
            assert(trues.contains(id));
            assert(is_branch_probe(order, probes, line, id));
        }
        if falses.len() > 0 {
            let id = falses[0];
            assert(falses.contains(id));
            assert(is_branch_probe(order, probes, line, id));
        }
        if exists|id: u64| is_branch_probe(order, probes, line, id) {
            let id = choose|id: u64| is_branch_probe(order, probes, line, id);
            if probes[id].kind == probe_kind::BRANCH_TRUE {
                assert(trues.contains(id));
            } else {
                assert(falses.contains(id));
            }
        }
    }
    assert forall|line: u32| branch_lines(order, probes).contains(line) implies lines.contains(
        line,
    ) by {
        let id = choose|id: u64| is_branch_probe(order, probes, line, id);
        assert(order.to_set().contains(id) && line_of(id) == line);
    }
    vstd::set_lib::lemma_set_subset_finite(lines, branch_lines(order, probes));
}

/// The branch probes of one line: the ids of its true probes and of its
/// false probes, each in the order in which the probes came.
struct BranchGroup {
    true_probes: Vec<u64>,
    false_probes: Vec<u64>,
}

/// The true and the false probes on `line` among the first `n` of `ids`.
spec fn group_front(ids: Seq<u64>, n: int, probes: Map<u64, ProbeLocation>, line: u32) -> (
    Seq<u64>,
    Seq<u64>,
) {
    (
        matching(
            ids.subrange(0, n),
            probes,
            ProbeFilter::OfKindOnLine(probe_kind::BRANCH_TRUE, line),
        ),
        matching(
            ids.subrange(0, n),
            probes,
            ProbeFilter::OfKindOnLine(probe_kind::BRANCH_FALSE, line),
        ),
    )
}

/// The branch probes of a map, grouped by line.
fn branch_groups(map: &CoverageMap) -> (groups: BTreeMap<u32, BranchGroup>)
    ensures
        groups@.dom() == branch_lines(map.order@, map.probes@),
        forall|line: u32| #[trigger]
            groups@.contains_key(line) ==> groups@[line].true_probes@ == true_probe_ids(
                map.order@,
                map.probes@,
                line,
            ) && groups@[line].false_probes@ == false_probe_ids(map.order@, map.probes@, line),
{
    let ghost probes = map.probes@;
    let ids = &map.order;
    let mut groups: BTreeMap<u32, BranchGroup> = BTreeMap::new();
    let mut i: usize = 0;
    while i < ids.len()
        invariant
            0 <= i <= ids.len(),
            probes == map.probes@,
            ids@ == map.order@,
            forall|line: u32|
                groups@.contains_key(line) <==> ({
                    let front = #[trigger] group_front(ids@, i as int, probes, line);
                    front.0.len() + front.1.len() > 0
                }),
            forall|line: u32|
                groups@.contains_key(line) ==> ({
                    let front = #[trigger] group_front(ids@, i as int, probes, line);
                    groups@[line].true_probes@ == front.0 && groups@[line].false_probes@
                        == front.1
                }),
        decreases ids.len() - i,
    {
        let id = ids[i];
        proof {
            assert forall|line: u32| #[trigger]
                group_front(ids@, i + 1, probes, line) == ({
                    let front = group_front(ids@, i as int, probes, line);
                    if probes.contains_key(id) && probes[id].line == line && probes[id].kind
                        == probe_kind::BRANCH_TRUE {
                        (front.0.push(id), front.1)
                    } else if probes.contains_key(id) && probes[id].line == line
                        && probes[id].kind == probe_kind::BRANCH_FALSE {
                        (front.0, front.1.push(id))
                    } else {
                        front
                    }
                }) by {
                lemma_matching_step(
                    ids@,
                    i as int,
                    probes,
                    ProbeFilter::OfKindOnLine(probe_kind::BRANCH_TRUE, line),
                );
                lemma_matching_step(
                    ids@,
                    i as int,
                    probes,
                    ProbeFilter::OfKindOnLine(probe_kind::BRANCH_FALSE, line),
                );
            }
        }
        match map.probes.get(&id) {
            Some(location) => {
                if location.kind == probe_kind::BRANCH_TRUE || location.kind
                    == probe_kind::BRANCH_FALSE {
                    let mut group = match groups.remove(&location.line) {
                        Some(known) => known,
                        None => BranchGroup { true_probes: Vec::new(), false_probes: Vec::new() },
                    };
                    if location.kind == probe_kind::BRANCH_TRUE {
                        group.true_probes.push(id);
                    } else {
                        group.false_probes.push(id);
                    }
                    groups.insert(location.line, group);
                }
            },
            None => {},
        }
        i += 1;
    }
    proof {
        assert(ids@.subrange(0, i as int) =~= ids@);
        assert forall|line: u32|
            (#[trigger] group_front(ids@, i as int, probes, line)) == (
                true_probe_ids(ids@, probes, line),
                false_probe_ids(ids@, probes, line),
            ) by {}
        assert(groups@.dom() =~= branch_lines(ids@, probes)) by {
            assert forall|line: u32| groups@.dom().contains(line) <==> branch_lines(
                ids@,
                probes,
            ).contains(line) by {
                assert(group_front(ids@, i as int, probes, line).0 == true_probe_ids(
                    ids@,
                    probes,
                    line,
                ));
            }
        }
        assert forall|line: u32| #[trigger]
            groups@.contains_key(line) implies groups@[line].true_probes@ == true_probe_ids(
            ids@,
            probes,
            line,
        ) && groups@[line].false_probes@ == false_probe_ids(ids@, probes, line) by {
            assert(group_front(ids@, i as int, probes, line).0 == true_probe_ids(
                ids@,
                probes,
                line,
            ));
        }
    }
    groups
}

/// A place within a line as a branch index.
fn branch_index_of(at: usize) -> (index: u32)
    ensures
        index == capped(at as int),
{
    if at > u32::MAX as usize {
        u32::MAX
    } else {
        at as u32
    }
}

/// The count of the probe at place `at` of `ids`; 0 where `ids` has no
/// such place.
fn count_at(ids: &Vec<u64>, at: usize, data: &CoverageData) -> (count: u64)
    ensures
        count == side_count(ids@, at as int, data.probe_hits@),
{
    if at < ids.len() {
        data.get_hit_count(ids[at])
    } else {
        0
    }
}

/// Appends the conditionals of one line to `branches`.
fn append_pairs(
    branches: &mut Vec<BranchCoverage>,
    line: u32,
    true_probes: &Vec<u64>,
    false_probes: &Vec<u64>,
    data: &CoverageData,
)
    ensures
        final(branches)@ == old(branches)@ + paired(
            line,
            true_probes@,
            false_probes@,
            data.probe_hits@,
        ),
{
    let pairs = if true_probes.len() >= false_probes.len() {
        true_probes.len()
    } else {
        false_probes.len()
    };
    let ghost all = paired(line, true_probes@, false_probes@, data.probe_hits@);
    let mut at: usize = 0;
    while at < pairs
        invariant
            0 <= at <= pairs,
            pairs == all.len(),
            all == paired(line, true_probes@, false_probes@, data.probe_hits@),
            branches@ == old(branches)@ + all.subrange(0, at as int),
        decreases pairs - at,
    {
        let true_count = count_at(true_probes, at, data);
        let false_count = count_at(false_probes, at, data);
        branches.push(
            BranchCoverage {
                line,
                branch_index: branch_index_of(at),
                true_count,
                false_count,
                fully_covered: true_count > 0 && false_count > 0,
            },
        );
        at += 1;
    }
}

/// Branch coverage of a map under the hits of a run.
pub(crate) fn branch_coverage_of(map: &CoverageMap, data: &CoverageData) -> (branches: Vec<
    BranchCoverage,
>)
    ensures
        branches@ == branch_coverage(map.order@, map.probes@, data.probe_hits@),
{
    let ghost order = map.order@;
    let ghost probes = map.probes@;
    let ghost hits = data.probe_hits@;
    let groups = branch_groups(map);
    let lines = line_keys(&groups);
    let mut branches: Vec<BranchCoverage> = Vec::new();
    let mut i: usize = 0;
    while i < lines.len()
        invariant
            0 <= i <= lines.len(),
            order == map.order@,
            probes == map.probes@,
            hits == data.probe_hits@,
            lines@ == ascending_line_numbers(branch_lines(order, probes)),
            lines@.to_set() == groups@.dom(),
            forall|line: u32| #[trigger]
                groups@.contains_key(line) ==> groups@[line].true_probes@ == true_probe_ids(
                    order,
                    probes,
                    line,
                ) && groups@[line].false_probes@ == false_probe_ids(order, probes, line),
            branches@ == branches_on(lines@.subrange(0, i as int), order, probes, hits),
        decreases lines.len() - i,
    {
        let line = lines[i];
        proof {
            assert(lines@.subrange(0, i + 1).drop_last() =~= lines@.subrange(0, i as int));
        }
        match groups.get(&line) {
            Some(group) => {
                append_pairs(&mut branches, line, &group.true_probes, &group.false_probes, data);
            },
            None => {},
        }
        i += 1;
    }
    assert(lines@.subrange(0, i as int) =~= lines@);
    branches
}

} // verus!
