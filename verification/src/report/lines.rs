//! Line coverage.

use crate::data::probe_kind;
use crate::data::{count_in, CoverageData, ProbeHit};
use crate::map::{
    filtered_ids, lemma_matching, lemma_matching_none, lemma_matching_step, matching,
    CoverageMap, ProbeFilter, ProbeLocation,
};
use std::collections::BTreeMap;
use vstd::prelude::*;

verus! {

/// Coverage of one line.
#[derive(Debug, Clone, Copy, PartialEq, Eq, Structural)]
pub struct LineCoverage {
    /// Line number (1-indexed).
    pub line: u32,
    /// Number of times the line was executed.
    pub hit_count: u64,
    /// Whether the line was executed at all.
    pub covered: bool,
}

/// The record of a line that was hit `hit_count` times.
pub open spec fn line_record(line: u32, hit_count: u64) -> LineCoverage {
    LineCoverage { line, hit_count, covered: hit_count > 0 }
}

/// The largest count among the probes `ids`; 0 where there are none.
pub open spec fn max_count(ids: Seq<u64>, hits: Map<u64, ProbeHit>) -> u64
    decreases ids.len(),
{
    if ids.len() == 0 {
        0
    } else {
        let before = max_count(ids.drop_last(), hits);
        let last = count_in(hits, ids.last());
        if before < last {
            last
        } else {
            before
        }
    }
}

/// The ids of the line probes on `line`, in the order in which the probes
/// came.
pub open spec fn line_probe_ids(order: Seq<u64>, probes: Map<u64, ProbeLocation>, line: u32) -> Seq<
    u64,
> {
    filtered_ids(order, probes, ProbeFilter::OfKindOnLine(probe_kind::LINE, line))
}

/// Line coverage: every line with a line probe has a record, and its hit
/// count is the largest count among the line probes of the line (not
/// their sum).
pub open spec fn line_coverage(
    order: Seq<u64>,
    probes: Map<u64, ProbeLocation>,
    hits: Map<u64, ProbeHit>,
) -> Map<u32, LineCoverage> {
    Map::new(
        |line: u32| line_probe_ids(order, probes, line).len() > 0,
        |line: u32| line_record(line, max_count(line_probe_ids(order, probes, line), hits)),
    )
}

/// Whether `id` is the id of a line probe on `line`.
pub open spec fn is_line_probe(
    order: Seq<u64>,
    probes: Map<u64, ProbeLocation>,
    line: u32,
    id: u64,
) -> bool {
    order.contains(id) && probes.contains_key(id) && probes[id].kind == probe_kind::LINE
        && probes[id].line == line
}

/// The largest count is no less than the count of any of the probes, and
/// one of the probes has it.
pub proof fn lemma_max_count(ids: Seq<u64>, hits: Map<u64, ProbeHit>)
    ensures
        forall|i: int| 0 <= i < ids.len() ==> count_in(hits, ids[i]) <= max_count(ids, hits),
        ids.len() > 0 ==> exists|i: int|
            0 <= i < ids.len() && count_in(hits, ids[i]) == max_count(ids, hits),
    decreases ids.len(),
{
    if ids.len() > 0 {
        let front = ids.drop_last();
        lemma_max_count(front, hits);
        assert forall|i: int| 0 <= i < ids.len() implies count_in(hits, ids[i]) <= max_count(
            ids,
            hits,
        ) by {
            if i < front.len() {
                assert(front[i] == ids[i]);
            }
        }
        if front.len() > 0 && max_count(ids, hits) == max_count(front, hits) {
            let i = choose|i: int|
                0 <= i < front.len() && count_in(hits, front[i]) == max_count(front, hits);
            assert(front[i] == ids[i]);
        } else {
            assert(count_in(hits, ids[ids.len() - 1]) == max_count(ids, hits));
        }
    }
}

/// Line coverage, line by line: a line has a record exactly if a line
/// probe stands on it; the hit count of the record is the count of one of
/// the line probes of the line, no line probe of the line has a larger
/// count, and the line is covered exactly if that count is above 0.
pub proof fn lemma_line_coverage(
    order: Seq<u64>,
    probes: Map<u64, ProbeLocation>,
    hits: Map<u64, ProbeHit>,
    line: u32,
)
    ensures
        line_coverage(order, probes, hits).contains_key(line) <==> exists|id: u64|
            is_line_probe(order, probes, line, id),
        line_coverage(order, probes, hits).contains_key(line) ==> ({
            let record = line_coverage(order, probes, hits)[line];
            &&& record.line == line
            &&& record.covered == (record.hit_count > 0)
            &&& forall|id: u64|
                is_line_probe(order, probes, line, id) ==> count_in(hits, id) <= record.hit_count
            &&& exists|id: u64|
                is_line_probe(order, probes, line, id) && count_in(hits, id) == record.hit_count
        }),
{
    let filter = ProbeFilter::OfKindOnLine(probe_kind::LINE, line);
    let ids = line_probe_ids(order, probes, line);
    lemma_matching(order, probes, filter);
    lemma_max_count(ids, hits);
    if ids.len() > 0 {
        let first = ids[0];
        assert(ids.contains(first));
        assert(is_line_probe(order, probes, line, first));
        let i = choose|i: int| 0 <= i < ids.len() && count_in(hits, ids[i]) == max_count(ids, hits);
        let top = ids[i];
        assert(ids.contains(top));
        assert(is_line_probe(order, probes, line, top) && count_in(hits, top) == max_count(
            ids,
            hits,
        ));
        assert forall|id: u64| is_line_probe(order, probes, line, id) implies count_in(hits, id)
            <= max_count(ids, hits) by {
            assert(ids.contains(id));
            let j = choose|j: int| 0 <= j < ids.len() && ids[j] == id;
        }
    } else {
        assert forall|id: u64| !is_line_probe(order, probes, line, id) by {
            if is_line_probe(order, probes, line, id) {
                assert(ids.contains(id));
            }
        }
    }
}

/// Line coverage has finitely many records.
pub proof fn lemma_line_coverage_finite(
    order: Seq<u64>,
    probes: Map<u64, ProbeLocation>,
    hits: Map<u64, ProbeHit>,
)
    ensures
        line_coverage(order, probes, hits).dom().finite(),
{
    let line_of = |id: u64| probes[id].line;
    let lines = order.to_set().map(line_of);
    vstd::seq_lib::seq_to_set_is_finite(order);
    order.to_set().lemma_map_finite(line_of);
    assert forall|line: u32|
        line_coverage(order, probes, hits).dom().contains(line) implies lines.contains(line) by {
        lemma_line_coverage(order, probes, hits, line);
        let id = choose|id: u64| is_line_probe(order, probes, line, id);
        assert(order.to_set().contains(id) && line_of(id) == line);
    }
    vstd::set_lib::lemma_set_subset_finite(lines, line_coverage(order, probes, hits).dom());
}

/// The line probes on `line` among the first `n` of `ids`.
spec fn line_front(ids: Seq<u64>, n: int, probes: Map<u64, ProbeLocation>, line: u32) -> Seq<u64> {
    matching(ids.subrange(0, n), probes, ProbeFilter::OfKindOnLine(probe_kind::LINE, line))
}

/// Line coverage of a map under the hits of a run.
pub(crate) fn line_coverage_of(map: &CoverageMap, data: &CoverageData) -> (lines: BTreeMap<
    u32,
    LineCoverage,
>)
    ensures
        lines@ == line_coverage(map.order@, map.probes@, data.probe_hits@),
{
    let ghost probes = map.probes@;
    let ghost hits = data.probe_hits@;
    let ghost ids = map.order@;
    let mut lines: BTreeMap<u32, LineCoverage> = BTreeMap::new();
    let mut i: usize = 0;
    proof {
        assert(ids.subrange(0, 0) =~= Seq::<u64>::empty());
        assert forall|line: u32| (#[trigger] line_front(ids, 0, probes, line)).len() == 0 by {
            lemma_matching_none(probes, ProbeFilter::OfKindOnLine(probe_kind::LINE, line));
        }
    }
    while i < map.order.len()
        invariant
            0 <= i <= map.order.len(),
            probes == map.probes@,
            hits == data.probe_hits@,
            ids == map.order@,
            forall|line: u32|
                lines@.contains_key(line) <==> (#[trigger] line_front(
                    ids,
                    i as int,
                    probes,
                    line,
                )).len() > 0,
            forall|line: u32|
                lines@.contains_key(line) ==> lines@[line] == line_record(
                    line,
                    max_count(#[trigger] line_front(ids, i as int, probes, line), hits),
                ),
        decreases map.order.len() - i,
    {
        let id = map.order[i];
        let ghost lines_before = lines@;
        proof {
            assert forall|line: u32| #[trigger]
                line_front(ids, i + 1, probes, line) == if probes.contains_key(id)
                    && probes[id].kind == probe_kind::LINE && probes[id].line == line {
                    line_front(ids, i as int, probes, line).push(id)
                } else {
                    line_front(ids, i as int, probes, line)
                } by {
                lemma_matching_step(
                    ids,
                    i as int,
                    probes,
                    ProbeFilter::OfKindOnLine(probe_kind::LINE, line),
                );
            }
        }
        match map.probes.get(&id) {
            Some(location) => {
                if location.kind == probe_kind::LINE {
                    let count = data.get_hit_count(id);
                    let hit_count = match lines.get(&location.line) {
                        Some(known) => if known.hit_count < count {
                            count
                        } else {
                            known.hit_count
                        },
                        None => count,
                    };
                    lines.insert(
                        location.line,
                        LineCoverage { line: location.line, hit_count, covered: hit_count > 0 },
                    );
                    proof {
                        let on_line = line_front(ids, i as int, probes, location.line);
                        assert(on_line.push(id).drop_last() =~= on_line);
                        assert(!lines_before.contains_key(location.line) ==> max_count(
                            on_line,
                            hits,
                        ) == 0);
                    }
                }
            },
            None => {},
        }
        i += 1;
    }
    proof {
        assert(ids.subrange(0, i as int) =~= ids);
        assert forall|line: u32|
            line_front(ids, i as int, probes, line) == line_probe_ids(ids, probes, line) by {}
        assert(lines@ =~= line_coverage(ids, probes, hits));
    }
    lines
}

} // verus!
