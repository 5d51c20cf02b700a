//! Choosing probes by what their location says.

use crate::data::probe_kind;
use crate::map::ProbeLocation;
use vstd::prelude::*;

verus! {

/// A choice of probes by what their location says.
#[derive(Debug, Clone, Copy, PartialEq, Eq, Structural)]
pub enum ProbeFilter {
    /// The probes on one line.
    OnLine(u32),
    /// The probes of one kind.
    OfKind(u8),
    /// The branch probes, true and false.
    Branch,
    /// The probes of one kind on one line: the kind, then the line.
    OfKindOnLine(u8, u32),
}

impl ProbeFilter {
    /// Whether a probe at `location` is among the chosen.
    pub open spec fn admits(self, location: ProbeLocation) -> bool {
        match self {
            ProbeFilter::OnLine(line) => location.line == line,
            ProbeFilter::OfKind(kind) => location.kind == kind,
            ProbeFilter::Branch => location.kind == probe_kind::BRANCH_TRUE || location.kind
                == probe_kind::BRANCH_FALSE,
            ProbeFilter::OfKindOnLine(kind, line) => location.kind == kind && location.line
                == line,
        }
    }

    /// Whether a probe at `location` is among the chosen.
    pub fn keeps(&self, location: &ProbeLocation) -> (kept: bool)
        ensures
            kept == self.admits(*location),
    {
        match self {
            ProbeFilter::OnLine(line) => location.line == *line,
            ProbeFilter::OfKind(kind) => location.kind == *kind,
            ProbeFilter::Branch => location.kind == probe_kind::BRANCH_TRUE || location.kind
                == probe_kind::BRANCH_FALSE,
            ProbeFilter::OfKindOnLine(kind, line) => location.kind == *kind && location.line
                == *line,
        }
    }
}

/// Those of `ids`, in their order, that have a probe which the filter
/// admits.
pub open spec fn matching(
    ids: Seq<u64>,
    probes: Map<u64, ProbeLocation>,
    filter: ProbeFilter,
) -> Seq<u64> {
    ids.filter(|id: u64| probes.contains_key(id) && filter.admits(probes[id]))
}

/// The ids of the probes that the filter admits, in the order in which
/// the probes came: `order` holds the ids of the probes in that order.
pub open spec fn filtered_ids(
    order: Seq<u64>,
    probes: Map<u64, ProbeLocation>,
    filter: ProbeFilter,
) -> Seq<u64> {
    matching(order, probes, filter)
}

/// Each of `ids` with the location of its probe.
pub open spec fn located(probes: Map<u64, ProbeLocation>, ids: Seq<u64>) -> Seq<
    (u64, ProbeLocation),
> {
    ids.map_values(|id: u64| (id, probes[id]))
}

/// A list of probes with borrowed locations, as ids with locations.
pub open spec fn entries_of(list: Seq<(u64, &ProbeLocation)>) -> Seq<(u64, ProbeLocation)> {
    list.map_values(|entry: (u64, &ProbeLocation)| (entry.0, *entry.1))
}

/// Looking one id further: the choice among a longer front of `ids` is the
/// choice among the shorter front, with the new id behind it if it has a
/// probe which the filter admits.
pub proof fn lemma_matching_step(
    ids: Seq<u64>,
    i: int,
    probes: Map<u64, ProbeLocation>,
    filter: ProbeFilter,
)
    requires
        0 <= i < ids.len(),
    ensures
        matching(ids.subrange(0, i + 1), probes, filter) == if probes.contains_key(ids[i])
            && filter.admits(probes[ids[i]]) {
            matching(ids.subrange(0, i), probes, filter).push(ids[i])
        } else {
            matching(ids.subrange(0, i), probes, filter)
        },
{
    assert(ids.subrange(0, i + 1) =~= ids.subrange(0, i).push(ids[i]));
    ids.subrange(0, i).lemma_filter_push(
        ids[i],
        |id: u64| probes.contains_key(id) && filter.admits(probes[id]),
    );
}

/// Of no ids the filter chooses none.
pub proof fn lemma_matching_none(probes: Map<u64, ProbeLocation>, filter: ProbeFilter)
    ensures
        matching(Seq::<u64>::empty(), probes, filter) == Seq::<u64>::empty(),
{
    reveal(Seq::filter);
}

/// A choice among ids holds exactly those of the ids that have a probe
/// which the filter admits; it holds an id as often, and in the same
/// order, as the ids do.
pub proof fn lemma_matching(ids: Seq<u64>, probes: Map<u64, ProbeLocation>, filter: ProbeFilter)
    ensures
        forall|id: u64|
            matching(ids, probes, filter).contains(id) <==> ids.contains(id)
                && probes.contains_key(id) && filter.admits(probes[id]),
        ids.no_duplicates() ==> matching(ids, probes, filter).no_duplicates(),
    decreases ids.len(),
{
    if ids.len() == 0 {
        lemma_matching_none(probes, filter);
    } else {
        let front = ids.drop_last();
        let last = ids.last();
        lemma_matching(front, probes, filter);
        assert(ids =~= front.push(last));
        front.lemma_filter_push(
            last,
            |id: u64| probes.contains_key(id) && filter.admits(probes[id]),
        );
        let chosen = matching(front, probes, filter);
        let all = matching(ids, probes, filter);
        assert forall|id: u64|
            all.contains(id) <==> ids.contains(id) && probes.contains_key(id) && filter.admits(
                probes[id],
            ) by {
            if all.contains(id) {
                let i = choose|i: int| 0 <= i < all.len() && all[i] == id;
                if i < chosen.len() {
                    assert(chosen[i] == id);
                    assert(chosen.contains(id));
                    assert(front.contains(id));
                    let j = choose|j: int| 0 <= j < front.len() && front[j] == id;
                    assert(ids[j] == id);
                } else {
                    assert(ids[ids.len() - 1] == id);
                }
            }
            if ids.contains(id) && probes.contains_key(id) && filter.admits(probes[id]) {
                let j = choose|j: int| 0 <= j < ids.len() && ids[j] == id;
                if j < front.len() {
                    assert(front[j] == id);
                    assert(chosen.contains(id));
                    let i = choose|i: int| 0 <= i < chosen.len() && chosen[i] == id;
                    assert(all[i] == id);
                } else {
                    assert(all[all.len() - 1] == id);
                }
            }
        }
        if ids.no_duplicates() {
            assert(front.no_duplicates()) by {
                assert forall|i: int, j: int|
                    0 <= i < front.len() && 0 <= j < front.len() && i != j implies front[i]
                    != front[j] by {
                    assert(front[i] == ids[i] && front[j] == ids[j]);
                }
            }
            if all.len() > chosen.len() {
                assert(!chosen.contains(last)) by {
                    if chosen.contains(last) {
                        assert(front.contains(last));
                        let j = choose|j: int| 0 <= j < front.len() && front[j] == last;
                        assert(ids[j] == ids[ids.len() - 1]);
                    }
                }
                assert forall|i: int, j: int|
                    0 <= i < all.len() && 0 <= j < all.len() && i != j implies all[i]
                    != all[j] by {
                    if i < chosen.len() {
                        assert(chosen.contains(all[i]));
                    }
                    if j < chosen.len() {
                        assert(chosen.contains(all[j]));
                    }
                }
            }
        }
    }
}

/// In a map whose order holds the ids of its probes, the filtered ids
/// are exactly the ids of the probes that the filter admits.
pub proof fn lemma_filtered_ids(
    order: Seq<u64>,
    probes: Map<u64, ProbeLocation>,
    filter: ProbeFilter,
)
    requires
        order.to_set() == probes.dom(),
    ensures
        forall|id: u64|
            filtered_ids(order, probes, filter).contains(id) <==> probes.contains_key(id)
                && filter.admits(probes[id]),
        order.no_duplicates() ==> filtered_ids(order, probes, filter).no_duplicates(),
{
    lemma_matching(order, probes, filter);
    assert forall|id: u64| order.contains(id) <==> probes.contains_key(id) by {
        assert(order.to_set().contains(id) <==> order.contains(id));
    }
}

} // verus!
