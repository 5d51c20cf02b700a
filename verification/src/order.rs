//! Ascending enumerations of finite sets of integers.
//!
//! Hash maps are walked in an order that differs from run to run. Where
//! the library lists what a hash map holds, or the lines of a report, it
//! lists them in ascending order instead; the functions here say what that
//! order is and produce it.

use std::collections::BTreeMap;
use std::collections::BTreeSet;
use std::collections::HashMap;
use vstd::prelude::*;
use vstd::std_specs::cmp::OrdSpec;
use vstd::std_specs::iter::IteratorSpec;

verus! {

/// `s` is strictly ascending.
pub open spec fn ascending(s: Seq<u64>) -> bool {
    forall|i: int, j: int| 0 <= i < j < s.len() ==> s[i] < s[j]
}

/// The members of `ids`, each once, from the smallest to the largest.
pub open spec fn ascending_ids(ids: Set<u64>) -> Seq<u64> {
    choose|s: Seq<u64>| ascending(s) && s.to_set() == ids
}

/// `s` is strictly ascending (line numbers).
pub open spec fn ascending_lines(s: Seq<u32>) -> bool {
    forall|i: int, j: int| 0 <= i < j < s.len() ==> s[i] < s[j]
}

/// The members of `lines`, each once, from the smallest to the largest.
pub open spec fn ascending_line_numbers(lines: Set<u32>) -> Seq<u32> {
    choose|s: Seq<u32>| ascending_lines(s) && s.to_set() == lines
}

/// `s` is strictly ascending by the rank of its members.
spec fn ranked<T>(s: Seq<T>, rank: spec_fn(T) -> int) -> bool {
    forall|i: int, j: int| 0 <= i < j < s.len() ==> rank(#[trigger] s[i]) < rank(#[trigger] s[j])
}

/// The rank of a probe id: the id.
spec fn id_rank() -> spec_fn(u64) -> int {
    |id: u64| id as int
}

/// The rank of a line number: the number.
spec fn line_rank() -> spec_fn(u32) -> int {
    |line: u32| line as int
}

/// Two sequences that ascend by rank and have the same members are the
/// same sequence.
proof fn lemma_ranked_unique<T>(s: Seq<T>, t: Seq<T>, rank: spec_fn(T) -> int)
    requires
        ranked(s, rank),
        ranked(t, rank),
        s.to_set() == t.to_set(),
    ensures
        s == t,
    decreases s.len(),
{
    if s.len() == 0 {
        if t.len() > 0 {
            assert(t.to_set().contains(t[0]));
        }
    } else {
        assert(s.to_set().contains(s.last()));
        assert(t.to_set().contains(t.last()));
        assert(s.last() == t.last());
        let s0 = s.drop_last();
        let t0 = t.drop_last();
        assert forall|x: T| s0.to_set().contains(x) <==> t0.to_set().contains(x) by {
            if s0.to_set().contains(x) {
                assert(s.to_set().contains(x));
                let j = choose|j: int| 0 <= j < t.len() && t[j] == x;
                assert(t0[j] == x);
            }
            if t0.to_set().contains(x) {
                assert(t.to_set().contains(x));
                let j = choose|j: int| 0 <= j < s.len() && s[j] == x;
                assert(s0[j] == x);
            }
        }
        assert(s0.to_set() =~= t0.to_set());
        assert(ranked(s0, rank));
        assert(ranked(t0, rank));
        lemma_ranked_unique(s0, t0, rank);
        assert(s =~= s0.push(s.last()));
    }
}

/// A sequence that ascends by rank, with one more member put at its
/// place.
proof fn lemma_ranked_insert<T>(s: Seq<T>, x: T, rank: spec_fn(T) -> int) -> (t: Seq<T>)
    requires
        ranked(s, rank),
        forall|i: int| 0 <= i < s.len() ==> rank(#[trigger] s[i]) != rank(x),
    ensures
        ranked(t, rank),
        t.to_set() == s.to_set().insert(x),
    decreases s.len(),
{
    if s.len() == 0 || rank(s.last()) < rank(x) {
        let t = s.push(x);
        assert(t.to_set() =~= s.to_set().insert(x)) by {
            assert forall|y: T| t.to_set().contains(y) <==> s.to_set().insert(x).contains(y) by {
                if t.to_set().contains(y) {
                    let i = choose|i: int| 0 <= i < t.len() && t[i] == y;
                    if i < s.len() {
                        assert(s[i] == y);
                    }
                }
                if s.to_set().contains(y) {
                    let i = choose|i: int| 0 <= i < s.len() && s[i] == y;
                    assert(t[i] == y);
                }
                if y == x {
                    assert(t[s.len() as int] == y);
                }
            }
        }
        assert(ranked(t, rank));
        t
    } else {
        let s0 = s.drop_last();
        let t0 = lemma_ranked_insert(s0, x, rank);
        let t = t0.push(s.last());
        assert forall|i: int| 0 <= i < t0.len() implies rank(#[trigger] t0[i]) < rank(
            s.last(),
        ) by {
            assert(t0.to_set().contains(t0[i]));
        }
        assert(t.to_set() =~= s.to_set().insert(x)) by {
            assert forall|y: T| t.to_set().contains(y) <==> s.to_set().insert(x).contains(y) by {
                if t.to_set().contains(y) {
                    let i = choose|i: int| 0 <= i < t.len() && t[i] == y;
                    if i < t0.len() {
                        assert(t0.to_set().contains(y));
                    }
                }
                if s.to_set().contains(y) {
                    let i = choose|i: int| 0 <= i < s.len() && s[i] == y;
                    if i < s0.len() {
                        assert(s0[i] == y);
                        assert(t0.to_set().contains(y));
                        let j = choose|j: int| 0 <= j < t0.len() && t0[j] == y;
                        assert(t[j] == y);
                    } else {
                        assert(t[t0.len() as int] == y);
                    }
                }
                if y == x {
                    assert(t0.to_set().contains(y));
                    let j = choose|j: int| 0 <= j < t0.len() && t0[j] == y;
                    assert(t[j] == y);
                }
            }
        }
        t
    }
}

/// A finite set whose members differ in rank has a sequence that ascends
/// by rank and holds exactly its members.
proof fn lemma_ranked_exists<T>(members: Set<T>, rank: spec_fn(T) -> int) -> (s: Seq<T>)
    requires
        members.finite(),
        forall|a: T, b: T|
            members.contains(a) && members.contains(b) && a != b ==> rank(a) != rank(b),
    ensures
        ranked(s, rank),
        s.to_set() == members,
    decreases members.len(),
{
    if members.len() == 0 {
        Seq::<T>::empty()
    } else {
        let x = members.choose();
        let rest = members.remove(x);
        let s0 = lemma_ranked_exists(rest, rank);
        assert forall|i: int| 0 <= i < s0.len() implies rank(#[trigger] s0[i]) != rank(x) by {
            assert(s0.to_set().contains(s0[i]));
        }
        lemma_ranked_insert(s0, x, rank)
    }
}

/// Two ascending sequences with the same members are the same sequence.
pub proof fn lemma_ascending_unique(s: Seq<u64>, t: Seq<u64>)
    requires
        ascending(s),
        ascending(t),
        s.to_set() == t.to_set(),
    ensures
        s == t,
{
    lemma_ranked_unique(s, t, id_rank());
}

/// An ascending sequence is the ascending enumeration of its own members.
pub proof fn lemma_ascending_is_enumeration(s: Seq<u64>)
    requires
        ascending(s),
    ensures
        s == ascending_ids(s.to_set()),
{
    let t = ascending_ids(s.to_set());
    lemma_ascending_unique(s, t);
}

/// Every finite set of probe ids has an ascending enumeration: it holds
/// each member once and nothing else.
pub proof fn lemma_ascending_ids(ids: Set<u64>)
    requires
        ids.finite(),
    ensures
        ascending(ascending_ids(ids)),
        ascending_ids(ids).to_set() == ids,
        ascending_ids(ids).len() == ids.len(),
{
    let witness = lemma_ranked_exists(ids, id_rank());
    assert(ascending(witness));
    let enumeration = ascending_ids(ids);
    assert(enumeration.no_duplicates());
    enumeration.unique_seq_to_set();
}

/// Two ascending sequences of line numbers with the same members are the
/// same sequence.
pub proof fn lemma_ascending_lines_unique(s: Seq<u32>, t: Seq<u32>)
    requires
        ascending_lines(s),
        ascending_lines(t),
        s.to_set() == t.to_set(),
    ensures
        s == t,
{
    lemma_ranked_unique(s, t, line_rank());
}

/// An ascending sequence of line numbers is the ascending enumeration of
/// its own members.
pub proof fn lemma_ascending_lines_is_enumeration(s: Seq<u32>)
    requires
        ascending_lines(s),
    ensures
        s == ascending_line_numbers(s.to_set()),
{
    let t = ascending_line_numbers(s.to_set());
    lemma_ascending_lines_unique(s, t);
}

/// Every finite set of line numbers has an ascending enumeration: it
/// holds each member once and nothing else.
pub proof fn lemma_ascending_line_numbers(lines: Set<u32>)
    requires
        lines.finite(),
    ensures
        ascending_lines(ascending_line_numbers(lines)),
        ascending_line_numbers(lines).to_set() == lines,
        ascending_line_numbers(lines).len() == lines.len(),
{
    let witness = lemma_ranked_exists(lines, line_rank());
    assert(ascending_lines(witness));
    let enumeration = ascending_line_numbers(lines);
    assert(enumeration.no_duplicates());
    enumeration.unique_seq_to_set();
}

/// What an ordered set of probe ids calls increasing is ascending.
proof fn lemma_tree_order_ids(s: Seq<&u64>)
    requires
        vstd::std_specs::btree::increasing_seq(s),
    ensures
        forall|i: int, j: int| 0 <= i < j < s.len() ==> *s[i] < *s[j],
{
    broadcast use vstd::laws_cmp::group_laws_cmp;

    vstd::std_specs::btree::axiom_increasing_seq_meaning::<&u64>(s);
    assert forall|i: int, j: int| 0 <= i < j < s.len() implies *s[i] < *s[j] by {
        assert(OrdSpec::cmp_spec(&s[i], &s[j]) is Less);
    }
}

/// What an ordered collection of line numbers calls increasing is
/// ascending.
proof fn lemma_tree_order_lines(s: Seq<&u32>)
    requires
        vstd::std_specs::btree::increasing_seq(s),
    ensures
        forall|i: int, j: int| 0 <= i < j < s.len() ==> *s[i] < *s[j],
{
    broadcast use vstd::laws_cmp::group_laws_cmp;

    vstd::std_specs::btree::axiom_increasing_seq_meaning::<&u32>(s);
    assert forall|i: int, j: int| 0 <= i < j < s.len() implies *s[i] < *s[j] by {
        assert(OrdSpec::cmp_spec(&s[i], &s[j]) is Less);
    }
}

/// The members of an ordered set of probe ids, in ascending order.
pub fn ids_in_order(set: &BTreeSet<u64>) -> (out: Vec<u64>)
    ensures
        out@ == ascending_ids(set@),
        ascending(out@),
        out@.to_set() == set@,
{
    let mut out: Vec<u64> = Vec::new();
    let ghost walk = set.iter().remaining();
    for id in it: set.iter()
        invariant
            it.seq() == walk,
            out@.len() == it.index(),
            forall|j: int| 0 <= j < it.index() ==> out@[j] == *walk[j],
    {
        out.push(*id);
    }
    proof {
        assert(out@ =~= walk.unref());
        lemma_tree_order_ids(walk);
        lemma_ascending_is_enumeration(out@);
    }
    out
}

/// The members of an ordered set of line numbers, in ascending order.
pub fn lines_in_order(set: &BTreeSet<u32>) -> (out: Vec<u32>)
    ensures
        out@ == ascending_line_numbers(set@),
        ascending_lines(out@),
        out@.to_set() == set@,
{
    let mut out: Vec<u32> = Vec::new();
    let ghost walk = set.iter().remaining();
    for line in it: set.iter()
        invariant
            it.seq() == walk,
            out@.len() == it.index(),
            forall|j: int| 0 <= j < it.index() ==> out@[j] == *walk[j],
    {
        out.push(*line);
    }
    proof {
        assert(out@ =~= walk.unref());
        lemma_tree_order_lines(walk);
        lemma_ascending_lines_is_enumeration(out@);
    }
    out
}

/// The keys of a map ordered by line number, in ascending order.
pub fn line_keys<V>(m: &BTreeMap<u32, V>) -> (out: Vec<u32>)
    ensures
        out@ == ascending_line_numbers(m@.dom()),
        ascending_lines(out@),
        out@.to_set() == m@.dom(),
{
    let mut out: Vec<u32> = Vec::new();
    let ghost walk = m.keys().remaining();
    for line in it: m.keys()
        invariant
            it.seq() == walk,
            out@.len() == it.index(),
            forall|j: int| 0 <= j < it.index() ==> out@[j] == *walk[j],
    {
        out.push(*line);
    }
    proof {
        assert(out@ =~= walk.unref());
        lemma_tree_order_lines(walk);
        lemma_ascending_lines_is_enumeration(out@);
    }
    out
}

/// The keys of a hash map, in ascending order.
pub fn sorted_keys<V>(m: &HashMap<u64, V>) -> (out: Vec<u64>)
    ensures
        out@ == ascending_ids(m@.dom()),
        ascending(out@),
        out@.to_set() == m@.dom(),
{
    let mut set: BTreeSet<u64> = BTreeSet::new();
    let ghost walk = m.keys().remaining();
    for key in it: m.keys()
        invariant
            it.seq() == walk,
            walk.unref().to_set() == m@.dom(),
            forall|j: int| 0 <= j < it.index() ==> set@.contains(*walk[j]),
            forall|id: u64| set@.contains(id) ==> m@.dom().contains(id),
    {
        set.insert(*key);
    }
    proof {
        assert(set@ =~= m@.dom());
    }
    ids_in_order(&set)
}

} // verus!
