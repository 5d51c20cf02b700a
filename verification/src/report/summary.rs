//! Summaries: how much was covered, in numbers.

use crate::report::{BranchCoverage, FunctionCoverage, LineCoverage};
use std::collections::BTreeMap;
use vstd::prelude::*;
use vstd::std_specs::iter::IteratorSpec;

verus! {

/// How much was covered, in numbers.
#[derive(Debug, Clone, Copy, PartialEq, Eq, Structural)]
pub struct CoverageSummary {
    /// Number of lines with a probe.
    pub total_lines: u32,
    /// Number of those lines that were executed.
    pub covered_lines: u32,
    /// Number of functions.
    pub total_functions: u32,
    /// Number of functions that were entered.
    pub covered_functions: u32,
    /// Number of conditionals.
    pub total_branches: u32,
    /// Number of conditionals of which both sides were taken.
    pub covered_branches: u32,
}

/// `n` as a counter of a summary: counters stop at `u32::MAX` instead of
/// wrapping, so a covered count never passes its total.
pub open spec fn capped(n: int) -> u32 {
    if n >= u32::MAX {
        u32::MAX
    } else if n <= 0 {
        0
    } else {
        n as u32
    }
}

/// The six counters of a summary.
#[derive(Debug, Clone, Copy, PartialEq, Eq, Structural)]
pub enum Counter {
    /// Lines with a probe.
    TotalLines,
    /// Lines that were executed.
    CoveredLines,
    /// Functions.
    TotalFunctions,
    /// Functions that were entered.
    CoveredFunctions,
    /// Conditionals.
    TotalBranches,
    /// Conditionals of which both sides were taken.
    CoveredBranches,
}

/// The sum of two summaries, counter by counter.
pub open spec fn merged_summary(a: CoverageSummary, b: CoverageSummary) -> CoverageSummary {
    CoverageSummary {
        total_lines: capped(a.total_lines + b.total_lines),
        covered_lines: capped(a.covered_lines + b.covered_lines),
        total_functions: capped(a.total_functions + b.total_functions),
        covered_functions: capped(a.covered_functions + b.covered_functions),
        total_branches: capped(a.total_branches + b.total_branches),
        covered_branches: capped(a.covered_branches + b.covered_branches),
    }
}

/// The summary with all counters 0.
pub open spec fn empty_summary() -> CoverageSummary {
    CoverageSummary {
        total_lines: 0,
        covered_lines: 0,
        total_functions: 0,
        covered_functions: 0,
        total_branches: 0,
        covered_branches: 0,
    }
}

/// The summaries folded from the left, starting from the empty summary.
pub open spec fn aggregated(summaries: Seq<CoverageSummary>) -> CoverageSummary
    decreases summaries.len(),
{
    if summaries.len() == 0 {
        empty_summary()
    } else {
        merged_summary(aggregated(summaries.drop_last()), summaries.last())
    }
}

/// The sum of one counter over `summaries`, in unbounded arithmetic.
pub open spec fn counter_sum(summaries: Seq<CoverageSummary>, which: Counter) -> nat
    decreases summaries.len(),
{
    if summaries.len() == 0 {
        0
    } else {
        counter_sum(summaries.drop_last(), which) + summaries.last().counter(which) as nat
    }
}

impl CoverageSummary {
    /// One counter of the summary.
    pub open spec fn counter(self, which: Counter) -> u32 {
        match which {
            Counter::TotalLines => self.total_lines,
            Counter::CoveredLines => self.covered_lines,
            Counter::TotalFunctions => self.total_functions,
            Counter::CoveredFunctions => self.covered_functions,
            Counter::TotalBranches => self.total_branches,
            Counter::CoveredBranches => self.covered_branches,
        }
    }

    /// No covered count passes its total.
    pub open spec fn wf(self) -> bool {
        &&& self.covered_lines <= self.total_lines
        &&& self.covered_functions <= self.total_functions
        &&& self.covered_branches <= self.total_branches
    }

    /// Adds the counters of another summary to this one.
    pub fn merge(&mut self, other: &CoverageSummary)
        ensures
            *final(self) == merged_summary(*old(self), *other),
            old(self).wf() && other.wf() ==> final(self).wf(),
    {
        self.total_lines = self.total_lines.saturating_add(other.total_lines);
        self.covered_lines = self.covered_lines.saturating_add(other.covered_lines);
        self.total_functions = self.total_functions.saturating_add(other.total_functions);
        self.covered_functions = self.covered_functions.saturating_add(other.covered_functions);
        self.total_branches = self.total_branches.saturating_add(other.total_branches);
        self.covered_branches = self.covered_branches.saturating_add(other.covered_branches);
    }
}

impl Default for CoverageSummary {
    fn default() -> (summary: Self)
        ensures
            summary == empty_summary(),
    {
        CoverageSummary {
            total_lines: 0,
            covered_lines: 0,
            total_functions: 0,
            covered_functions: 0,
            total_branches: 0,
            covered_branches: 0,
        }
    }
}

/// The covered among the recorded lines.
pub open spec fn covered_line_set(lines: Map<u32, LineCoverage>) -> Set<u32> {
    Set::new(|line: u32| lines.contains_key(line) && lines[line].covered)
}

/// The covered among `functions`, in their order.
pub open spec fn covered_functions(functions: Seq<FunctionCoverage>) -> Seq<FunctionCoverage> {
    functions.filter(|function: FunctionCoverage| function.covered)
}

/// The conditionals among `branches`, in their order, of which both sides
/// were taken.
pub open spec fn fully_covered_branches(branches: Seq<BranchCoverage>) -> Seq<BranchCoverage> {
    branches.filter(|branch: BranchCoverage| branch.fully_covered)
}

/// The summary of a report's three collections: each total counts the
/// records, each covered count the records that are covered.
pub open spec fn summary_of(
    lines: Map<u32, LineCoverage>,
    functions: Seq<FunctionCoverage>,
    branches: Seq<BranchCoverage>,
) -> CoverageSummary {
    CoverageSummary {
        total_lines: capped(lines.dom().len() as int),
        covered_lines: capped(covered_line_set(lines).len() as int),
        total_functions: capped(functions.len() as int),
        covered_functions: capped(covered_functions(functions).len() as int),
        total_branches: capped(branches.len() as int),
        covered_branches: capped(fully_covered_branches(branches).len() as int),
    }
}

/// Sum, then recompute: each counter of the aggregate is the sum of that
/// counter over all summaries (up to the ceiling of the counter), so a
/// percentage taken from the aggregate is covered over total of the sums,
/// not a mean of percentages.
pub proof fn lemma_aggregated_is_sum(summaries: Seq<CoverageSummary>, which: Counter)
    ensures
        aggregated(summaries).counter(which) == capped(counter_sum(summaries, which) as int),
    decreases summaries.len(),
{
    if summaries.len() > 0 {
        lemma_aggregated_is_sum(summaries.drop_last(), which);
    }
}

/// Where no covered count passes its total in any summary, none does in
/// the aggregate.
pub proof fn lemma_aggregated_wf(summaries: Seq<CoverageSummary>)
    requires
        forall|i: int| 0 <= i < summaries.len() ==> (#[trigger] summaries[i]).wf(),
    ensures
        aggregated(summaries).wf(),
    decreases summaries.len(),
{
    if summaries.len() > 0 {
        let front = summaries.drop_last();
        lemma_aggregated_wf(front);
    }
}

/// In a summary that counts records no covered count passes its total.
pub proof fn lemma_summary_of_wf(
    lines: Map<u32, LineCoverage>,
    functions: Seq<FunctionCoverage>,
    branches: Seq<BranchCoverage>,
)
    requires
        lines.dom().finite(),
    ensures
        summary_of(lines, functions, branches).wf(),
{
    vstd::set_lib::lemma_len_subset(covered_line_set(lines), lines.dom());
    functions.lemma_filter_len(|function: FunctionCoverage| function.covered);
    branches.lemma_filter_len(|branch: BranchCoverage| branch.fully_covered);
}

/// The covered among the first `n` lines of a walk through line records.
spec fn covered_walked(walk: Seq<(&u32, &LineCoverage)>, n: int) -> Set<u32> {
    Set::new(|line: u32| exists|j: int| 0 <= j < n && *walk[j].0 == line && walk[j].1.covered)
}

/// The number of covered lines among line records.
fn count_covered_lines(lines: &BTreeMap<u32, LineCoverage>) -> (count: usize)
    ensures
        count == covered_line_set(lines@).len(),
{
    let total = lines.len();
    let ghost records = lines@;
    let ghost walk = lines.iter().remaining();
    let mut count: usize = 0;
    assert(covered_walked(walk, 0) =~= Set::<u32>::empty());
    for entry in it: lines.iter()
        invariant
            it.seq() == walk,
            records == lines@,
            walk.no_duplicates(),
            walk.len() == total,
            forall|j: int|
                0 <= j < walk.len() ==> records.contains_key(*walk[j].0) && records[*walk[j].0]
                    == *walk[j].1,
            forall|line: u32|
                records.contains_key(line) ==> walk.contains((&line, &records[line])),
            count <= it.index(),
            covered_walked(walk, it.index()).finite(),
            count == covered_walked(walk, it.index()).len(),
    {
        let ghost n = it.index();
        assert(covered_walked(walk, n + 1) == if entry.1.covered {
            covered_walked(walk, n).insert(*entry.0)
        } else {
            covered_walked(walk, n)
        } && !covered_walked(walk, n).contains(*entry.0));
        if entry.1.covered {
            count += 1;
        }
    }
    assert(covered_walked(walk, walk.len() as int) =~= covered_line_set(records));
    count
}

/// The number of covered functions among function records.
fn count_covered_functions(functions: &Vec<FunctionCoverage>) -> (count: usize)
    ensures
        count == covered_functions(functions@).len(),
{
    let mut count: usize = 0;
    let mut i: usize = 0;
    proof {
        reveal(Seq::filter);
    }
    while i < functions.len()
        invariant
            0 <= i <= functions.len(),
            count <= i,
            count == covered_functions(functions@.subrange(0, i as int)).len(),
        decreases functions.len() - i,
    {
        proof {
            assert(functions@.subrange(0, i + 1) =~= functions@.subrange(0, i as int).push(
                functions@[i as int],
            ));
            functions@.subrange(0, i as int).lemma_filter_push(
                functions@[i as int],
                |function: FunctionCoverage| function.covered,
            );
        }
        if functions[i].covered {
            count += 1;
        }
        i += 1;
    }
    assert(functions@.subrange(0, i as int) =~= functions@);
    count
}

/// The number of conditionals among branch records of which both sides
/// were taken.
fn count_covered_branches(branches: &Vec<BranchCoverage>) -> (count: usize)
    ensures
        count == fully_covered_branches(branches@).len(),
{
    let mut count: usize = 0;
    let mut i: usize = 0;
    proof {
        reveal(Seq::filter);
    }
    while i < branches.len()
        invariant
            0 <= i <= branches.len(),
            count <= i,
            count == fully_covered_branches(branches@.subrange(0, i as int)).len(),
        decreases branches.len() - i,
    {
        proof {
            assert(branches@.subrange(0, i + 1) =~= branches@.subrange(0, i as int).push(
                branches@[i as int],
            ));
            branches@.subrange(0, i as int).lemma_filter_push(
                branches@[i as int],
                |branch: BranchCoverage| branch.fully_covered,
            );
        }
        if branches[i].fully_covered {
            count += 1;
        }
        i += 1;
    }
    assert(branches@.subrange(0, i as int) =~= branches@);
    count
}

/// A number of records as a counter of a summary.
fn counter_of(n: usize) -> (counter: u32)
    ensures
        counter == capped(n as int),
{
    if n > u32::MAX as usize {
        u32::MAX
    } else {
        n as u32
    }
}

/// The summary of three collections of records.
pub(crate) fn summary_for(
    lines: &BTreeMap<u32, LineCoverage>,
    functions: &Vec<FunctionCoverage>,
    branches: &Vec<BranchCoverage>,
) -> (summary: CoverageSummary)
    ensures
        summary == summary_of(lines@, functions@, branches@),
        summary.wf(),
{
    let covered_lines = count_covered_lines(lines);
    let covered_functions = count_covered_functions(functions);
    let covered_branches = count_covered_branches(branches);
    proof {
        lemma_summary_of_wf(lines@, functions@, branches@);
    }
    CoverageSummary {
        total_lines: counter_of(lines.len()),
        covered_lines: counter_of(covered_lines),
        total_functions: counter_of(functions.len()),
        covered_functions: counter_of(covered_functions),
        total_branches: counter_of(branches.len()),
        covered_branches: counter_of(covered_branches),
    }
}

} // verus!
