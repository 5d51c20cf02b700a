//! Coverage reports: what a run covered of one source file.

use crate::data::{CoverageData, ProbeHit};
use crate::error::CoverageError;
use crate::map::{position_of, CoverageMap, CoverageMapSet};
use crate::order::{ascending_line_numbers, line_keys};
use crate::report::branches::branch_coverage_of;
use crate::report::functions::function_coverage_of;
use crate::report::lines::line_coverage_of;
use crate::report::summary::summary_for;
use std::collections::BTreeMap;
use vstd::prelude::*;

pub mod branches;
pub mod functions;
pub mod lines;
pub mod summary;

pub use branches::{
    branch_coverage, branch_lines, branch_record, branches_on, false_probe_ids, is_branch_probe,
    lemma_branch_lines, line_branches, paired, side_count, true_probe_ids, BranchCoverage,
};
pub use functions::{function_coverage, function_record, FunctionCoverage};
pub use lines::{
    is_line_probe, lemma_line_coverage, lemma_line_coverage_finite, lemma_max_count,
    line_coverage, line_probe_ids, line_record, max_count, LineCoverage,
};
pub use summary::{
    aggregated, capped, counter_sum, covered_functions, covered_line_set, empty_summary,
    fully_covered_branches, lemma_aggregated_is_sum, lemma_aggregated_wf, lemma_summary_of_wf,
    merged_summary, summary_of, Counter, CoverageSummary,
};

verus! {

/// The numbers of the uncovered lines: of each record that is not covered
/// its line, in ascending order of the lines under which the records are
/// filed.
pub open spec fn uncovered_line_numbers(lines: Map<u32, LineCoverage>) -> Seq<u32> {
    ascending_line_numbers(lines.dom()).filter(|line: u32| !lines[line].covered).map_values(
        |line: u32| lines[line].line,
    )
}

/// The names of the uncovered functions, in the order of the records.
pub open spec fn uncovered_function_names(functions: Seq<FunctionCoverage>) -> Seq<Seq<char>> {
    functions.filter(|function: FunctionCoverage| !function.covered).map_values(
        |function: FunctionCoverage| function.name@,
    )
}

/// The summaries of `reports`, in their order.
pub open spec fn summaries_of(reports: Seq<CoverageReport>) -> Seq<CoverageSummary> {
    reports.map_values(|report: CoverageReport| report.summary)
}

/// What a run covered of one source file.
#[derive(Debug, Clone)]
pub struct CoverageReport {
    /// Source file path.
    pub file: String,
    /// Line coverage, keyed and ordered by line number.
    pub lines: BTreeMap<u32, LineCoverage>,
    /// Function coverage, in the order of the map's functions.
    pub functions: Vec<FunctionCoverage>,
    /// Branch coverage, in ascending order of line.
    pub branches: Vec<BranchCoverage>,
    /// Summary of the three.
    pub summary: CoverageSummary,
}

impl CoverageReport {
    /// Whether this is the report on `map` for a run with the given hits:
    /// line, function and branch coverage are those of the map under the
    /// hits, and the summary counts them.
    pub open spec fn reports(&self, map: CoverageMap, hits: Map<u64, ProbeHit>) -> bool {
        &&& self.file == map.file
        &&& self.lines@ == line_coverage(map.order@, map.probes@, hits)
        &&& self.functions@ == function_coverage(map.functions@, hits)
        &&& self.branches@ == branch_coverage(map.order@, map.probes@, hits)
        &&& self.summary == summary_of(self.lines@, self.functions@, self.branches@)
    }

    /// An empty report for a file.
    pub fn new(file: String) -> (report: Self)
        ensures
            report.file == file,
            report.lines@ == Map::<u32, LineCoverage>::empty(),
            report.functions@ == Seq::<FunctionCoverage>::empty(),
            report.branches@ == Seq::<BranchCoverage>::empty(),
            report.summary == empty_summary(),
    {
        CoverageReport {
            file,
            lines: BTreeMap::new(),
            functions: Vec::new(),
            branches: Vec::new(),
            summary: CoverageSummary::default(),
        }
    }

    /// The report on a map for a run with the given data, which holds the
    /// hits of all execution contexts of the run, merged.
    pub fn from_map_and_data(map: &CoverageMap, data: &CoverageData) -> (report: Self)
        ensures
            report.reports(*map, data.probe_hits@),
            report.summary.wf(),
    {
        let mut report = CoverageReport::new(map.file.clone());
        report.lines = line_coverage_of(map, data);
        report.functions = function_coverage_of(map, data);
        report.branches = branch_coverage_of(map, data);
        report.summary = report.calculate_summary();
        report
    }

    /// The summary of the report's lines, functions and branches.
    pub fn calculate_summary(&self) -> (summary: CoverageSummary)
        ensures
            summary == summary_of(self.lines@, self.functions@, self.branches@),
            summary.wf(),
    {
        summary_for(&self.lines, &self.functions, &self.branches)
    }

    /// Whether a line is covered; `None` for a line without a record.
    pub fn is_line_covered(&self, line: u32) -> (covered: Option<bool>)
        ensures
            covered == if self.lines@.contains_key(line) {
                Some(self.lines@[line].covered)
            } else {
                None
            },
    {
        match self.lines.get(&line) {
            Some(record) => Some(record.covered),
            None => None,
        }
    }

    /// The hit count of a line; `None` for a line without a record.
    pub fn line_hit_count(&self, line: u32) -> (count: Option<u64>)
        ensures
            count == if self.lines@.contains_key(line) {
                Some(self.lines@[line].hit_count)
            } else {
                None
            },
    {
        match self.lines.get(&line) {
            Some(record) => Some(record.hit_count),
            None => None,
        }
    }

    /// The uncovered lines, in ascending order.
    pub fn uncovered_lines(&self) -> (lines: Vec<u32>)
        ensures
            lines@ == uncovered_line_numbers(self.lines@),
    {
        let keys = line_keys(&self.lines);
        let mut lines: Vec<u32> = Vec::new();
        let ghost records = self.lines@;
        let ghost mut kept: Seq<u32> = Seq::empty();
        let mut i: usize = 0;
        proof {
            reveal(Seq::filter);
        }
        while i < keys.len()
            invariant
                0 <= i <= keys.len(),
                records == self.lines@,
                keys@ == ascending_line_numbers(records.dom()),
                keys@.to_set() == records.dom(),
                kept == keys@.subrange(0, i as int).filter(|line: u32| !records[line].covered),
                lines@ == kept.map_values(|line: u32| records[line].line),
            decreases keys.len() - i,
        {
            let key = keys[i];
            proof {
                assert(keys@.subrange(0, i + 1) =~= keys@.subrange(0, i as int).push(key));
                keys@.subrange(0, i as int).lemma_filter_push(
                    key,
                    |line: u32| !records[line].covered,
                );
            }
            match self.lines.get(&key) {
                Some(record) => {
                    if !record.covered {
                        lines.push(record.line);
                        proof {
                            kept = kept.push(key);
                        }
                    }
                },
                None => {},
            }
            i += 1;
        }
        assert(keys@.subrange(0, i as int) =~= keys@);
        lines
    }

    /// The names of the uncovered functions, in the order of the report.
    pub fn uncovered_functions(&self) -> (names: Vec<&str>)
        ensures
            names@.map_values(|name: &str| name@) == uncovered_function_names(self.functions@),
    {
        let mut names: Vec<&str> = Vec::new();
        let ghost mut kept: Seq<FunctionCoverage> = Seq::empty();
        let mut i: usize = 0;
        proof {
            reveal(Seq::filter);
        }
        while i < self.functions.len()
            invariant
                0 <= i <= self.functions.len(),
                kept == self.functions@.subrange(0, i as int).filter(
                    |function: FunctionCoverage| !function.covered,
                ),
                names@.map_values(|name: &str| name@) == kept.map_values(
                    |function: FunctionCoverage| function.name@,
                ),
            decreases self.functions.len() - i,
        {
            let function = &self.functions[i];
            proof {
                assert(self.functions@.subrange(0, i + 1) =~= self.functions@.subrange(
                    0,
                    i as int,
                ).push(*function));
                self.functions@.subrange(0, i as int).lemma_filter_push(
                    *function,
                    |function: FunctionCoverage| !function.covered,
                );
            }
            if !function.covered {
                let ghost names_before = names@;
                names.push(function.name.as_str());
                proof {
                    assert(names@.map_values(|name: &str| name@) =~= names_before.map_values(
                        |name: &str| name@,
                    ).push(function.name@));
                    kept = kept.push(*function);
                }
            }
            i += 1;
        }
        assert(self.functions@.subrange(0, i as int) =~= self.functions@);
        names
    }
}

/// The sum of the summaries of several reports, counter by counter, folded
/// from the left.
pub fn aggregate_summaries(reports: &[CoverageReport]) -> (summary: CoverageSummary)
    ensures
        summary == aggregated(summaries_of(reports@)),
{
    let mut summary = CoverageSummary::default();
    let mut i: usize = 0;
    while i < reports.len()
        invariant
            0 <= i <= reports.len(),
            summary == aggregated(summaries_of(reports@).subrange(0, i as int)),
        decreases reports.len() - i,
    {
        proof {
            let all = summaries_of(reports@);
            assert(all.subrange(0, i + 1).drop_last() =~= all.subrange(0, i as int));
        }
        summary.merge(&reports[i].summary);
        i += 1;
    }
    assert(summaries_of(reports@).subrange(0, i as int) =~= summaries_of(reports@));
    summary
}

/// The reports on all maps of a set, in the order of the set, for a run
/// with the given data.
pub fn generate_reports(maps: &CoverageMapSet, data: &CoverageData) -> (reports: Vec<
    CoverageReport,
>)
    ensures
        reports@.len() == maps.maps@.len(),
        forall|i: int|
            0 <= i < reports@.len() ==> (#[trigger] reports@[i]).reports(
                maps.maps@[i],
                data.probe_hits@,
            ),
{
    let mut reports: Vec<CoverageReport> = Vec::new();
    let mut i: usize = 0;
    while i < maps.maps.len()
        invariant
            0 <= i <= maps.maps.len(),
            reports@.len() == i,
            forall|j: int|
                0 <= j < i ==> (#[trigger] reports@[j]).reports(maps.maps@[j], data.probe_hits@),
        decreases maps.maps.len() - i,
    {
        reports.push(CoverageReport::from_map_and_data(&maps.maps[i], data));
        i += 1;
    }
    reports
}

/// The report on one file of a set. A file for which the set has no map
/// is an error, so that it cannot be mistaken for a file that was not
/// covered at all.
pub fn report_for_file(maps: &CoverageMapSet, file: &str, data: &CoverageData) -> (result: Result<
    CoverageReport,
    CoverageError,
>)
    ensures
        match position_of(maps.maps@, file@) {
            Some(at) => result is Ok && result->Ok_0.reports(maps.maps@[at], data.probe_hits@),
            None => result matches Err(CoverageError::NoMapForFile(name)) && name@ == file@,
        },
{
    match maps.get(file) {
        Some(map) => Ok(CoverageReport::from_map_and_data(map, data)),
        None => Err(CoverageError::NoMapForFile(file.to_owned())),
    }
}

} // verus!
