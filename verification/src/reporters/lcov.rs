//! The LCOV report format.
//!
//! LCOV is a line-oriented text format that many coverage tools read. Per
//! source file it holds a record of these lines:
//!
//! - `TN:` test name (optional)
//! - `SF:` source file path
//! - `FN:` a function (line, name)
//! - `FNDA:` the hits of a function (hits, name)
//! - `FNF:` functions found, `FNH:` functions hit
//! - `BRDA:` one side of a conditional (line, block, branch, taken)
//! - `BRF:` branch sides found, `BRH:` branch sides hit
//! - `DA:` a line (line, hits)
//! - `LF:` lines found, `LH:` lines hit
//! - `end_of_record`

use crate::error::CoverageError;
use crate::order::{ascending_line_numbers, line_keys};
use crate::report::{BranchCoverage, CoverageReport, FunctionCoverage, LineCoverage};
use crate::text::{decimal, joined, lemma_joined_step, push_decimal};
use vstd::prelude::*;
use vstd::string::*;

verus! {

/// Settings of the LCOV report.
#[derive(Debug, Clone, PartialEq, Eq)]
pub struct LcovReporter {
    /// Test name to put at the head of each record, if any.
    pub test_name: Option<String>,
}

/// The `FN:` line of a function.
pub open spec fn fn_line(function: FunctionCoverage) -> Seq<char> {
    "FN:"@ + decimal(function.start_line as nat) + ","@ + function.name@ + "\n"@
}

/// The `FNDA:` line of a function.
pub open spec fn fnda_line(function: FunctionCoverage) -> Seq<char> {
    "FNDA:"@ + decimal(function.hit_count as nat) + ","@ + function.name@ + "\n"@
}

/// How often a side of a conditional was taken, as LCOV writes it: `-` for
/// a side that was never taken.
pub open spec fn taken(count: u64) -> Seq<char> {
    if count > 0 {
        decimal(count as nat)
    } else {
        "-"@
    }
}

/// The two `BRDA:` lines of a conditional: the branch index is the block,
/// branch 0 is the true side and branch 1 the false side.
pub open spec fn brda_lines(branch: BranchCoverage) -> Seq<char> {
    "BRDA:"@ + decimal(branch.line as nat) + ","@ + decimal(branch.branch_index as nat) + ",0,"@
        + taken(branch.true_count) + "\n"@ + "BRDA:"@ + decimal(branch.line as nat) + ","@
        + decimal(branch.branch_index as nat) + ",1,"@ + taken(branch.false_count) + "\n"@
}

/// The `DA:` line of a line record.
pub open spec fn da_line(record: LineCoverage) -> Seq<char> {
    "DA:"@ + decimal(record.line as nat) + ","@ + decimal(record.hit_count as nat) + "\n"@
}

/// The number of sides that were taken, over all of `branches`.
pub open spec fn sides_taken(branches: Seq<BranchCoverage>) -> nat
    decreases branches.len(),
{
    if branches.len() == 0 {
        0
    } else {
        sides_taken(branches.drop_last()) + if branches.last().true_count > 0 {
            1nat
        } else {
            0nat
        } + if branches.last().false_count > 0 {
            1nat
        } else {
            0nat
        }
    }
}

/// The line records of a report in ascending order of the lines under
/// which they are filed.
pub open spec fn records_in_order(lines: Map<u32, LineCoverage>) -> Seq<LineCoverage> {
    ascending_line_numbers(lines.dom()).map_values(|line: u32| lines[line])
}

/// The head of a record: the test name, if there is one, and the file.
pub open spec fn record_head(test_name: Option<String>, report: CoverageReport) -> Seq<char> {
    (match test_name {
        Some(name) => "TN:"@ + name@ + "\n"@,
        None => Seq::empty(),
    }) + "SF:"@ + report.file@ + "\n"@
}

/// The function part of a record.
pub open spec fn function_part(report: CoverageReport) -> Seq<char> {
    joined(report.functions@, |function: FunctionCoverage| fn_line(function)) + joined(
        report.functions@,
        |function: FunctionCoverage| fnda_line(function),
    ) + "FNF:"@ + decimal(report.summary.total_functions as nat) + "\n"@ + "FNH:"@ + decimal(
        report.summary.covered_functions as nat,
    ) + "\n"@
}

/// The branch part of a record. Each conditional has two sides, so the
/// number of sides found is twice the number of conditionals.
pub open spec fn branch_part(report: CoverageReport) -> Seq<char> {
    joined(report.branches@, |branch: BranchCoverage| brda_lines(branch)) + "BRF:"@ + decimal(
        (report.summary.total_branches * 2) as nat,
    ) + "\n"@ + "BRH:"@ + decimal(sides_taken(report.branches@)) + "\n"@
}

/// The line part of a record.
pub open spec fn line_part(report: CoverageReport) -> Seq<char> {
    joined(records_in_order(report.lines@), |record: LineCoverage| da_line(record)) + "LF:"@
        + decimal(report.summary.total_lines as nat) + "\n"@ + "LH:"@ + decimal(
        report.summary.covered_lines as nat,
    ) + "\n"@
}

/// The record of one report.
pub open spec fn record_text(test_name: Option<String>, report: CoverageReport) -> Seq<char> {
    record_head(test_name, report) + function_part(report) + branch_part(report) + line_part(
        report,
    ) + "end_of_record\n"@
}

/// Appends a number and the text that follows it.
fn push_number(out: &mut String, n: u128, then: &str)
    ensures
        final(out)@ == old(out)@ + decimal(n as nat) + then@,
{
    push_decimal(out, n);
    out.append(then);
}

/// Appends how often a side of a conditional was taken.
fn push_taken(out: &mut String, count: u64)
    ensures
        final(out)@ == old(out)@ + taken(count),
{
    if count > 0 {
        push_decimal(out, count as u128);
    } else {
        out.append("-");
    }
}

/// Appends the `FN:` line of a function.
fn push_fn_line(out: &mut String, function: &FunctionCoverage)
    ensures
        final(out)@ == old(out)@ + fn_line(*function),
{
    out.append("FN:");
    push_number(out, function.start_line as u128, ",");
    out.append(function.name.as_str());
    out.append("\n");
}

/// Appends the `FNDA:` line of a function.
fn push_fnda_line(out: &mut String, function: &FunctionCoverage)
    ensures
        final(out)@ == old(out)@ + fnda_line(*function),
{
    out.append("FNDA:");
    push_number(out, function.hit_count as u128, ",");
    out.append(function.name.as_str());
    out.append("\n");
}

/// Appends the two `BRDA:` lines of a conditional.
fn push_brda_lines(out: &mut String, branch: &BranchCoverage)
    ensures
        final(out)@ == old(out)@ + brda_lines(*branch),
{
    out.append("BRDA:");
    push_number(out, branch.line as u128, ",");
    push_number(out, branch.branch_index as u128, ",0,");
    push_taken(out, branch.true_count);
    out.append("\n");
    out.append("BRDA:");
    push_number(out, branch.line as u128, ",");
    push_number(out, branch.branch_index as u128, ",1,");
    push_taken(out, branch.false_count);
    out.append("\n");
}

/// Appends the `DA:` line of a line record.
fn push_da_line(out: &mut String, record: &LineCoverage)
    ensures
        final(out)@ == old(out)@ + da_line(*record),
{
    out.append("DA:");
    push_number(out, record.line as u128, ",");
    push_number(out, record.hit_count as u128, "\n");
}

/// Appends a line that holds a key and a number.
fn push_count_line(out: &mut String, key: &str, n: u128)
    ensures
        final(out)@ == old(out)@ + key@ + decimal(n as nat) + "\n"@,
{
    out.append(key);
    push_number(out, n, "\n");
}

impl LcovReporter {
    /// A reporter that names no test.
    pub fn new() -> (reporter: Self)
        ensures
            reporter.test_name is None,
    {
        LcovReporter { test_name: None }
    }

    /// A reporter that puts a test name at the head of each record.
    pub fn with_test_name(test_name: String) -> (reporter: Self)
        ensures
            reporter.test_name == Some(test_name),
    {
        LcovReporter { test_name: Some(test_name) }
    }

    /// The file extension of the format.
    pub fn extension(&self) -> (extension: &'static str)
        ensures
            extension@ == "info"@,
    {
        "info"
    }

    /// The name of the format.
    pub fn format_name(&self) -> (name: &'static str)
        ensures
            name@ == "lcov"@,
    {
        "lcov"
    }

    /// Appends the head of a record.
    fn push_head(&self, out: &mut String, report: &CoverageReport)
        ensures
            final(out)@ == old(out)@ + record_head(self.test_name, *report),
    {
        match &self.test_name {
            Some(name) => {
                out.append("TN:");
                out.append(name.as_str());
                out.append("\n");
            },
            None => {},
        }
        out.append("SF:");
        out.append(report.file.as_str());
        out.append("\n");
    }

    /// Appends the function part of a record.
    fn push_function_part(out: &mut String, report: &CoverageReport)
        ensures
            final(out)@ == old(out)@ + function_part(*report),
    {
        let ghost functions = report.functions@;
        let mut i: usize = 0;
        while i < report.functions.len()
            invariant
                0 <= i <= report.functions.len(),
                functions == report.functions@,
                out@ == old(out)@ + joined(
                    functions.subrange(0, i as int),
                    |function: FunctionCoverage| fn_line(function),
                ),
            decreases report.functions.len() - i,
        {
            proof {
                lemma_joined_step(
                    functions,
                    |function: FunctionCoverage| fn_line(function),
                    i as int,
                );
            }
            push_fn_line(out, &report.functions[i]);
            i += 1;
        }
        assert(functions.subrange(0, i as int) =~= functions);
        let ghost after_fn = out@;
        i = 0;
        while i < report.functions.len()
            invariant
                0 <= i <= report.functions.len(),
                functions == report.functions@,
                out@ == after_fn + joined(
                    functions.subrange(0, i as int),
                    |function: FunctionCoverage| fnda_line(function),
                ),
            decreases report.functions.len() - i,
        {
            proof {
                lemma_joined_step(
                    functions,
                    |function: FunctionCoverage| fnda_line(function),
                    i as int,
                );
            }
            push_fnda_line(out, &report.functions[i]);
            i += 1;
        }
        push_count_line(out, "FNF:", report.summary.total_functions as u128);
        push_count_line(out, "FNH:", report.summary.covered_functions as u128);
    }

    /// Appends the branch part of a record.
    fn push_branch_part(out: &mut String, report: &CoverageReport)
        ensures
            final(out)@ == old(out)@ + branch_part(*report),
    {
        let ghost branches = report.branches@;
        let mut true_sides: usize = 0;
        let mut false_sides: usize = 0;
        let mut i: usize = 0;
        while i < report.branches.len()
            invariant
                0 <= i <= report.branches.len(),
                branches == report.branches@,
                true_sides <= i,
                false_sides <= i,
                true_sides + false_sides == sides_taken(branches.subrange(0, i as int)),
                out@ == old(out)@ + joined(
                    branches.subrange(0, i as int),
                    |branch: BranchCoverage| brda_lines(branch),
                ),
            decreases report.branches.len() - i,
        {
            proof {
                lemma_joined_step(
                    branches,
                    |branch: BranchCoverage| brda_lines(branch),
                    i as int,
                );
                assert(branches.subrange(0, i + 1).drop_last() =~= branches.subrange(
                    0,
                    i as int,
                ));
            }
            let branch = &report.branches[i];
            push_brda_lines(out, branch);
            if branch.true_count > 0 {
                true_sides += 1;
            }
            if branch.false_count > 0 {
                false_sides += 1;
            }
            i += 1;
        }
        assert(branches.subrange(0, i as int) =~= branches);
        push_count_line(out, "BRF:", report.summary.total_branches as u128 * 2);
        push_count_line(out, "BRH:", true_sides as u128 + false_sides as u128);
    }

    /// Appends the line part of a record.
    fn push_line_part(out: &mut String, report: &CoverageReport)
        ensures
            final(out)@ == old(out)@ + line_part(*report),
    {
        let keys = line_keys(&report.lines);
        let ghost records = records_in_order(report.lines@);
        let mut i: usize = 0;
        while i < keys.len()
            invariant
                0 <= i <= keys.len(),
                keys@ == ascending_line_numbers(report.lines@.dom()),
                keys@.to_set() == report.lines@.dom(),
                records == records_in_order(report.lines@),
                records.len() == keys@.len(),
                out@ == old(out)@ + joined(
                    records.subrange(0, i as int),
                    |record: LineCoverage| da_line(record),
                ),
            decreases keys.len() - i,
        {
            proof {
                lemma_joined_step(records, |record: LineCoverage| da_line(record), i as int);
            }
            match report.lines.get(&keys[i]) {
                Some(record) => {
                    push_da_line(out, record);
                },
                None => {},
            }
            i += 1;
        }
        assert(records.subrange(0, i as int) =~= records);
        push_count_line(out, "LF:", report.summary.total_lines as u128);
        push_count_line(out, "LH:", report.summary.covered_lines as u128);
    }

    /// The record of one report.
    pub fn format_report(&self, report: &CoverageReport) -> (out: String)
        ensures
            out@ == record_text(self.test_name, *report),
    {
        let mut out = String::new();
        self.push_head(&mut out, report);
        LcovReporter::push_function_part(&mut out, report);
        LcovReporter::push_branch_part(&mut out, report);
        LcovReporter::push_line_part(&mut out, report);
        out.append("end_of_record\n");
        out
    }

    /// The records of all reports, one after the other. It never fails.
    pub fn report(&self, reports: &[CoverageReport]) -> (result: Result<String, CoverageError>)
        ensures
            result matches Ok(out) && out@ == joined(
                reports@,
                |report: CoverageReport| record_text(self.test_name, report),
            ),
    {
        let mut out = String::new();
        let mut i: usize = 0;
        while i < reports.len()
            invariant
                0 <= i <= reports.len(),
                out@ == joined(
                    reports@.subrange(0, i as int),
                    |report: CoverageReport| record_text(self.test_name, report),
                ),
            decreases reports.len() - i,
        {
            proof {
                lemma_joined_step(
                    reports@,
                    |report: CoverageReport| record_text(self.test_name, report),
                    i as int,
                );
            }
            let record = self.format_report(&reports[i]);
            out.append(record.as_str());
            i += 1;
        }
        assert(reports@.subrange(0, i as int) =~= reports@);
        Ok(out)
    }
}

impl Default for LcovReporter {
    fn default() -> (reporter: Self)
        ensures
            reporter.test_name is None,
    {
        LcovReporter::new()
    }
}

} // verus!
