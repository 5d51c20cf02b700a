//! Function coverage.

use crate::data::{count_in, CoverageData, ProbeHit};
use crate::map::{CoverageMap, FunctionInfo};
use vstd::prelude::*;

verus! {

/// Coverage of one function.
#[derive(Debug, Clone, PartialEq, Eq)]
pub struct FunctionCoverage {
    /// Function name.
    pub name: String,
    /// First line.
    pub start_line: u32,
    /// Last line.
    pub end_line: u32,
    /// Number of times the function was entered.
    pub hit_count: u64,
    /// Whether the function was entered at all.
    pub covered: bool,
}

/// The record of one function.
pub open spec fn function_record(function: FunctionInfo, hits: Map<u64, ProbeHit>)
    -> FunctionCoverage {
    FunctionCoverage {
        name: function.name,
        start_line: function.start_line,
        end_line: function.end_line,
        hit_count: count_in(hits, function.entry_probe),
        covered: count_in(hits, function.entry_probe) > 0,
    }
}

/// Function coverage: one record per function, in the order of the map;
/// the hit count is the count of the function's entry probe.
pub open spec fn function_coverage(functions: Seq<FunctionInfo>, hits: Map<u64, ProbeHit>) -> Seq<
    FunctionCoverage,
> {
    functions.map_values(|function: FunctionInfo| function_record(function, hits))
}

/// Function coverage of a map under the hits of a run.
pub(crate) fn function_coverage_of(map: &CoverageMap, data: &CoverageData) -> (functions: Vec<
    FunctionCoverage,
>)
    ensures
        functions@ == function_coverage(map.functions@, data.probe_hits@),
{
    let mut functions: Vec<FunctionCoverage> = Vec::new();
    let mut i: usize = 0;
    while i < map.functions.len()
        invariant
            0 <= i <= map.functions.len(),
            functions@.len() == i,
            forall|j: int|
                0 <= j < i ==> functions@[j] == function_record(
                    map.functions@[j],
                    data.probe_hits@,
                ),
        decreases map.functions.len() - i,
    {
        let function = &map.functions[i];
        let hit_count = data.get_hit_count(function.entry_probe);
        functions.push(
            FunctionCoverage {
                name: function.name.clone(),
                start_line: function.start_line,
                end_line: function.end_line,
                hit_count,
                covered: hit_count > 0,
            },
        );
        i += 1;
    }
    functions
}

} // verus!
