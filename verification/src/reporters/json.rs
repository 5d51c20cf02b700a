//! The JSON report format.

use vstd::prelude::*;

verus! {

/// Settings of the JSON report: an object with the aggregated summary
/// under `summary` and the reports of the files under `files`.
#[derive(Debug, Clone, Copy, PartialEq, Eq, Structural)]
pub struct JsonReporter {
    /// Whether the output is indented for reading.
    pub pretty: bool,
}

impl JsonReporter {
    /// A reporter with compact output.
    pub fn new() -> (reporter: Self)
        ensures
            !reporter.pretty,
    {
        JsonReporter { pretty: false }
    }

    /// A reporter with indented output.
    pub fn pretty() -> (reporter: Self)
        ensures
            reporter.pretty,
    {
        JsonReporter { pretty: true }
    }

    /// The file extension of the format.
    pub fn extension(&self) -> (extension: &'static str)
        ensures
            extension@ == "json"@,
    {
        "json"
    }

    /// The name of the format.
    pub fn format_name(&self) -> (name: &'static str)
        ensures
            name@ == "json"@,
    {
        "json"
    }
}

impl Default for JsonReporter {
    fn default() -> (reporter: Self)
        ensures
            !reporter.pretty,
    {
        JsonReporter::new()
    }
}

} // verus!
