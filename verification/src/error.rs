//! What can go wrong with coverage maps and reports.

use crate::text::{decimal, push_decimal};
use vstd::prelude::*;
use vstd::string::*;

verus! {

/// Errors of coverage operations. Where the cause is an error of the
/// system or of a parser, the variant holds the message of that error.
#[derive(Debug, Clone, PartialEq, Eq)]
pub enum CoverageError {
    /// A coverage map could not be parsed.
    ParseError(String),
    /// A probe id is not valid.
    InvalidProbeId(u64),
    /// A source file could not be read.
    SourceFileError { path: String, source: String },
    /// A report could not be written.
    WriteError { path: String, source: String },
    /// No coverage map is known for a file.
    NoMapForFile(String),
    /// JSON could not be written or read.
    JsonError(String),
    /// Input or output failed.
    IoError(String),
}

/// The message of an error, as a reader sees it.
pub open spec fn message_of(error: CoverageError) -> Seq<char> {
    match error {
        CoverageError::ParseError(cause) => "failed to parse coverage map: "@ + cause@,
        CoverageError::InvalidProbeId(probe_id) => "invalid probe ID: "@ + decimal(probe_id as nat),
        CoverageError::SourceFileError { path, source } => "failed to read source file '"@ + path@
            + "': "@ + source@,
        CoverageError::WriteError { path, source } => "failed to write report to '"@ + path@
            + "': "@ + source@,
        CoverageError::NoMapForFile(file) => "no coverage map found for file: "@ + file@,
        CoverageError::JsonError(cause) => "JSON error: "@ + cause@,
        CoverageError::IoError(cause) => "I/O error: "@ + cause@,
    }
}

impl CoverageError {
    /// The message of the error.
    pub fn message(&self) -> (message: String)
        ensures
            message@ == message_of(*self),
    {
        let mut message = String::new();
        match self {
            CoverageError::ParseError(cause) => {
                message.append("failed to parse coverage map: ");
                message.append(cause.as_str());
            },
            CoverageError::InvalidProbeId(probe_id) => {
                message.append("invalid probe ID: ");
                push_decimal(&mut message, *probe_id as u128);
            },
            CoverageError::SourceFileError { path, source } => {
                message.append("failed to read source file '");
                message.append(path.as_str());
                message.append("': ");
                message.append(source.as_str());
            },
            CoverageError::WriteError { path, source } => {
                message.append("failed to write report to '");
                message.append(path.as_str());
                message.append("': ");
                message.append(source.as_str());
            },
            CoverageError::NoMapForFile(file) => {
                message.append("no coverage map found for file: ");
                message.append(file.as_str());
            },
            CoverageError::JsonError(cause) => {
                message.append("JSON error: ");
                message.append(cause.as_str());
            },
            CoverageError::IoError(cause) => {
                message.append("I/O error: ");
                message.append(cause.as_str());
            },
        }
        message
    }
}

} // verus!
