//! Code-coverage collection and report synthesis.
//!
//! Instrumented code fires *probes*: line, function-entry, branch-true and
//! branch-false markers, each with an id of its own. This library counts
//! the hits and says what they covered:
//!
//! - [`collector`] counts the hits of one execution context and decodes
//!   what instrumented code sends;
//! - [`data`] holds the counts of a run and merges the counts of several
//!   contexts;
//! - [`map`] ties each probe to its place in the source and keeps the
//!   order in which the probes came;
//! - [`report`] combines a map with the counts of a run into line,
//!   function and branch coverage with a summary, and sums the summaries
//!   of several files;
//! - [`reporters`] write reports as LCOV records and HTML pages;
//! - [`order`] and [`text`] hold what the others share: the ascending
//!   order in which hit records and lines are listed, and the building of
//!   text.
//!
//! Every function comes with a contract that says what it returns, and
//! the contract is proved.

pub mod collector;
pub mod data;
pub mod error;
pub mod map;
pub mod order;
pub mod report;
pub mod reporter;
pub mod reporters;
pub mod text;
