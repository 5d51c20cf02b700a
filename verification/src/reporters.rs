//! The report formats.

pub mod html;
pub mod json;
pub mod lcov;

pub use html::HtmlReporter;
pub use json::JsonReporter;
pub use lcov::LcovReporter;
