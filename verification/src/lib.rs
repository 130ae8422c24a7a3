//! Regex-driven editing of text content: extracting captured substrings,
//! inserting lines at a pattern-located position, and capture-aware
//! replacement with no-op write suppression.
use vstd::prelude::*;

pub mod edit;
pub mod pattern;

pub use edit::extract;
pub use edit::extract_all;
pub use edit::insert_lines;
pub use edit::replace_all;
pub use edit::replace_all_ne;

verus! {

/// Errors the editing operations can report.
#[derive(Debug, Clone, Copy, PartialEq, Eq, Structural)]
pub enum FileError {
    /// The supplied expression does not compile as a regular expression.
    InvalidPattern,
    /// No match was found, or the requested capture group is absent.
    ExtractionFailed,
    /// No line matches the anchor pattern, or the offset drives the
    /// insertion index below zero.
    InsertLocationNotFound,
}

} // verus!
