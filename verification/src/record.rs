//! The value types a search produces: match records, skipped paths, the
//! final outcome, and the errors that end a search before it starts.

use vstd::prelude::*;

verus! {

/// One line that satisfied the pattern: the file it was found in, its
/// 1-based position there, and its text without the trailing terminator.
#[derive(Debug)]
pub struct MatchRecord {
    pub file: String,
    pub line_number: u64,
    pub line: String,
}

/// A path that had to be skipped, with the reason that was reported for it.
#[derive(Debug)]
pub struct SkippedPath {
    pub path: String,
    pub reason: String,
}

/// Why a search could not run at all. Failures on single files or subtrees
/// are not of this kind: they are collected as `SkippedPath` entries instead.
#[derive(Debug)]
pub enum SearchError {
    /// The pattern string is not a valid regular expression.
    InvalidPattern { reason: String },
    /// The target path is neither a readable file nor a readable directory.
    TargetInaccessible { reason: String },
}

impl SearchError {
    /// The human-readable reason carried by the error.
    pub fn message(&self) -> (r: &String)
        ensures
            r@ == match self {
                SearchError::InvalidPattern { reason } => reason@,
                SearchError::TargetInaccessible { reason } => reason@,
            },
    {
        match self {
            SearchError::InvalidPattern { reason } => reason,
            SearchError::TargetInaccessible { reason } => reason,
        }
    }

    /// Whether the error reports a malformed pattern.
    pub fn is_invalid_pattern(&self) -> (r: bool)
        ensures
            r == (self is InvalidPattern),
    {
        match self {
            SearchError::InvalidPattern { .. } => true,
            SearchError::TargetInaccessible { .. } => false,
        }
    }
}

/// Everything a completed search hands back: the records gathered, and an
/// accounting of the paths that could not be read.
#[derive(Debug)]
pub struct SearchOutcome {
    pub records: Vec<MatchRecord>,
    pub skipped: Vec<SkippedPath>,
}

} // verus!
