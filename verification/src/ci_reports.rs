//! The test reports that the CI writes, one entry per test script.

use vstd::prelude::*;

verus! {

/// The outcome of one assertion of a test script: the error it ended with,
/// if it failed.
#[derive(Clone, Debug, PartialEq, Eq)]
pub struct CIAssert {
    pub error: Option<String>,
    pub line_number: u32,
    pub command: String,
}

/// What a report knows about one test script: the outcome of each of its
/// assertions, or the error that kept the script from running.
#[derive(Clone, Debug, PartialEq, Eq)]
pub enum CIReportData {
    Assert { results: Vec<CIAssert> },
    ScriptError { error: String, context: String, line_number: Option<u32>, command: Option<String> },
}

/// One entry of a report: a test script, by its path, and what came of it.
#[derive(Clone, Debug, PartialEq, Eq)]
pub struct CIReportHeader {
    pub filepath: String,
    pub data: CIReportData,
}

/// A whole report. Where two entries share a path, the later one counts.
#[derive(Clone, Debug, PartialEq, Eq)]
pub struct CIFullReport {
    pub entries: Vec<CIReportHeader>,
}

/// The text of an optional string.
pub open spec fn opt_text(s: Option<String>) -> Option<Seq<char>> {
    match s {
        Some(x) => Some(x@),
        None => None,
    }
}

} // verus!
