//! Request and response bodies of the text endpoints.
use vstd::prelude::*;

verus! {

/// Body of a statistics request.
pub struct StatsRequest {
    pub text: String,
}

/// Counts returned for a statistics request.
pub struct StatsResponse {
    pub lines: usize,
    pub words: usize,
    pub chars: usize,
    pub bytes: usize,
}

/// Body of an error response.
pub struct ErrorBody {
    pub error: ErrorInfo,
}

/// A machine-readable code and a message.
pub struct ErrorInfo {
    pub code: &'static str,
    pub message: String,
}

/// Body of a duplicate-collapsing request; `all` defaults to false.
pub struct UniqRequest {
    pub text: String,
    pub all: Option<bool>,
}

/// The collapsed text and how many lines were dropped.
pub struct UniqResponse {
    pub text: String,
    pub removed: usize,
}

/// Body of a line-selection request; `line_number` defaults to false.
pub struct GrepRequest {
    pub text: String,
    pub pattern: String,
    pub line_number: Option<bool>,
}

/// One selected line, with its number when numbers were asked for, else 0.
pub struct GrepMatch {
    pub line: usize,
    pub text: String,
}

/// The selected lines and how many there are.
pub struct GrepResponse {
    pub matches: Vec<GrepMatch>,
    pub count: usize,
}

} // verus!
