//! The error type of the text utilities.
use vstd::prelude::*;
use vstd::string::StringExecFns;

verus! {

/// Why a text utility could not run.
#[derive(Debug)]
pub enum TextkitError {
    /// The input could not be read; holds the reason.
    Io(String),
    /// An argument was not acceptable; holds the reason.
    InvalidArgument(String),
}

impl TextkitError {
    /// The human-readable message for this error.
    pub fn message(&self) -> (r: String)
        ensures
            r@ == match self {
                TextkitError::Io(e) => "IO error: "@ + e@,
                TextkitError::InvalidArgument(m) => "Invalid argument: "@ + m@,
            },
    {
        match self {
            TextkitError::Io(e) => String::from_str("IO error: ").concat(e.as_str()),
            TextkitError::InvalidArgument(m) => String::from_str("Invalid argument: ").concat(
                m.as_str(),
            ),
        }
    }
}

} // verus!
