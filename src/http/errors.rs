//! Failures of the text endpoints.
use vstd::prelude::*;
use crate::http::types::{ErrorBody, ErrorInfo};

verus! {

/// Why a text endpoint refused or failed a request; each holds a message.
#[derive(Debug)]
pub enum ApiError {
    Validation(String),
    Internal(String),
    TooLarge(String),
}

impl ApiError {
    /// The HTTP status and the body that report this error.
    pub fn into_parts(self) -> (r: (u16, ErrorBody))
        ensures
            match self {
                ApiError::Validation(m) => r.0 == 400 && r.1.error.code@ == "VALIDATION_ERROR"@
                    && r.1.error.message == m,
                ApiError::Internal(m) => r.0 == 500 && r.1.error.code@ == "INTERNAL_ERROR"@
                    && r.1.error.message == m,
                ApiError::TooLarge(m) => r.0 == 413 && r.1.error.code@ == "PAYLOAD_TOO_LARGE"@
                    && r.1.error.message == m,
            },
    {
        let (status, code, message) = match self {
            ApiError::Validation(m) => (400, "VALIDATION_ERROR", m),
            ApiError::Internal(m) => (500, "INTERNAL_ERROR", m),
            ApiError::TooLarge(m) => (413, "PAYLOAD_TOO_LARGE", m),
        };
        (status, ErrorBody { error: ErrorInfo { code, message } })
    }
}

} // verus!
