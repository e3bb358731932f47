//! Errors of the store and its snapshot codec, and of the key-value API.
use vstd::prelude::*;
use vstd::string::StringExecFns;
use crate::text::{decimal, push_decimal, string_from};

verus! {

/// Why a store operation or a snapshot load or save failed.
#[derive(Debug)]
pub enum StoreError {
    /// Strict insertion met a key that is already present.
    KeyAlreadyExists,
    /// The key is absent.
    KeyNotFound,
    /// Reading, writing or renaming a file failed; holds the reason.
    Io(String),
    /// The persisted text could not be decoded; holds the reason.
    Json(String),
    /// The snapshot carries a version tag that this build does not read.
    UnsupportedVersion(u32),
}

impl StoreError {
    /// The human-readable message for this error.
    pub fn message(&self) -> (r: String)
        ensures
            r@ == match self {
                StoreError::KeyAlreadyExists => "key already exists"@,
                StoreError::KeyNotFound => "key not found"@,
                StoreError::Io(e) => "io error: "@ + e@,
                StoreError::Json(e) => "json error: "@ + e@,
                StoreError::UnsupportedVersion(v) => "unsupported version: "@ + decimal(*v as nat),
            },
    {
        match self {
            StoreError::KeyAlreadyExists => String::from_str("key already exists"),
            StoreError::KeyNotFound => String::from_str("key not found"),
            StoreError::Io(e) => String::from_str("io error: ").concat(e.as_str()),
            StoreError::Json(e) => String::from_str("json error: ").concat(e.as_str()),
            StoreError::UnsupportedVersion(v) => {
                let mut digits: Vec<char> = Vec::new();
                push_decimal(&mut digits, *v as usize);
                let tail = string_from(digits.as_slice());
                String::from_str("unsupported version: ").concat(tail.as_str())
            },
        }
    }
}

/// A failure of the key-value API, as it is reported to a client.
#[derive(Debug)]
pub enum ApiError {
    /// The key is absent.
    NotFound,
    /// The key is already present.
    Conflict,
    /// A request or stored body was not valid JSON; holds the reason.
    InvalidJson(String),
    /// Persisting failed; holds the reason.
    Io(String),
    /// Anything else; holds the reason.
    Internal(String),
}

impl ApiError {
    /// The HTTP status, the machine-readable code and the message that report
    /// this error.
    pub fn parts(self) -> (r: (u16, &'static str, String))
        ensures
            match self {
                ApiError::NotFound => r.0 == 404 && r.1@ == "not_found"@ && r.2@
                    == "key does not exist"@,
                ApiError::Conflict => r.0 == 409 && r.1@ == "conflict"@ && r.2@
                    == "key already exists"@,
                ApiError::InvalidJson(e) => r.0 == 400 && r.1@ == "invalid_json"@ && r.2@ == e@,
                ApiError::Io(e) => r.0 == 500 && r.1@ == "io_error"@ && r.2@ == e@,
                ApiError::Internal(m) => r.0 == 500 && r.1@ == "internal"@ && r.2@ == m@,
            },
    {
        match self {
            ApiError::NotFound => (404, "not_found", String::from_str("key does not exist")),
            ApiError::Conflict => (409, "conflict", String::from_str("key already exists")),
            ApiError::InvalidJson(e) => (400, "invalid_json", e),
            ApiError::Io(e) => (500, "io_error", e),
            ApiError::Internal(m) => (500, "internal", m),
        }
    }
}

} // verus!
