//! The text utilities as JSON endpoints: request and response shapes, error
//! reporting, and the work each endpoint does.
pub mod errors;
pub mod handlers;
pub mod types;
