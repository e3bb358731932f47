//! An in-process key-value store with a versioned snapshot codec, and the
//! line-oriented text utilities that sit beside it.
pub mod api;
pub mod error;
pub mod http;
pub mod model;
pub mod persistence;
pub mod store;
pub mod text;
pub mod text_stats;
pub mod textkit;
