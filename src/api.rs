//! The key-value API: what each request does to the store.
pub mod handlers;
