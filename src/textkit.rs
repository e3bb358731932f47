//! Line-oriented text utilities: counting, filtering and collapsing lines.
pub mod errors;
pub mod grep;
pub mod stats;
pub mod uniq;
