//! Sources of completions.
pub mod colon;
pub mod keyword;
