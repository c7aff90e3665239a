//! Positions in a document.
pub mod line_range;
