//! Classification of R input.
pub mod input_boundaries;
pub mod parse_boundaries;
pub mod sections;
