//! The language server.
pub mod completions;
pub mod editor;
