//! What depends on the platform.
pub mod windows;
