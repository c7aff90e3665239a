//! The kernel on Windows.
pub mod control;
pub mod polled_events;
pub mod signals;
