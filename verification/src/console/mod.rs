//! The R console.
pub mod annotate;
pub mod breakpoint;
pub mod call_text;
pub mod console_comm;
pub mod console_debug;
pub mod console_filter;
pub mod console_graphics;
pub mod console_integration;
pub mod ps_debug;
