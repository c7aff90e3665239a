//! The decision logic of an R kernel: debugger, data explorer, console, comms.
pub mod analysis;
pub mod ark_comm;
pub mod browser;
pub mod build_info;
pub mod comm_handler;
pub mod connections;
pub mod console;
pub mod control;
pub mod coordinates;
pub mod dap;
pub mod data_explorer;
pub mod help_proxy;
pub mod html_widget;
pub mod line_ending;
pub mod logger;
pub mod lsp;
pub mod patterns;
pub mod r_object;
pub mod registration;
pub mod session;
pub mod sys;
pub mod test;
pub mod text;
pub mod text_map;
pub mod urls;
