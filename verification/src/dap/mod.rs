//! The debug adapter: breakpoints, the state of the debugger, and the requests of
//! the frontend.
pub mod breakpoints;
pub mod dap;
pub mod dap_variables;
pub mod dap_notebook;
pub mod dap_server;
pub mod dap_event_loop;
pub mod dap_jupyter_handler;
pub mod dap_r_main;
