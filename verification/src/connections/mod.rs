//! Connections to databases.
pub mod r_connection;
