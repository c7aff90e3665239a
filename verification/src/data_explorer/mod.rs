//! The data explorer: a view of a table that can be sorted, filtered, profiled,
//! exported and converted to code.
pub mod async_channels;
pub mod column_profile;
pub mod convert_to_code;
pub mod data_explorer_comm;
pub mod export_selection;
pub mod format;
pub mod histogram;
pub mod r_data_explorer;
pub mod schema_search;
pub mod sorting;
pub mod summary_stats;
pub mod table;
pub mod utils;
