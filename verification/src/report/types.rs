pub mod report_col;
pub mod search_parameters;
pub mod sort_key;
