//! The report: its columns, its filters and its rows.

pub mod projection;
pub mod sorting;
pub mod types;
