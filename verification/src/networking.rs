//! Connections, their traffic, and the hosts behind their addresses.

pub mod aggregation_table;
pub mod enrichment;
pub mod host_cache;
pub mod host_resolution;
pub mod types;
