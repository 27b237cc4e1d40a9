//! Aggregation of observed network traffic by connection, enrichment of the
//! observed addresses with resolved host data, and projection of the result
//! into filtered, sorted and formatted report rows.
//!
//! Observations enter through [`networking::aggregation_table`], which keeps
//! running totals for each address:port pair. The addresses are resolved
//! under the rules of [`networking::host_resolution`], and what is found goes
//! through [`networking::enrichment`] into [`networking::host_cache`].
//! [`report::projection`] turns a snapshot of the table into the rows of the
//! report.

pub mod assoc;
pub mod countries;
pub mod networking;
pub mod report;
pub mod text;
pub mod translations;
