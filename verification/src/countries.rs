//! Countries in which hosts are located.

pub mod types;
