//! Languages of the user interface and the labels rendered in it.

pub mod types;
