pub mod labels;
pub mod language;
