use crate::report::types::report_col::ReportCol;
use vstd::prelude::*;

verus! {

/// The column by which the rows of the report are sorted, and the way.
#[derive(Clone, Copy, Debug, PartialEq, Eq, Structural, Hash)]
pub struct SortKey {
    /// The column whose values give the order.
    pub column: ReportCol,
    /// Whether the rows go from high to low.
    pub descending: bool,
}

} // verus!
