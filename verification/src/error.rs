//! The ways in which a request for a dataset can be refused.
use vstd::prelude::*;

verus! {

/// Why no dataset was produced. Both are faults of the input: nothing is
/// drawn and nothing is built before they are reported.
#[derive(Debug, Clone, Copy, PartialEq, Eq, Structural)]
pub enum BlobError {
    /// The centroids have no feature column, or a row whose length differs
    /// from the stated number of features.
    InvalidShape,
    /// The number of rows asked for does not fit in a `usize`.
    InvalidSize,
}

} // verus!
