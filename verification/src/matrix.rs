//! A two-dimensional array that knows its number of columns.
use vstd::prelude::*;
use crate::error::BlobError;

verus! {

/// A matrix held row by row, together with its number of columns, so that a
/// matrix without rows still has a width.
///
/// The fields are open to the caller, so a value may be ragged:
/// [`Matrix::well_formed`] says that it is not.
#[derive(Debug, Clone, PartialEq)]
pub struct Matrix<T> {
    /// The number of columns.
    pub n_cols: usize,
    /// The rows, first to last.
    pub rows: Vec<Vec<T>>,
}

impl<T> Matrix<T> {
    /// The entries, row by row.
    pub open spec fn grid(&self) -> Seq<Seq<T>> {
        Seq::new(self.rows@.len(), |i: int| self.rows@[i]@)
    }

    /// Every row has `n_cols` entries.
    pub open spec fn well_formed(&self) -> bool {
        forall|i: int|
            0 <= i < self.rows@.len() ==> (#[trigger] self.rows@[i])@.len() == self.n_cols
    }

    /// The matrix with `n_cols` columns and the given rows, or `InvalidShape`
    /// if one of the rows has another length.
    pub fn from_rows(n_cols: usize, rows: Vec<Vec<T>>) -> (out: Result<Matrix<T>, BlobError>)
        ensures
            match out {
                Ok(m) => m.n_cols == n_cols && m.rows == rows && m.well_formed(),
                Err(e) => e == BlobError::InvalidShape && !(Matrix { n_cols, rows }).well_formed(),
            },
    {
        let m = Matrix { n_cols, rows };
        if m.is_rectangular() {
            Ok(m)
        } else {
            Err(BlobError::InvalidShape)
        }
    }

    /// Whether every row has `n_cols` entries.
    pub fn is_rectangular(&self) -> (b: bool)
        ensures
            b == self.well_formed(),
    {
        let mut i: usize = 0;
        while i < self.rows.len()
            invariant
                i <= self.rows@.len(),
                forall|j: int| 0 <= j < i ==> (#[trigger] self.rows@[j])@.len() == self.n_cols,
            decreases self.rows@.len() - i,
        {
            if self.rows[i].len() != self.n_cols {
                return false;
            }
            i += 1;
        }
        true
    }

    /// The shape: the number of rows, then the number of columns.
    pub fn dim(&self) -> (shape: (usize, usize))
        ensures
            shape.0 == self.grid().len(),
            shape.1 == self.n_cols,
    {
        (self.rows.len(), self.n_cols)
    }
}

} // verus!
