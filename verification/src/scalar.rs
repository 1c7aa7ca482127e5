//! The numbers that fill a matrix.
use vstd::prelude::*;

verus! {

/// A number that a centroid's coordinate and a sample can both be, and that
/// can be added to another of its kind.
///
/// An implementation promises that `plus` is a function of its two operands
/// alone: `sum` names what it returns. Nothing else is asked of the addition,
/// so it may round, wrap or saturate as the scalar's arithmetic does. Where
/// the verifier does not see an implementation, the promise is kept by hand.
pub trait Scalar: Copy {
    /// The scalar that `self.plus(rhs)` returns.
    spec fn sum(self, rhs: Self) -> Self;

    /// Adds `rhs` to `self`.
    fn plus(self, rhs: Self) -> (s: Self)
        ensures
            s == self.sum(rhs),
    ;
}

} // verus!
