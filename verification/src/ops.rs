//! Reductions of a container to one scalar.

use vstd::prelude::*;

verus! {

/// Adds up all elements of a container.
pub trait Sum {
    type Output;

    fn sum(self) -> Self::Output;
}

/// Multiplies two containers element by element and adds up the products.
pub trait Dot<Rhs = Self> {
    type Output;

    fn dot(self, rhs: Rhs) -> Self::Output;
}

} // verus!
