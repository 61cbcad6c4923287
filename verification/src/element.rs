//! Scalars that can fill the lanes of a vector register.

use vstd::prelude::*;

verus! {

/// A scalar type with a zero, an addition and a multiplication.
///
/// The three `*_spec` functions say what the operations compute. Nothing is
/// assumed of them, so every result of the library is stated for arithmetic
/// that rounds as well as for arithmetic that is exact. A verified element
/// type defines all three; left as they are, they stand for some value that
/// nothing is known of, and no verified implementation of the operations can
/// be written against them.
pub trait NumericElement: Copy {
    /// The value of `zero`.
    open spec fn zero_spec() -> Self {
        arbitrary()
    }

    /// The value of `self.plus(rhs)`.
    open spec fn plus_spec(self, rhs: Self) -> Self {
        arbitrary()
    }

    /// The value of `self.times(rhs)`.
    open spec fn times_spec(self, rhs: Self) -> Self {
        arbitrary()
    }

    /// The additive identity, which also pads an incomplete chunk.
    fn zero() -> (r: Self)
        ensures
            r == Self::zero_spec(),
    ;

    /// The sum of two scalars.
    fn plus(self, rhs: Self) -> (r: Self)
        ensures
            r == self.plus_spec(rhs),
    ;

    /// The product of two scalars.
    fn times(self, rhs: Self) -> (r: Self)
        ensures
            r == self.times_spec(rhs),
    ;
}

/// A numeric element whose arithmetic is exact: sums may be regrouped and
/// reordered, and padding with zeros changes nothing.
pub trait ExactElement: NumericElement {
    /// Addition is commutative.
    proof fn lemma_plus_commutative(a: Self, b: Self)
        ensures
            a.plus_spec(b) == b.plus_spec(a),
    ;

    /// Addition is associative.
    proof fn lemma_plus_associative(a: Self, b: Self, c: Self)
        ensures
            a.plus_spec(b).plus_spec(c) == a.plus_spec(b.plus_spec(c)),
    ;

    /// Zero is the identity of addition.
    proof fn lemma_plus_zero(a: Self)
        ensures
            a.plus_spec(Self::zero_spec()) == a,
    ;

    /// The product of two padding lanes is zero again.
    proof fn lemma_zero_times_zero()
        ensures
            Self::zero_spec().times_spec(Self::zero_spec()) == Self::zero_spec(),
    ;
}

impl NumericElement for i32 {
    open spec fn zero_spec() -> Self {
        0i32
    }

    open spec fn plus_spec(self, rhs: Self) -> Self {
        self.wrapping_add(rhs)
    }

    open spec fn times_spec(self, rhs: Self) -> Self {
        self.wrapping_mul(rhs)
    }

    fn zero() -> (r: Self) {
        0i32
    }

    fn plus(self, rhs: Self) -> (r: Self) {
        self.wrapping_add(rhs)
    }

    fn times(self, rhs: Self) -> (r: Self) {
        self.wrapping_mul(rhs)
    }
}

impl ExactElement for i32 {
    proof fn lemma_plus_commutative(a: Self, b: Self) {
    }

    proof fn lemma_plus_associative(a: Self, b: Self, c: Self) {
    }

    proof fn lemma_plus_zero(a: Self) {
    }

    proof fn lemma_zero_times_zero() {
    }
}

impl NumericElement for i64 {
    open spec fn zero_spec() -> Self {
        0i64
    }

    open spec fn plus_spec(self, rhs: Self) -> Self {
        self.wrapping_add(rhs)
    }

    open spec fn times_spec(self, rhs: Self) -> Self {
        self.wrapping_mul(rhs)
    }

    fn zero() -> (r: Self) {
        0i64
    }

    fn plus(self, rhs: Self) -> (r: Self) {
        self.wrapping_add(rhs)
    }

    fn times(self, rhs: Self) -> (r: Self) {
        self.wrapping_mul(rhs)
    }
}

impl ExactElement for i64 {
    proof fn lemma_plus_commutative(a: Self, b: Self) {
    }

    proof fn lemma_plus_associative(a: Self, b: Self, c: Self) {
    }

    proof fn lemma_plus_zero(a: Self) {
    }

    proof fn lemma_zero_times_zero() {
    }
}

} // verus!
