//! A vector of exactly `D` elements, held by value.

use crate::chunked::{add_with_lanes, dot_with_lanes, mul_with_lanes, sum_with_lanes};
use crate::element::NumericElement;
use crate::ops::{Dot, Sum};
use crate::point::Point;
use crate::simd::LaneCount;
use core::ops::{Add, AddAssign, Index, IndexMut, Mul, MulAssign};
use vstd::prelude::*;

verus! {

/// `D` elements of one type, in order. The length is part of the type: a
/// vector can only be built from an array of exactly `D` elements.
#[derive(Debug, Clone, Copy)]
pub struct Vector<T, const D: usize>([T; D]);

impl<T, const D: usize> View for Vector<T, D> {
    type V = Seq<T>;

    /// The elements of the vector, in order.
    closed spec fn view(&self) -> Seq<T> {
        self.0@
    }
}

impl<T: Copy, const D: usize> Vector<T, D> {
    /// The vector that holds the elements of `vector`.
    pub fn new(vector: [T; D]) -> (r: Self)
        ensures
            r@ == vector@,
    {
        Self(vector)
    }

    /// The elements of the vector as an array.
    pub fn into_inner(&self) -> (r: [T; D])
        ensures
            r@ == self@,
    {
        self.0
    }

    /// The vector whose elements are `elements`, which must be `D` in number.
    pub closed spec fn from_seq(elements: Seq<T>) -> Self {
        choose|vector: Self| vector@ == elements
    }

    /// A vector has `D` elements.
    pub broadcast proof fn lemma_len(vector: Self)
        ensures
            #[trigger] vector@.len() == D,
    {
    }

    /// A vector is the only one with its elements.
    pub proof fn lemma_from_seq(vector: Self)
        ensures
            Self::from_seq(vector@) == vector,
    {
        let other = Self::from_seq(vector@);
        assert(other.0@ == vector.0@);
        assert(other.0 =~= vector.0);
    }

    /// An array that was made a vector, by `new` or `from`, and taken back
    /// by `into_inner` is the array that went in.
    pub proof fn lemma_round_trip(array: [T; D], vector: Self, back: [T; D])
        requires
            vector@ == array@,
            back@ == vector@,
        ensures
            back == array,
    {
        assert(back =~= array);
    }
}

impl<T: Copy, const D: usize> From<[T; D]> for Vector<T, D> {
    fn from(vector: [T; D]) -> (r: Self)
        ensures
            r@ == vector@,
    {
        let r = Self::new(vector);
        proof {
            Self::lemma_from_seq(r);
        }
        r
    }
}

impl<T: Copy, const D: usize> vstd::std_specs::convert::FromSpecImpl<[T; D]> for Vector<T, D> {
    open spec fn obeys_from_spec() -> bool {
        true
    }

    open spec fn from_spec(vector: [T; D]) -> Self {
        Self::from_seq(vector@)
    }
}

impl<T: Copy, const D: usize> From<Point<T, D>> for Vector<T, D> {
    fn from(point: Point<T, D>) -> (r: Self)
        ensures
            r@ == point@,
    {
        let r = Self(point.into_inner());
        proof {
            Self::lemma_from_seq(r);
        }
        r
    }
}

impl<T: Copy, const D: usize> vstd::std_specs::convert::FromSpecImpl<Point<T, D>> for Vector<T, D> {
    open spec fn obeys_from_spec() -> bool {
        true
    }

    open spec fn from_spec(point: Point<T, D>) -> Self {
        Self::from_seq(point@)
    }
}

impl<T: NumericElement, const D: usize> Default for Vector<T, D> {
    /// The vector of `D` zeros.
    fn default() -> (r: Self)
        ensures
            r@ == crate::chunked::zeros::<T>(D as nat),
    {
        let r = Self([T::zero(); D]);
        assert(r@ =~= crate::chunked::zeros::<T>(D as nat));
        r
    }
}

impl<T: Copy, const D: usize> Index<usize> for Vector<T, D> {
    type Output = T;

    /// The element at `index`, which must lie below `D`.
    fn index(&self, index: usize) -> (r: &T)
        ensures
            *r == self@[index as int],
    {
        &self.0[index]
    }
}

impl<T: Copy, const D: usize> vstd::std_specs::core::IndexSpecImpl<usize> for Vector<T, D> {
    open spec fn index_req(&self, index: &usize) -> bool {
        *index < D
    }
}

impl<T: Copy, const D: usize> IndexMut<usize> for Vector<T, D> {
    /// The place of the element at `index`, which must lie below `D`. What
    /// is written there becomes that element; the others stay.
    fn index_mut(&mut self, index: usize) -> (r: &mut T)
        requires
            index < D,
        ensures
            *r == old(self)@[index as int],
            final(self)@ == old(self)@.update(index as int, *final(r)),
    {
        &mut self.0[index]
    }
}

impl<T: NumericElement + LaneCount, const D: usize> Sum for Vector<T, D> {
    type Output = T;

    /// The sum of all elements, accumulated chunk by chunk in a register of
    /// the element type's lane count.
    fn sum(self) -> (r: T)
        ensures
            r == crate::chunked::chunked_sum(
                self@,
                crate::simd::effective_lanes(T::lanes_spec()),
            ),
    {
        sum_with_lanes(&self.0, T::lanes())
    }
}

impl<T: NumericElement + LaneCount, const D: usize> Add for Vector<T, D> {
    type Output = Self;

    /// The vector of the sums of the elements at equal positions.
    fn add(self, rhs: Self) -> (r: Self)
        ensures
            r@ == crate::chunked::elementwise_sum(self@, rhs@),
    {
        let r = Self(add_with_lanes(&self.0, &rhs.0, T::lanes()));
        proof {
            Self::lemma_from_seq(r);
        }
        r
    }
}

impl<T: NumericElement + LaneCount, const D: usize>
    vstd::std_specs::ops::AddSpecImpl for Vector<T, D> {
    open spec fn obeys_add_spec() -> bool {
        true
    }

    open spec fn add_req(self, rhs: Self) -> bool {
        true
    }

    open spec fn add_spec(self, rhs: Self) -> Self {
        Self::from_seq(crate::chunked::elementwise_sum(self@, rhs@))
    }
}

impl<T: NumericElement + LaneCount, const D: usize> AddAssign for Vector<T, D> {
    /// Replaces the vector by its sum with `rhs`, as a whole.
    fn add_assign(&mut self, rhs: Self)
        ensures
            final(self)@ == crate::chunked::elementwise_sum(old(self)@, rhs@),
    {
        *self = *self + rhs;
    }
}

impl<T: NumericElement + LaneCount, const D: usize> Mul for Vector<T, D> {
    type Output = Self;

    /// The vector of the products of the elements at equal positions.
    fn mul(self, rhs: Self) -> (r: Self)
        ensures
            r@ == crate::chunked::elementwise_product(self@, rhs@),
    {
        let r = Self(mul_with_lanes(&self.0, &rhs.0, T::lanes()));
        proof {
            Self::lemma_from_seq(r);
        }
        r
    }
}

impl<T: NumericElement + LaneCount, const D: usize>
    vstd::std_specs::ops::MulSpecImpl for Vector<T, D> {
    open spec fn obeys_mul_spec() -> bool {
        true
    }

    open spec fn mul_req(self, rhs: Self) -> bool {
        true
    }

    open spec fn mul_spec(self, rhs: Self) -> Self {
        Self::from_seq(crate::chunked::elementwise_product(self@, rhs@))
    }
}

impl<T: NumericElement + LaneCount, const D: usize> MulAssign for Vector<T, D> {
    /// Replaces the vector by its product with `rhs`, as a whole.
    fn mul_assign(&mut self, rhs: Self)
        ensures
            final(self)@ == crate::chunked::elementwise_product(old(self)@, rhs@),
    {
        *self = *self * rhs;
    }
}

impl<T: NumericElement + LaneCount, const D: usize> Dot for Vector<T, D> {
    type Output = T;

    /// The sum of the products of the elements at equal positions,
    /// accumulated chunk by chunk in a register of the element type's lane
    /// count.
    fn dot(self, rhs: Self) -> (r: T)
        ensures
            r == crate::chunked::chunked_dot(
                self@,
                rhs@,
                crate::simd::effective_lanes(T::lanes_spec()),
            ),
    {
        dot_with_lanes(&self.0, &rhs.0, T::lanes())
    }
}

} // verus!
