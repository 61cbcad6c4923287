//! A position in `D` dimensions.

use crate::element::NumericElement;
use crate::simd::LaneCount;
use crate::vector::Vector;
use core::ops::{Add, Index, IndexMut};
use vstd::prelude::*;

verus! {

/// A position, stored as the vector of its coordinates.
#[derive(Debug, Clone, Copy)]
pub struct Point<T, const D: usize>(Vector<T, D>);

impl<T, const D: usize> View for Point<T, D> {
    type V = Seq<T>;

    /// The coordinates of the point, in order.
    closed spec fn view(&self) -> Seq<T> {
        self.0@
    }
}

impl<T: Copy, const D: usize> Point<T, D> {
    /// The point with the coordinates `point`.
    pub fn new(point: [T; D]) -> (r: Self)
        ensures
            r@ == point@,
    {
        Self(Vector::new(point))
    }

    /// The coordinates of the point as an array.
    pub fn into_inner(&self) -> (r: [T; D])
        ensures
            r@ == self@,
    {
        self.0.into_inner()
    }

    /// The point whose coordinates are `coordinates`, which must be `D` in
    /// number.
    pub closed spec fn from_seq(coordinates: Seq<T>) -> Self {
        choose|point: Self| point@ == coordinates
    }

    /// A point has `D` coordinates.
    pub broadcast proof fn lemma_len(point: Self)
        ensures
            #[trigger] point@.len() == D,
    {
        Vector::lemma_len(point.0);
    }

    /// A point is the only one with its coordinates.
    pub proof fn lemma_from_seq(point: Self)
        ensures
            Self::from_seq(point@) == point,
    {
        let other = Self::from_seq(point@);
        Vector::lemma_from_seq(other.0);
        Vector::lemma_from_seq(point.0);
    }

    /// An array that was made a point, by `new` or `from`, and taken back
    /// by `into_inner` is the array that went in.
    pub proof fn lemma_round_trip(array: [T; D], point: Self, back: [T; D])
        requires
            point@ == array@,
            back@ == point@,
        ensures
            back == array,
    {
        assert(back =~= array);
    }
}

impl<T: Copy, const D: usize> From<[T; D]> for Point<T, D> {
    fn from(point: [T; D]) -> (r: Self)
        ensures
            r@ == point@,
    {
        let r = Self::new(point);
        proof {
            Self::lemma_from_seq(r);
        }
        r
    }
}

impl<T: Copy, const D: usize> vstd::std_specs::convert::FromSpecImpl<[T; D]> for Point<T, D> {
    open spec fn obeys_from_spec() -> bool {
        true
    }

    open spec fn from_spec(point: [T; D]) -> Self {
        Self::from_seq(point@)
    }
}

impl<T: Copy, const D: usize> From<Vector<T, D>> for Point<T, D> {
    fn from(vector: Vector<T, D>) -> (r: Self)
        ensures
            r@ == vector@,
    {
        let r = Self(vector);
        proof {
            Self::lemma_from_seq(r);
        }
        r
    }
}

impl<T: Copy, const D: usize> vstd::std_specs::convert::FromSpecImpl<Vector<T, D>> for Point<T, D> {
    open spec fn obeys_from_spec() -> bool {
        true
    }

    open spec fn from_spec(vector: Vector<T, D>) -> Self {
        Self::from_seq(vector@)
    }
}

impl<T: NumericElement, const D: usize> Default for Point<T, D> {
    /// The origin: the point of `D` zeros.
    fn default() -> (r: Self)
        ensures
            r@ == crate::chunked::zeros::<T>(D as nat),
    {
        Self(Vector::default())
    }
}

impl<T: Copy, const D: usize> Index<usize> for Point<T, D> {
    type Output = T;

    /// The coordinate at `index`, which must lie below `D`.
    fn index(&self, index: usize) -> (r: &T)
        ensures
            *r == self@[index as int],
    {
        &self.0[index]
    }
}

impl<T: Copy, const D: usize> vstd::std_specs::core::IndexSpecImpl<usize> for Point<T, D> {
    open spec fn index_req(&self, index: &usize) -> bool {
        *index < D
    }
}

impl<T: Copy, const D: usize> IndexMut<usize> for Point<T, D> {
    /// The place of the coordinate at `index`, which must lie below `D`.
    /// What is written there becomes that coordinate; the others stay.
    fn index_mut(&mut self, index: usize) -> (r: &mut T)
        requires
            index < D,
        ensures
            *r == old(self)@[index as int],
            final(self)@ == old(self)@.update(index as int, *final(r)),
    {
        self.0.index_mut(index)
    }
}

impl<T: NumericElement + LaneCount, const D: usize> Add for Point<T, D> {
    type Output = Self;

    /// The point moved by `rhs`: the coordinates are added as those of two
    /// vectors are.
    fn add(self, rhs: Self) -> (r: Self)
        ensures
            r@ == crate::chunked::elementwise_sum(self@, rhs@),
    {
        let r = Self(self.0 + rhs.0);
        proof {
            Self::lemma_from_seq(r);
        }
        r
    }
}

impl<T: NumericElement + LaneCount, const D: usize>
    vstd::std_specs::ops::AddSpecImpl for Point<T, D> {
    open spec fn obeys_add_spec() -> bool {
        true
    }

    open spec fn add_req(self, rhs: Self) -> bool {
        true
    }

    open spec fn add_spec(self, rhs: Self) -> Self {
        Self::from_seq(crate::chunked::elementwise_sum(self@, rhs@))
    }
}

} // verus!
