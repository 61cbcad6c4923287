//! A matrix stored as its columns.

use crate::element::NumericElement;
use crate::vector::Vector;
use core::ops::{Index, IndexMut};
use vstd::prelude::*;

verus! {

/// `C` columns of `R` elements each. A matrix is read and written one whole
/// column at a time.
#[derive(Debug, Clone, Copy)]
pub struct Matrix<T, const R: usize, const C: usize>([Vector<T, R>; C]);

impl<T, const R: usize, const C: usize> View for Matrix<T, R, C> {
    type V = Seq<Seq<T>>;

    /// The columns of the matrix, in order, each with its elements in order.
    closed spec fn view(&self) -> Seq<Seq<T>> {
        Seq::new(C as nat, |column: int| self.0@[column]@)
    }
}

/// The elements of each array of `columns`, in order.
pub open spec fn column_views<T, const R: usize, const C: usize>(columns: [[T; R]; C]) -> Seq<
    Seq<T>,
> {
    Seq::new(C as nat, |column: int| columns@[column]@)
}

impl<T: NumericElement, const R: usize, const C: usize> Matrix<T, R, C> {
    /// The matrix whose columns are the arrays of `matrix`.
    pub fn new(matrix: [[T; R]; C]) -> (r: Self)
        ensures
            r@ == column_views(matrix),
    {
        let zero: Vector<T, R> = Vector::default();
        let mut data = [zero; C];
        let mut index: usize = 0;
        while index < C
            invariant
                index <= C,
                forall|column: int| 0 <= column < index ==> data@[column]@ == matrix@[column]@,
            decreases C - index,
        {
            data[index] = Vector::new(matrix[index]);
            index += 1;
        }
        let r = Self(data);
        assert(r@ =~= column_views(matrix));
        r
    }
}

impl<T: Copy, const R: usize, const C: usize> Matrix<T, R, C> {
    /// The matrix whose columns hold the elements of `columns`, which must
    /// be `C` sequences of `R` elements.
    pub closed spec fn from_seq(columns: Seq<Seq<T>>) -> Self {
        choose|matrix: Self| matrix@ == columns
    }

    /// A matrix has `C` columns of `R` elements each.
    pub broadcast proof fn lemma_len(matrix: Self)
        ensures
            #[trigger] matrix@.len() == C,
            forall|column: int| 0 <= column < C ==> (#[trigger] matrix@[column]).len() == R,
    {
        assert forall|column: int| 0 <= column < C implies (#[trigger] matrix@[column]).len()
            == R by {
            Vector::lemma_len(matrix.0@[column]);
        }
    }

    /// A matrix is the only one with its columns.
    pub proof fn lemma_from_seq(matrix: Self)
        ensures
            Self::from_seq(matrix@) == matrix,
    {
        let other = Self::from_seq(matrix@);
        assert forall|column: int| 0 <= column < C implies other.0@[column]
            == matrix.0@[column] by {
            assert(other@[column] == matrix@[column]);
            Vector::lemma_from_seq(other.0@[column]);
            Vector::lemma_from_seq(matrix.0@[column]);
        }
        assert(other.0 =~= matrix.0);
    }
}

impl<T: NumericElement, const R: usize, const C: usize> From<[[T; R]; C]> for Matrix<T, R, C> {
    fn from(matrix: [[T; R]; C]) -> (r: Self)
        ensures
            r@ == column_views(matrix),
    {
        let r = Self::new(matrix);
        proof {
            Self::lemma_from_seq(r);
        }
        r
    }
}

impl<T: NumericElement, const R: usize, const C: usize>
    vstd::std_specs::convert::FromSpecImpl<[[T; R]; C]> for Matrix<T, R, C> {
    open spec fn obeys_from_spec() -> bool {
        true
    }

    open spec fn from_spec(matrix: [[T; R]; C]) -> Self {
        Self::from_seq(column_views(matrix))
    }
}

impl<T: NumericElement, const R: usize, const C: usize> Default for Matrix<T, R, C> {
    /// The matrix of zeros.
    fn default() -> (r: Self)
        ensures
            r@ == Seq::new(C as nat, |column: int| crate::chunked::zeros::<T>(R as nat)),
    {
        let zero: Vector<T, R> = Vector::default();
        let columns = [zero; C];
        assert(columns == vstd::array::spec_array_fill_for_copy_type::<Vector<T, R>, C>(zero));
        let r = Self(columns);
        assert(r@ =~= Seq::new(C as nat, |column: int| crate::chunked::zeros::<T>(R as nat)));
        r
    }
}

impl<T: Copy, const R: usize, const C: usize> Index<usize> for Matrix<T, R, C> {
    type Output = Vector<T, R>;

    /// The column at `index`, which must lie below `C`.
    fn index(&self, index: usize) -> (r: &Vector<T, R>)
        ensures
            r@ == self@[index as int],
    {
        &self.0[index]
    }
}

impl<T: Copy, const R: usize, const C: usize>
    vstd::std_specs::core::IndexSpecImpl<usize> for Matrix<T, R, C> {
    open spec fn index_req(&self, index: &usize) -> bool {
        *index < C
    }
}

impl<T: Copy, const R: usize, const C: usize> IndexMut<usize> for Matrix<T, R, C> {
    /// The place of the column at `index`, which must lie below `C`. The
    /// vector written there becomes that column; the others stay.
    fn index_mut(&mut self, index: usize) -> (r: &mut Vector<T, R>)
        requires
            index < C,
        ensures
            r@ == old(self)@[index as int],
            final(self)@ == old(self)@.update(index as int, final(r)@),
    {
        &mut self.0[index]
    }
}

} // verus!
