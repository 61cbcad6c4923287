//! What holds of the chunked arithmetic when the elements are exact: the
//! lane count and the padding leave no trace in a result.

use crate::chunked;
use crate::element::{ExactElement, NumericElement};
use vstd::prelude::*;

verus! {

/// The sum of two sequences in a row is the sum of their sums.
proof fn lemma_sum_concat<T: ExactElement>(s: Seq<T>, t: Seq<T>)
    ensures
        chunked::scalar_sum(s + t) == chunked::scalar_sum(s).plus_spec(chunked::scalar_sum(t)),
    decreases t.len(),
{
    if t.len() == 0 {
        assert(s + t =~= s);
        T::lemma_plus_zero(chunked::scalar_sum(s));
    } else {
        let head = t.drop_last();
        assert((s + t).drop_last() =~= s + head);
        lemma_sum_concat(s, head);
        T::lemma_plus_associative(chunked::scalar_sum(s), chunked::scalar_sum(head), t.last());
    }
}

/// A register of zeros adds up to zero, where zero plus zero is zero.
proof fn lemma_sum_zeros<T: NumericElement>(lanes: nat)
    requires
        T::zero_spec().plus_spec(T::zero_spec()) == T::zero_spec(),
    ensures
        chunked::scalar_sum(chunked::zeros::<T>(lanes)) == T::zero_spec(),
    decreases lanes,
{
    if lanes > 0 {
        let rest = (lanes - 1) as nat;
        assert(chunked::zeros::<T>(lanes).drop_last() =~= chunked::zeros::<T>(rest));
        lemma_sum_zeros::<T>(rest);
    }
}

/// Adding two registers lane by lane and then adding up the lanes gives the
/// sum of the two registers' sums.
proof fn lemma_sum_elementwise<T: ExactElement>(x: Seq<T>, y: Seq<T>)
    requires
        x.len() == y.len(),
    ensures
        chunked::scalar_sum(chunked::elementwise_sum(x, y)) == chunked::scalar_sum(x).plus_spec(
            chunked::scalar_sum(y),
        ),
    decreases x.len(),
{
    if x.len() == 0 {
        T::lemma_plus_zero(T::zero_spec());
    } else {
        let xs = x.drop_last();
        let ys = y.drop_last();
        assert(chunked::elementwise_sum(x, y).drop_last() =~= chunked::elementwise_sum(xs, ys));
        lemma_sum_elementwise(xs, ys);
        let a = chunked::scalar_sum(xs);
        let b = chunked::scalar_sum(ys);
        let p = x.last();
        let q = y.last();
        // (a + b) + (p + q) == a + (b + (p + q)) == a + ((b + p) + q)
        //                   == a + ((p + b) + q) == a + (p + (b + q)) == (a + p) + (b + q)
        T::lemma_plus_associative(a, b, p.plus_spec(q));
        T::lemma_plus_associative(b, p, q);
        T::lemma_plus_commutative(b, p);
        T::lemma_plus_associative(p, b, q);
        T::lemma_plus_associative(a, p, b.plus_spec(q));
    }
}

/// The accumulator has one lane for each lane of the register.
proof fn lemma_accumulate_len<T: ExactElement>(terms: Seq<T>, lanes: nat, chunks: nat)
    ensures
        chunked::accumulate(terms, lanes, chunks).len() == lanes,
    decreases chunks,
{
    if chunks > 0 {
        lemma_accumulate_len(terms, lanes, (chunks - 1) as nat);
    }
}

/// After `chunks` chunks the lanes of the accumulator add up to the sum of
/// the terms that those chunks hold.
proof fn lemma_accumulate_sum<T: ExactElement>(terms: Seq<T>, lanes: nat, chunks: nat)
    requires
        chunks * lanes <= terms.len(),
    ensures
        chunked::scalar_sum(chunked::accumulate(terms, lanes, chunks)) == chunked::scalar_sum(
            terms.take((chunks * lanes) as int),
        ),
    decreases chunks,
{
    if chunks == 0 {
        T::lemma_plus_zero(T::zero_spec());
        lemma_sum_zeros::<T>(lanes);
        assert(0 * lanes == 0) by (nonlinear_arith);
        assert(terms.take(0) =~= Seq::<T>::empty());
    } else {
        let before = (chunks - 1) as nat;
        assert(before * lanes + lanes == chunks * lanes) by (nonlinear_arith)
            requires
                before + 1 == chunks,
        ;
        let seen = terms.take((before * lanes) as int);
        let chunk = terms.subrange((before * lanes) as int, (chunks * lanes) as int);
        lemma_accumulate_len(terms, lanes, before);
        lemma_accumulate_sum(terms, lanes, before);
        lemma_sum_elementwise(chunked::accumulate(terms, lanes, before), chunk);
        assert(terms.take((chunks * lanes) as int) =~= seen + chunk);
        lemma_sum_concat(seen, chunk);
    }
}

/// The padded length is a multiple of the lane count.
proof fn lemma_padded_len_is_multiple(len: nat, lanes: nat)
    requires
        lanes > 0,
    ensures
        chunked::padded_len(len, lanes) % lanes == 0,
{
    chunked::lemma_partition(len, lanes);
    let chunks = chunked::padded_len(len, lanes) / lanes;
    vstd::arithmetic::div_mod::lemma_mod_multiples_basic(chunks as int, lanes as int);
}

/// Exact terms add up to the same total whether they are added from left
/// to right or chunk by chunk in a register of any lane count.
pub proof fn lemma_chunked_total_is_scalar_sum<T: ExactElement>(terms: Seq<T>, lanes: nat)
    requires
        lanes > 0,
        terms.len() % lanes == 0,
    ensures
        chunked::chunked_total(terms, lanes) == chunked::scalar_sum(terms),
{
    let chunks = terms.len() / lanes;
    vstd::arithmetic::div_mod::lemma_fundamental_div_mod(terms.len() as int, lanes as int);
    assert(chunks * lanes == lanes * chunks) by (nonlinear_arith);
    lemma_accumulate_sum(terms, lanes, chunks);
    assert(terms.take((chunks * lanes) as int) =~= terms);
}

/// Zeros behind a sequence of exact elements do not change its sum.
pub proof fn lemma_padding_keeps_sum<T: ExactElement>(s: Seq<T>, len: nat)
    requires
        s.len() <= len,
    ensures
        chunked::scalar_sum(chunked::zero_padded(s, len)) == chunked::scalar_sum(s),
{
    let padding = chunked::zeros::<T>((len - s.len()) as nat);
    assert(chunked::zero_padded(s, len) =~= s + padding);
    lemma_sum_concat(s, padding);
    T::lemma_plus_zero(T::zero_spec());
    lemma_sum_zeros::<T>((len - s.len()) as nat);
    T::lemma_plus_zero(chunked::scalar_sum(s));
}

/// The chunked sum of exact elements is their left-to-right sum, whatever
/// the lane count.
pub proof fn lemma_chunked_sum_is_scalar_sum<T: ExactElement>(v: Seq<T>, lanes: nat)
    requires
        lanes > 0,
    ensures
        chunked::chunked_sum(v, lanes) == chunked::scalar_sum(v),
{
    let len = chunked::padded_len(v.len(), lanes);
    chunked::lemma_partition(v.len(), lanes);
    lemma_padded_len_is_multiple(v.len(), lanes);
    lemma_chunked_total_is_scalar_sum(chunked::zero_padded(v, len), lanes);
    lemma_padding_keeps_sum(v, len);
}

/// The chunked dot product of exact elements is the left-to-right sum of
/// the products, whatever the lane count.
pub proof fn lemma_chunked_dot_is_scalar_dot<T: ExactElement>(a: Seq<T>, b: Seq<T>, lanes: nat)
    requires
        lanes > 0,
        a.len() == b.len(),
    ensures
        chunked::chunked_dot(a, b, lanes) == chunked::scalar_dot(a, b),
{
    let len = chunked::padded_len(a.len(), lanes);
    let products = chunked::elementwise_product(a, b);
    let terms = chunked::elementwise_product(
        chunked::zero_padded(a, len),
        chunked::zero_padded(b, len),
    );
    chunked::lemma_partition(a.len(), lanes);
    lemma_padded_len_is_multiple(a.len(), lanes);
    T::lemma_zero_times_zero();
    assert(terms =~= chunked::zero_padded(products, len));
    lemma_chunked_total_is_scalar_sum(terms, lanes);
    lemma_padding_keeps_sum(products, len);
}

/// The sum of a vector of exact elements is the left-to-right sum of its
/// elements, and the dot product of two such vectors is the left-to-right
/// sum of the products, whatever lane count the element type asks for.
pub proof fn lemma_exact_reductions<T: ExactElement>(a: Seq<T>, b: Seq<T>, lanes: usize)
    requires
        a.len() == b.len(),
    ensures
        chunked::chunked_sum(a, crate::simd::effective_lanes(lanes)) == chunked::scalar_sum(a),
        chunked::chunked_dot(a, b, crate::simd::effective_lanes(lanes)) == chunked::scalar_dot(
            a,
            b,
        ),
{
    lemma_chunked_sum_is_scalar_sum(a, crate::simd::effective_lanes(lanes));
    lemma_chunked_dot_is_scalar_dot(a, b, crate::simd::effective_lanes(lanes));
}

/// Exact results do not depend on the lane count.
pub proof fn lemma_lane_count_is_invisible<T: ExactElement>(
    a: Seq<T>,
    b: Seq<T>,
    lanes: nat,
    other: nat,
)
    requires
        lanes > 0,
        other > 0,
        a.len() == b.len(),
    ensures
        chunked::chunked_sum(a, lanes) == chunked::chunked_sum(a, other),
        chunked::chunked_dot(a, b, lanes) == chunked::chunked_dot(a, b, other),
{
    lemma_chunked_sum_is_scalar_sum(a, lanes);
    lemma_chunked_sum_is_scalar_sum(a, other);
    lemma_chunked_dot_is_scalar_dot(a, b, lanes);
    lemma_chunked_dot_is_scalar_dot(a, b, other);
}

/// The elementwise sum of exact elements is commutative.
pub proof fn lemma_elementwise_sum_commutative<T: ExactElement>(a: Seq<T>, b: Seq<T>)
    requires
        a.len() == b.len(),
    ensures
        chunked::elementwise_sum(a, b) == chunked::elementwise_sum(b, a),
{
    assert forall|i: int| 0 <= i < a.len() implies a[i].plus_spec(b[i]) == b[i].plus_spec(
        a[i],
    ) by {
        T::lemma_plus_commutative(a[i], b[i]);
    }
    assert(chunked::elementwise_sum(a, b) =~= chunked::elementwise_sum(b, a));
}

/// Of no elements the sum and the dot product are zero, for every element
/// type whose zero added to itself is zero, and the elementwise sum and
/// product are empty.
pub proof fn lemma_empty<T: NumericElement>(lanes: nat)
    requires
        lanes > 0,
        T::zero_spec().plus_spec(T::zero_spec()) == T::zero_spec(),
    ensures
        chunked::chunked_sum(Seq::<T>::empty(), lanes) == T::zero_spec(),
        chunked::chunked_dot(Seq::<T>::empty(), Seq::<T>::empty(), lanes) == T::zero_spec(),
        chunked::elementwise_sum(Seq::<T>::empty(), Seq::<T>::empty()) == Seq::<T>::empty(),
        chunked::elementwise_product(Seq::<T>::empty(), Seq::<T>::empty()) == Seq::<T>::empty(),
{
    let none = Seq::<T>::empty();
    chunked::lemma_partition(0, lanes);
    assert(chunked::zero_padded(none, 0) =~= none);
    assert(chunked::elementwise_product(none, none) =~= none);
    assert(chunked::elementwise_sum(none, none) =~= none);
    lemma_sum_zeros::<T>(lanes);
}

} // verus!
