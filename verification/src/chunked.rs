//! The chunked reduction engine: arithmetic on fixed-length arrays, carried
//! out one register of `L` lanes at a time.
//!
//! An array of `D` elements is cut into `D / L` full chunks and a remainder
//! of `D % L` elements. Each full chunk is handled by one lane-parallel
//! operation; the remainder, if there is one, is padded with zeros to a full
//! chunk and handled in the same way.

use crate::element::NumericElement;
use vstd::prelude::*;

verus! {

/// The left-to-right sum of a sequence, starting from zero.
pub open spec fn scalar_sum<T: NumericElement>(s: Seq<T>) -> T
    decreases s.len(),
{
    if s.len() == 0 {
        T::zero_spec()
    } else {
        scalar_sum(s.drop_last()).plus_spec(s.last())
    }
}

/// The sums of the elements of `a` and `b` at equal positions.
pub open spec fn elementwise_sum<T: NumericElement>(a: Seq<T>, b: Seq<T>) -> Seq<T> {
    Seq::new(a.len(), |i: int| a[i].plus_spec(b[i]))
}

/// The products of the elements of `a` and `b` at equal positions.
pub open spec fn elementwise_product<T: NumericElement>(a: Seq<T>, b: Seq<T>) -> Seq<T> {
    Seq::new(a.len(), |i: int| a[i].times_spec(b[i]))
}

/// The left-to-right sum of the products of `a` and `b`.
pub open spec fn scalar_dot<T: NumericElement>(a: Seq<T>, b: Seq<T>) -> T {
    scalar_sum(elementwise_product(a, b))
}

/// A register of `lanes` zeros.
pub open spec fn zeros<T: NumericElement>(lanes: nat) -> Seq<T> {
    Seq::new(lanes, |i: int| T::zero_spec())
}

/// The smallest multiple of `lanes` that is at least `len`.
pub open spec fn padded_len(len: nat, lanes: nat) -> nat {
    if len % lanes == 0 {
        len
    } else {
        (len - len % lanes + lanes) as nat
    }
}

/// The sequence `s` followed by zeros up to the length `len`.
pub open spec fn zero_padded<T: NumericElement>(s: Seq<T>, len: nat) -> Seq<T> {
    Seq::new(
        len,
        |i: int|
            if i < s.len() {
                s[i]
            } else {
                T::zero_spec()
            },
    )
}

/// The accumulator register after the first `chunks` chunks of `terms` were
/// added to it, lane by lane, starting from a register of zeros.
pub open spec fn accumulate<T: NumericElement>(terms: Seq<T>, lanes: nat, chunks: nat) -> Seq<T>
    decreases chunks,
{
    if chunks == 0 {
        zeros(lanes)
    } else {
        elementwise_sum(
            accumulate(terms, lanes, (chunks - 1) as nat),
            terms.subrange((chunks - 1) * lanes, (chunks * lanes) as int),
        )
    }
}

/// The sum of `terms`, whose length is a multiple of `lanes`, as the chunked
/// reduction computes it: all chunks are accumulated in one register, whose
/// lanes are then added up from left to right.
pub open spec fn chunked_total<T: NumericElement>(terms: Seq<T>, lanes: nat) -> T {
    scalar_sum(accumulate(terms, lanes, terms.len() / lanes))
}

/// The sum of `v` as the engine computes it with registers of `lanes` lanes.
pub open spec fn chunked_sum<T: NumericElement>(v: Seq<T>, lanes: nat) -> T {
    chunked_total(zero_padded(v, padded_len(v.len(), lanes)), lanes)
}

/// The dot product of `a` and `b` as the engine computes it with registers
/// of `lanes` lanes: both operands are padded with zeros before they are
/// multiplied.
pub open spec fn chunked_dot<T: NumericElement>(a: Seq<T>, b: Seq<T>, lanes: nat) -> T {
    let len = padded_len(a.len(), lanes);
    chunked_total(elementwise_product(zero_padded(a, len), zero_padded(b, len)), lanes)
}

/// Reads the `L` elements of `v` that start at `start` into a register.
pub fn load_chunk<T: NumericElement, const D: usize, const L: usize>(
    v: &[T; D],
    start: usize,
) -> (r: [T; L])
    requires
        start + L <= D,
    ensures
        r@ == v@.subrange(start as int, start + L),
{
    let mut register = [T::zero(); L];
    let mut lane: usize = 0;
    while lane < L
        invariant
            start + L <= D,
            lane <= L,
            forall|i: int| 0 <= i < lane ==> register@[i] == v@[start + i],
        decreases L - lane,
    {
        register[lane] = v[start + lane];
        lane += 1;
    }
    assert(register@ =~= v@.subrange(start as int, start + L));
    register
}

/// Reads the last elements of `v`, from `start` on, into a register and
/// fills the lanes that are left with zeros.
pub fn load_remainder<T: NumericElement, const D: usize, const L: usize>(
    v: &[T; D],
    start: usize,
) -> (r: [T; L])
    requires
        start <= D,
        D - start <= L,
    ensures
        r@ == zero_padded(v@.subrange(start as int, D as int), L as nat),
{
    let mut register = [T::zero(); L];
    let count: usize = D - start;
    let mut lane: usize = 0;
    while lane < count
        invariant
            start <= D,
            count == D - start,
            count <= L,
            lane <= count,
            forall|i: int| 0 <= i < lane ==> register@[i] == v@[start + i],
            forall|i: int| lane <= i < L ==> register@[i] == T::zero_spec(),
        decreases count - lane,
    {
        register[lane] = v[start + lane];
        lane += 1;
    }
    assert(register@ =~= zero_padded(v@.subrange(start as int, D as int), L as nat));
    register
}

/// Adds two registers lane by lane.
pub fn lanes_plus<T: NumericElement, const L: usize>(a: &[T; L], b: &[T; L]) -> (r: [T; L])
    ensures
        r@ == elementwise_sum(a@, b@),
{
    let mut register = *a;
    let mut lane: usize = 0;
    while lane < L
        invariant
            lane <= L,
            forall|i: int| 0 <= i < lane ==> register@[i] == a@[i].plus_spec(b@[i]),
            forall|i: int| lane <= i < L ==> register@[i] == a@[i],
        decreases L - lane,
    {
        register[lane] = a[lane].plus(b[lane]);
        lane += 1;
    }
    assert(register@ =~= elementwise_sum(a@, b@));
    register
}

/// Multiplies two registers lane by lane.
pub fn lanes_times<T: NumericElement, const L: usize>(a: &[T; L], b: &[T; L]) -> (r: [T; L])
    ensures
        r@ == elementwise_product(a@, b@),
{
    let mut register = *a;
    let mut lane: usize = 0;
    while lane < L
        invariant
            lane <= L,
            forall|i: int| 0 <= i < lane ==> register@[i] == a@[i].times_spec(b@[i]),
            forall|i: int| lane <= i < L ==> register@[i] == a@[i],
        decreases L - lane,
    {
        register[lane] = a[lane].times(b[lane]);
        lane += 1;
    }
    assert(register@ =~= elementwise_product(a@, b@));
    register
}

/// Adds up the lanes of a register from left to right, starting from zero.
pub fn horizontal_sum<T: NumericElement, const L: usize>(register: &[T; L]) -> (r: T)
    ensures
        r == scalar_sum(register@),
{
    let mut total = T::zero();
    let mut lane: usize = 0;
    while lane < L
        invariant
            lane <= L,
            total == scalar_sum(register@.take(lane as int)),
        decreases L - lane,
    {
        assert(register@.take(lane + 1).drop_last() =~= register@.take(lane as int));
        total = total.plus(register[lane]);
        lane += 1;
    }
    assert(register@.take(L as int) =~= register@);
    total
}

/// Writes a register to the `L` elements of `out` that start at `start`.
pub fn store_chunk<T: Copy, const D: usize, const L: usize>(
    out: &mut [T; D],
    start: usize,
    register: &[T; L],
)
    requires
        start + L <= D,
    ensures
        forall|i: int| start <= i < start + L ==> final(out)@[i] == register@[i - start],
        forall|i: int| 0 <= i < start || start + L <= i < D ==> final(out)@[i] == old(out)@[i],
{
    let mut lane: usize = 0;
    while lane < L
        invariant
            start + L <= D,
            lane <= L,
            forall|i: int| start <= i < start + lane ==> out@[i] == register@[i - start],
            forall|i: int| 0 <= i < start || start + lane <= i < D ==> out@[i] == old(out)@[i],
        decreases L - lane,
    {
        out[start + lane] = register[lane];
        lane += 1;
    }
}

/// How `len` elements split into full chunks of `lanes` and a remainder,
/// and how many chunks the padded length holds.
pub proof fn lemma_partition(len: nat, lanes: nat)
    requires
        lanes > 0,
    ensures
        len == (len / lanes) * lanes + len % lanes,
        len % lanes < lanes,
        len <= padded_len(len, lanes),
        len % lanes == 0 ==> padded_len(len, lanes) == (len / lanes) * lanes,
        len % lanes == 0 ==> padded_len(len, lanes) / lanes == len / lanes,
        len % lanes != 0 ==> padded_len(len, lanes) == (len / lanes + 1) * lanes,
        len % lanes != 0 ==> padded_len(len, lanes) / lanes == len / lanes + 1,
{
    let q = len / lanes;
    let r = len % lanes;
    vstd::arithmetic::div_mod::lemma_fundamental_div_mod(len as int, lanes as int);
    vstd::arithmetic::div_mod::lemma_mod_bound(len as int, lanes as int);
    assert(lanes * q == q * lanes) by (nonlinear_arith);
    assert((q + 1) * lanes == q * lanes + lanes) by (nonlinear_arith);
    if r == 0 {
        vstd::arithmetic::div_mod::lemma_fundamental_div_mod_converse(
            padded_len(len, lanes) as int,
            lanes as int,
            q as int,
            0,
        );
    } else {
        vstd::arithmetic::div_mod::lemma_fundamental_div_mod_converse(
            padded_len(len, lanes) as int,
            lanes as int,
            (q + 1) as int,
            0,
        );
    }
}

/// The full chunk with the number `chunk` lies inside the array.
proof fn lemma_chunk_in_bounds(len: nat, lanes: nat, chunk: nat)
    requires
        lanes > 0,
        chunk < len / lanes,
    ensures
        chunk * lanes + lanes <= (len / lanes) * lanes <= len,
{
    lemma_partition(len, lanes);
    assert(chunk * lanes + lanes <= (len / lanes) * lanes) by (nonlinear_arith)
        requires
            chunk + 1 <= len / lanes,
            lanes > 0,
    ;
}

/// The sum of all elements of `v`, computed in registers of `L` lanes: the
/// full chunks are accumulated lane by lane, the remainder is padded with
/// zeros and accumulated as one more chunk, and the lanes of the accumulator
/// are added up at the end.
pub fn sum_chunked<T: NumericElement, const D: usize, const L: usize>(v: &[T; D]) -> (r: T)
    requires
        L > 0,
    ensures
        r == chunked_sum(v@, L as nat),
{
    let chunks: usize = D / L;
    let remainder: usize = D % L;
    let ghost terms = zero_padded(v@, padded_len(D as nat, L as nat));
    proof {
        lemma_partition(D as nat, L as nat);
    }
    let mut accumulator = [T::zero(); L];
    assert(accumulator@ =~= zeros::<T>(L as nat));
    let mut chunk: usize = 0;
    while chunk < chunks
        invariant
            L > 0,
            chunks == D / L,
            chunk <= chunks,
            terms == zero_padded(v@, padded_len(D as nat, L as nat)),
            accumulator@ == accumulate(terms, L as nat, chunk as nat),
        decreases chunks - chunk,
    {
        proof {
            lemma_partition(D as nat, L as nat);
            lemma_chunk_in_bounds(D as nat, L as nat, chunk as nat);
        }
        let register = load_chunk::<T, D, L>(v, chunk * L);
        assert(register@ =~= terms.subrange(chunk * L, (chunk + 1) * L)) by {
            assert((chunk + 1) * L == chunk * L + L) by (nonlinear_arith);
        }
        accumulator = lanes_plus(&accumulator, &register);
        chunk += 1;
    }
    if remainder != 0 {
        let register = load_remainder::<T, D, L>(v, chunks * L);
        assert(register@ =~= terms.subrange(chunks * L, (chunks + 1) * L)) by {
            assert((chunks + 1) * L == chunks * L + L) by (nonlinear_arith);
        }
        accumulator = lanes_plus(&accumulator, &register);
    }
    horizontal_sum(&accumulator)
}

/// The dot product of `a` and `b`, computed in registers of `L` lanes: the
/// products of each pair of full chunks are accumulated lane by lane, both
/// remainders are padded with zeros, multiplied and accumulated as one more
/// chunk, and the lanes of the accumulator are added up at the end.
pub fn dot_chunked<T: NumericElement, const D: usize, const L: usize>(a: &[T; D], b: &[T; D]) -> (r:
    T)
    requires
        L > 0,
    ensures
        r == chunked_dot(a@, b@, L as nat),
{
    let chunks: usize = D / L;
    let remainder: usize = D % L;
    let ghost len = padded_len(D as nat, L as nat);
    let ghost terms = elementwise_product(zero_padded(a@, len), zero_padded(b@, len));
    proof {
        lemma_partition(D as nat, L as nat);
    }
    let mut accumulator = [T::zero(); L];
    assert(accumulator@ =~= zeros::<T>(L as nat));
    let mut chunk: usize = 0;
    while chunk < chunks
        invariant
            L > 0,
            chunks == D / L,
            chunk <= chunks,
            len == padded_len(D as nat, L as nat),
            terms == elementwise_product(zero_padded(a@, len), zero_padded(b@, len)),
            accumulator@ == accumulate(terms, L as nat, chunk as nat),
        decreases chunks - chunk,
    {
        proof {
            lemma_partition(D as nat, L as nat);
            lemma_chunk_in_bounds(D as nat, L as nat, chunk as nat);
        }
        let left = load_chunk::<T, D, L>(a, chunk * L);
        let right = load_chunk::<T, D, L>(b, chunk * L);
        let products = lanes_times(&left, &right);
        assert(products@ =~= terms.subrange(chunk * L, (chunk + 1) * L)) by {
            assert((chunk + 1) * L == chunk * L + L) by (nonlinear_arith);
        }
        accumulator = lanes_plus(&accumulator, &products);
        chunk += 1;
    }
    if remainder != 0 {
        let left = load_remainder::<T, D, L>(a, chunks * L);
        let right = load_remainder::<T, D, L>(b, chunks * L);
        let products = lanes_times(&left, &right);
        assert(products@ =~= terms.subrange(chunks * L, (chunks + 1) * L)) by {
            assert((chunks + 1) * L == chunks * L + L) by (nonlinear_arith);
        }
        accumulator = lanes_plus(&accumulator, &products);
    }
    horizontal_sum(&accumulator)
}

/// The elementwise sum of `a` and `b`, computed in registers of `L` lanes:
/// each pair of full chunks is added by one lane-parallel addition, and the
/// elements of the remainder are added one by one, so that no padding
/// reaches the result.
pub fn add_chunked<T: NumericElement, const D: usize, const L: usize>(a: &[T; D], b: &[T; D]) -> (r:
    [T; D])
    requires
        L > 0,
    ensures
        r@ == elementwise_sum(a@, b@),
{
    let chunks: usize = D / L;
    let remainder: usize = D % L;
    proof {
        lemma_partition(D as nat, L as nat);
    }
    let mut result = [T::zero(); D];
    let mut chunk: usize = 0;
    while chunk < chunks
        invariant
            L > 0,
            chunks == D / L,
            chunk <= chunks,
            chunk * L <= D,
            forall|i: int| 0 <= i < chunk * L ==> result@[i] == a@[i].plus_spec(b@[i]),
        decreases chunks - chunk,
    {
        proof {
            lemma_chunk_in_bounds(D as nat, L as nat, chunk as nat);
            assert((chunk + 1) * L == chunk * L + L) by (nonlinear_arith);
        }
        let left = load_chunk::<T, D, L>(a, chunk * L);
        let right = load_chunk::<T, D, L>(b, chunk * L);
        let sums = lanes_plus(&left, &right);
        store_chunk(&mut result, chunk * L, &sums);
        chunk += 1;
    }
    let mut index: usize = 0;
    while index < remainder
        invariant
            remainder == D % L,
            chunks == D / L,
            D == chunks * L + remainder,
            index <= remainder,
            forall|i: int| 0 <= i < D - remainder + index ==> result@[i] == a@[i].plus_spec(b@[i]),
        decreases remainder - index,
    {
        let at: usize = D - remainder + index;
        result[at] = a[at].plus(b[at]);
        index += 1;
    }
    assert(result@ =~= elementwise_sum(a@, b@));
    result
}

/// The elementwise product of `a` and `b`, computed in registers of `L`
/// lanes: each pair of full chunks is multiplied by one lane-parallel
/// multiplication, and the elements of the remainder are multiplied one by
/// one, so that no padding reaches the result.
pub fn mul_chunked<T: NumericElement, const D: usize, const L: usize>(a: &[T; D], b: &[T; D]) -> (r:
    [T; D])
    requires
        L > 0,
    ensures
        r@ == elementwise_product(a@, b@),
{
    let chunks: usize = D / L;
    let remainder: usize = D % L;
    proof {
        lemma_partition(D as nat, L as nat);
    }
    let mut result = [T::zero(); D];
    let mut chunk: usize = 0;
    while chunk < chunks
        invariant
            L > 0,
            chunks == D / L,
            chunk <= chunks,
            chunk * L <= D,
            forall|i: int| 0 <= i < chunk * L ==> result@[i] == a@[i].times_spec(b@[i]),
        decreases chunks - chunk,
    {
        proof {
            lemma_chunk_in_bounds(D as nat, L as nat, chunk as nat);
            assert((chunk + 1) * L == chunk * L + L) by (nonlinear_arith);
        }
        let left = load_chunk::<T, D, L>(a, chunk * L);
        let right = load_chunk::<T, D, L>(b, chunk * L);
        let products = lanes_times(&left, &right);
        store_chunk(&mut result, chunk * L, &products);
        chunk += 1;
    }
    let mut index: usize = 0;
    while index < remainder
        invariant
            remainder == D % L,
            chunks == D / L,
            D == chunks * L + remainder,
            index <= remainder,
            forall|i: int| 0 <= i < D - remainder + index ==> result@[i] == a@[i].times_spec(b@[i]),
        decreases remainder - index,
    {
        let at: usize = D - remainder + index;
        result[at] = a[at].times(b[at]);
        index += 1;
    }
    assert(result@ =~= elementwise_product(a@, b@));
    result
}

/// The sum of `v` for an element type that asks for `lanes` lanes. A lane
/// count that the arithmetic is not laid out for runs with one lane.
pub fn sum_with_lanes<T: NumericElement, const D: usize>(v: &[T; D], lanes: usize) -> (r: T)
    ensures
        r == chunked_sum(v@, crate::simd::effective_lanes(lanes)),
{
    if lanes == 16 {
        sum_chunked::<T, D, 16>(v)
    } else if lanes == 8 {
        sum_chunked::<T, D, 8>(v)
    } else if lanes == 4 {
        sum_chunked::<T, D, 4>(v)
    } else if lanes == 2 {
        sum_chunked::<T, D, 2>(v)
    } else {
        sum_chunked::<T, D, 1>(v)
    }
}

/// The dot product of `a` and `b` for an element type that asks for `lanes`
/// lanes. A lane count that the arithmetic is not laid out for runs with one
/// lane.
pub fn dot_with_lanes<T: NumericElement, const D: usize>(
    a: &[T; D],
    b: &[T; D],
    lanes: usize,
) -> (r: T)
    ensures
        r == chunked_dot(a@, b@, crate::simd::effective_lanes(lanes)),
{
    if lanes == 16 {
        dot_chunked::<T, D, 16>(a, b)
    } else if lanes == 8 {
        dot_chunked::<T, D, 8>(a, b)
    } else if lanes == 4 {
        dot_chunked::<T, D, 4>(a, b)
    } else if lanes == 2 {
        dot_chunked::<T, D, 2>(a, b)
    } else {
        dot_chunked::<T, D, 1>(a, b)
    }
}

/// The elementwise sum of `a` and `b` for an element type that asks for
/// `lanes` lanes.
pub fn add_with_lanes<T: NumericElement, const D: usize>(
    a: &[T; D],
    b: &[T; D],
    lanes: usize,
) -> (r: [T; D])
    ensures
        r@ == elementwise_sum(a@, b@),
{
    if lanes == 16 {
        add_chunked::<T, D, 16>(a, b)
    } else if lanes == 8 {
        add_chunked::<T, D, 8>(a, b)
    } else if lanes == 4 {
        add_chunked::<T, D, 4>(a, b)
    } else if lanes == 2 {
        add_chunked::<T, D, 2>(a, b)
    } else {
        add_chunked::<T, D, 1>(a, b)
    }
}

/// The elementwise product of `a` and `b` for an element type that asks for
/// `lanes` lanes.
pub fn mul_with_lanes<T: NumericElement, const D: usize>(
    a: &[T; D],
    b: &[T; D],
    lanes: usize,
) -> (r: [T; D])
    ensures
        r@ == elementwise_product(a@, b@),
{
    if lanes == 16 {
        mul_chunked::<T, D, 16>(a, b)
    } else if lanes == 8 {
        mul_chunked::<T, D, 8>(a, b)
    } else if lanes == 4 {
        mul_chunked::<T, D, 4>(a, b)
    } else if lanes == 2 {
        mul_chunked::<T, D, 2>(a, b)
    } else {
        mul_chunked::<T, D, 1>(a, b)
    }
}

} // verus!
