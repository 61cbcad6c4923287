use lanevec::chunked::{
    add_chunked, add_with_lanes, dot_chunked, dot_with_lanes, horizontal_sum, lanes_plus,
    lanes_times, load_chunk, load_remainder, mul_chunked, mul_with_lanes, store_chunk,
    sum_chunked, sum_with_lanes,
};
use lanevec::ops::{Dot, Sum};
use lanevec::simd::LaneCount;
use lanevec::{NumericElement, Vector};

/// A 32-bit float as an element, on a target with four lanes.
#[derive(Debug, Clone, Copy, PartialEq)]
struct Single(f32);

impl NumericElement for Single {
    fn zero() -> Self {
        Single(0.0)
    }

    fn plus(self, rhs: Self) -> Self {
        Single(self.0 + rhs.0)
    }

    fn times(self, rhs: Self) -> Self {
        Single(self.0 * rhs.0)
    }
}

impl LaneCount for Single {
    fn lanes() -> usize {
        4
    }
}

/// A 32-bit float that asks for a lane count that no register has.
#[derive(Debug, Clone, Copy, PartialEq)]
struct Odd(f32);

impl NumericElement for Odd {
    fn zero() -> Self {
        Odd(0.0)
    }

    fn plus(self, rhs: Self) -> Self {
        Odd(self.0 + rhs.0)
    }

    fn times(self, rhs: Self) -> Self {
        Odd(self.0 * rhs.0)
    }
}

impl LaneCount for Odd {
    fn lanes() -> usize {
        3
    }
}

fn next(state: &mut u32) -> u32 {
    *state = state.wrapping_mul(1664525).wrapping_add(1013904223);
    *state >> 8
}

/// `D` floats between 0.5 and 1.5.
fn floats<const D: usize>(seed: u32) -> [Single; D] {
    let mut state = seed;
    core::array::from_fn(|_| Single(0.5 + next(&mut state) as f32 / 16777216.0))
}

/// `D` integers of either sign, large enough for products to wrap.
fn integers<const D: usize>(seed: u32) -> [i32; D] {
    let mut state = seed;
    core::array::from_fn(|_| (next(&mut state) as i32).wrapping_mul(2048).wrapping_sub(1 << 30))
}

fn close(left: f32, right: f32) -> bool {
    (left - right).abs() <= 1e-5 * left.abs().max(right.abs())
}

fn float_sum_matches<const D: usize>() {
    let values = floats::<D>(D as u32 + 1);
    let mut expected = 0.0f32;
    for value in values.iter() {
        expected += value.0;
    }
    assert!(close(Vector::new(values).sum().0, expected) || D == 0);
    assert!(close(sum_chunked::<Single, D, 1>(&values).0, expected) || D == 0);
    assert!(close(sum_chunked::<Single, D, 2>(&values).0, expected) || D == 0);
    assert!(close(sum_chunked::<Single, D, 4>(&values).0, expected) || D == 0);
    assert!(close(sum_chunked::<Single, D, 8>(&values).0, expected) || D == 0);
    assert!(close(sum_chunked::<Single, D, 16>(&values).0, expected) || D == 0);
    if D == 0 {
        assert_eq!(Vector::new(values).sum(), Single(0.0));
    }
}

fn float_dot_matches<const D: usize>() {
    let left = floats::<D>(D as u32 + 101);
    let right = floats::<D>(D as u32 + 202);
    let mut expected = 0.0f32;
    for index in 0..D {
        expected += left[index].0 * right[index].0;
    }
    assert!(close(Vector::new(left).dot(Vector::new(right)).0, expected) || D == 0);
    assert!(close(dot_chunked::<Single, D, 1>(&left, &right).0, expected) || D == 0);
    assert!(close(dot_chunked::<Single, D, 2>(&left, &right).0, expected) || D == 0);
    assert!(close(dot_chunked::<Single, D, 4>(&left, &right).0, expected) || D == 0);
    assert!(close(dot_chunked::<Single, D, 8>(&left, &right).0, expected) || D == 0);
    assert!(close(dot_chunked::<Single, D, 16>(&left, &right).0, expected) || D == 0);
    if D == 0 {
        assert_eq!(Vector::new(left).dot(Vector::new(right)), Single(0.0));
    }
}

fn integer_sum_is_exact<const D: usize>() {
    let values = integers::<D>(D as u32 + 7);
    let mut expected = 0i32;
    for value in values.iter() {
        expected = expected.wrapping_add(*value);
    }
    assert_eq!(Vector::new(values).sum(), expected);
    assert_eq!(sum_chunked::<i32, D, 1>(&values), expected);
    assert_eq!(sum_chunked::<i32, D, 2>(&values), expected);
    assert_eq!(sum_chunked::<i32, D, 4>(&values), expected);
    assert_eq!(sum_chunked::<i32, D, 8>(&values), expected);
    assert_eq!(sum_chunked::<i32, D, 16>(&values), expected);
    assert_eq!(sum_chunked::<i32, D, 3>(&values), expected);
}

fn integer_dot_is_exact<const D: usize>() {
    let left = integers::<D>(D as u32 + 11);
    let right = integers::<D>(D as u32 + 13);
    let mut expected = 0i32;
    for index in 0..D {
        expected = expected.wrapping_add(left[index].wrapping_mul(right[index]));
    }
    assert_eq!(Vector::new(left).dot(Vector::new(right)), expected);
    assert_eq!(dot_chunked::<i32, D, 1>(&left, &right), expected);
    assert_eq!(dot_chunked::<i32, D, 2>(&left, &right), expected);
    assert_eq!(dot_chunked::<i32, D, 4>(&left, &right), expected);
    assert_eq!(dot_chunked::<i32, D, 8>(&left, &right), expected);
    assert_eq!(dot_chunked::<i32, D, 16>(&left, &right), expected);
    assert_eq!(dot_chunked::<i32, D, 5>(&left, &right), expected);
}

fn elementwise_matches<const D: usize>() {
    let left = floats::<D>(D as u32 + 301);
    let right = floats::<D>(D as u32 + 402);
    let sums: [Single; D] = core::array::from_fn(|index| Single(left[index].0 + right[index].0));
    let products: [Single; D] =
        core::array::from_fn(|index| Single(left[index].0 * right[index].0));
    let a = Vector::new(left);
    let b = Vector::new(right);
    assert_eq!((a + b).into_inner(), sums);
    assert_eq!((b + a).into_inner(), sums);
    assert_eq!((a * b).into_inner(), products);
    assert_eq!((a + b).into_inner().len(), D);
    assert_eq!((a * b).into_inner().len(), D);
    for index in 0..D {
        assert_eq!((a + b)[index], Single(left[index].0 + right[index].0));
        assert_eq!((a * b)[index], Single(left[index].0 * right[index].0));
    }
    assert_eq!(add_chunked::<Single, D, 1>(&left, &right), sums);
    assert_eq!(add_chunked::<Single, D, 2>(&left, &right), sums);
    assert_eq!(add_chunked::<Single, D, 4>(&left, &right), sums);
    assert_eq!(add_chunked::<Single, D, 8>(&left, &right), sums);
    assert_eq!(add_chunked::<Single, D, 16>(&left, &right), sums);
    assert_eq!(mul_chunked::<Single, D, 1>(&left, &right), products);
    assert_eq!(mul_chunked::<Single, D, 2>(&left, &right), products);
    assert_eq!(mul_chunked::<Single, D, 4>(&left, &right), products);
    assert_eq!(mul_chunked::<Single, D, 8>(&left, &right), products);
    assert_eq!(mul_chunked::<Single, D, 16>(&left, &right), products);
}

#[test]
fn float_sum_is_close_to_the_scalar_sum() {
    float_sum_matches::<0>();
    float_sum_matches::<1>();
    float_sum_matches::<2>();
    float_sum_matches::<3>();
    float_sum_matches::<4>();
    float_sum_matches::<5>();
    float_sum_matches::<7>();
    float_sum_matches::<8>();
    float_sum_matches::<9>();
    float_sum_matches::<16>();
    float_sum_matches::<17>();
}

#[test]
fn float_dot_is_close_to_the_scalar_dot() {
    float_dot_matches::<0>();
    float_dot_matches::<1>();
    float_dot_matches::<2>();
    float_dot_matches::<3>();
    float_dot_matches::<4>();
    float_dot_matches::<5>();
    float_dot_matches::<7>();
    float_dot_matches::<8>();
    float_dot_matches::<9>();
    float_dot_matches::<16>();
    float_dot_matches::<17>();
}

#[test]
fn integer_sum_equals_the_scalar_sum() {
    integer_sum_is_exact::<0>();
    integer_sum_is_exact::<1>();
    integer_sum_is_exact::<2>();
    integer_sum_is_exact::<3>();
    integer_sum_is_exact::<4>();
    integer_sum_is_exact::<5>();
    integer_sum_is_exact::<7>();
    integer_sum_is_exact::<8>();
    integer_sum_is_exact::<9>();
    integer_sum_is_exact::<16>();
    integer_sum_is_exact::<17>();
}

#[test]
fn integer_dot_equals_the_scalar_dot() {
    integer_dot_is_exact::<0>();
    integer_dot_is_exact::<1>();
    integer_dot_is_exact::<2>();
    integer_dot_is_exact::<3>();
    integer_dot_is_exact::<4>();
    integer_dot_is_exact::<5>();
    integer_dot_is_exact::<7>();
    integer_dot_is_exact::<8>();
    integer_dot_is_exact::<9>();
    integer_dot_is_exact::<16>();
    integer_dot_is_exact::<17>();
}

#[test]
fn add_and_mul_are_elementwise() {
    elementwise_matches::<0>();
    elementwise_matches::<1>();
    elementwise_matches::<2>();
    elementwise_matches::<3>();
    elementwise_matches::<4>();
    elementwise_matches::<5>();
    elementwise_matches::<7>();
    elementwise_matches::<8>();
    elementwise_matches::<9>();
    elementwise_matches::<16>();
    elementwise_matches::<17>();
}

#[test]
fn dot_of_four_floats() {
    let a = Vector::new([Single(1.0), Single(2.0), Single(3.0), Single(4.0)]);
    let b = Vector::new([Single(2.0); 4]);
    assert_eq!(a.dot(b), Single(20.0));
}

#[test]
fn sum_of_five_floats_on_four_lanes() {
    let values = [Single(1.0), Single(2.0), Single(3.0), Single(4.0), Single(5.0)];
    assert_eq!(Vector::new(values).sum(), Single(15.0));
    assert_eq!(sum_chunked::<Single, 5, 4>(&values), Single(15.0));
}

#[test]
fn dot_and_sum_of_integers() {
    let a = Vector::new([1i32, 2, 3, 4]);
    let b = Vector::new([2i32; 4]);
    assert_eq!(a.dot(b), 20);
    assert_eq!(Vector::new([1i64, 2, 3, 4, 5]).sum(), 15);
    assert_eq!(Vector::new([1i64, 2, 3]).dot(Vector::new([4i64, 5, 6])), 32);
}

#[test]
fn empty_vectors() {
    let empty: Vector<i32, 0> = Vector::new([]);
    assert_eq!(empty.sum(), 0);
    assert_eq!(empty.dot(empty), 0);
    assert_eq!((empty + empty).into_inner(), []);
    assert_eq!((empty * empty).into_inner(), []);
    let empty: Vector<Single, 0> = Vector::new([]);
    assert_eq!(empty.sum(), Single(0.0));
    assert_eq!(empty.dot(empty), Single(0.0));
    assert_eq!((empty + empty).into_inner(), []);
    assert_eq!((empty * empty).into_inner(), []);
}

#[test]
fn fewer_elements_than_lanes() {
    let values = [Single(1.5), Single(2.5), Single(-1.0)];
    assert_eq!(sum_chunked::<Single, 3, 16>(&values), Single(3.0));
    assert_eq!(dot_chunked::<Single, 3, 16>(&values, &values), Single(9.5));
    assert_eq!(
        add_chunked::<Single, 3, 16>(&values, &values),
        [Single(3.0), Single(5.0), Single(-2.0)]
    );
    assert_eq!(
        mul_chunked::<Single, 3, 16>(&values, &values),
        [Single(2.25), Single(6.25), Single(1.0)]
    );
}

#[test]
fn padding_does_not_reach_the_product() {
    let ones = [Single(1.0); 5];
    assert_eq!(mul_chunked::<Single, 5, 4>(&ones, &ones), ones);
    assert_eq!(add_chunked::<Single, 5, 4>(&ones, &ones), [Single(2.0); 5]);
}

#[test]
fn lanes_decide_how_floats_are_grouped() {
    let values = [Single(1e8), Single(1.0), Single(-1e8), Single(1.0)];
    // One lane adds from left to right: the first 1.0 is lost in 1e8.
    assert_eq!(sum_chunked::<Single, 4, 1>(&values), Single(1.0));
    // Two lanes add 1e8 - 1e8 in the first lane and 1 + 1 in the second.
    assert_eq!(sum_chunked::<Single, 4, 2>(&values), Single(2.0));
    // Four lanes hold one value each and are added from left to right.
    assert_eq!(sum_chunked::<Single, 4, 4>(&values), Single(1.0));
    assert_eq!(Vector::new(values).sum(), Single(1.0));
}

#[test]
fn lanes_decide_how_products_are_grouped() {
    let left = [Single(1e4), Single(1.0), Single(-1e4), Single(1.0)];
    let right = [Single(1e4), Single(1.0), Single(1e4), Single(1.0)];
    assert_eq!(dot_chunked::<Single, 4, 1>(&left, &right), Single(1.0));
    assert_eq!(dot_chunked::<Single, 4, 2>(&left, &right), Single(2.0));
}

#[test]
fn unsupported_lane_count_runs_with_one_lane() {
    let values = [Odd(1e8), Odd(1.0), Odd(-1e8), Odd(1.0)];
    assert_eq!(Vector::new(values).sum(), Odd(1.0));
    assert_eq!(sum_with_lanes(&values, 3), Odd(1.0));
    assert_eq!(sum_with_lanes(&values, 0), Odd(1.0));
    assert_eq!(sum_with_lanes(&values, 2), Odd(2.0));
    assert_eq!(dot_with_lanes(&values, &[Odd(1.0); 4], 3), Odd(1.0));
    assert_eq!(dot_with_lanes(&values, &[Odd(1.0); 4], 2), Odd(2.0));
}

#[test]
fn every_supported_lane_count_is_used() {
    let values: [Single; 17] = core::array::from_fn(|index| Single(index as f32));
    assert_eq!(sum_with_lanes(&values, 1), sum_chunked::<Single, 17, 1>(&values));
    assert_eq!(sum_with_lanes(&values, 2), sum_chunked::<Single, 17, 2>(&values));
    assert_eq!(sum_with_lanes(&values, 4), sum_chunked::<Single, 17, 4>(&values));
    assert_eq!(sum_with_lanes(&values, 8), sum_chunked::<Single, 17, 8>(&values));
    assert_eq!(sum_with_lanes(&values, 16), sum_chunked::<Single, 17, 16>(&values));
    assert_eq!(sum_with_lanes(&values, 16), Single(136.0));
    assert_eq!(dot_with_lanes(&values, &values, 8), Single(1496.0));
    let doubled: [Single; 17] = core::array::from_fn(|index| Single(2.0 * index as f32));
    let squared: [Single; 17] = core::array::from_fn(|index| Single((index * index) as f32));
    assert_eq!(add_with_lanes(&values, &values, 16), doubled);
    assert_eq!(add_with_lanes(&values, &values, 7), doubled);
    assert_eq!(mul_with_lanes(&values, &values, 2), squared);
    assert_eq!(mul_with_lanes(&values, &values, 0), squared);
}

#[test]
fn add_is_commutative() {
    let a = Vector::new([1i32, -2, 3, i32::MAX, 5]);
    let b = Vector::new([10i32, 20, -30, 1, 50]);
    assert_eq!((a + b).into_inner(), (b + a).into_inner());
    assert_eq!((a + b).into_inner(), [11, 18, -27, i32::MIN, 55]);
}

#[test]
fn assignment_operators_replace_the_receiver() {
    let a = Vector::new([1i32, 2, 3, 4, 5]);
    let b = Vector::new([10i32, 20, 30, 40, 50]);
    let mut c = a;
    c += b;
    assert_eq!(c.into_inner(), [11, 22, 33, 44, 55]);
    c *= a;
    assert_eq!(c.into_inner(), [11, 44, 99, 176, 275]);
    assert_eq!(a.into_inner(), [1, 2, 3, 4, 5]);
    assert_eq!(b.into_inner(), [10, 20, 30, 40, 50]);
}

#[test]
fn register_operations() {
    let values = [1i32, 2, 3, 4, 5, 6, 7];
    let first: [i32; 3] = load_chunk(&values, 0);
    let second: [i32; 3] = load_chunk(&values, 3);
    assert_eq!(first, [1, 2, 3]);
    assert_eq!(second, [4, 5, 6]);
    let rest: [i32; 3] = load_remainder(&values, 6);
    assert_eq!(rest, [7, 0, 0]);
    let nothing: [i32; 3] = load_remainder(&values, 7);
    assert_eq!(nothing, [0, 0, 0]);
    assert_eq!(lanes_plus(&first, &second), [5, 7, 9]);
    assert_eq!(lanes_times(&first, &second), [4, 10, 18]);
    assert_eq!(horizontal_sum(&second), 15);
    assert_eq!(horizontal_sum::<i32, 0>(&[]), 0);
    let mut out = [0i32; 7];
    store_chunk(&mut out, 3, &first);
    assert_eq!(out, [0, 0, 0, 1, 2, 3, 0]);
}
