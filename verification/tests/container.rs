use lanevec::{NumericElement, Vector};

#[test]
fn array_round_trip() {
    let array = [3i32, -1, 4, 1, -5, 9, 2, 6];
    assert_eq!(Vector::new(array).into_inner(), array);
}

#[test]
fn empty_array_round_trip() {
    let array: [i64; 0] = [];
    assert_eq!(Vector::new(array).into_inner(), array);
}

#[test]
fn round_trip_of_a_type_without_arithmetic() {
    let array = [1.5f64, -2.25, 0.0];
    assert_eq!(Vector::new(array).into_inner(), array);
    let flags = [true, false];
    assert_eq!(Vector::new(flags).into_inner(), flags);
}

#[test]
fn from_array_is_new() {
    let array = [7i32, 8, 9];
    let vector: Vector<i32, 3> = Vector::from(array);
    assert_eq!(vector.into_inner(), array);
    let vector: Vector<i32, 3> = array.into();
    assert_eq!(vector.into_inner(), array);
}

#[test]
fn default_is_all_zeros() {
    let vector: Vector<i32, 5> = Vector::default();
    assert_eq!(vector.into_inner(), [0; 5]);
    let vector: Vector<i64, 0> = Vector::default();
    assert_eq!(vector.into_inner(), []);
}

#[test]
fn index_reads_each_position() {
    let vector = Vector::new([10i32, 20, 30]);
    assert_eq!(vector[0], 10);
    assert_eq!(vector[1], 20);
    assert_eq!(vector[2], 30);
}

#[test]
fn index_writes_one_position() {
    let mut vector = Vector::new([1i32, 2, 3]);
    vector[1] = 7;
    assert_eq!(vector.into_inner(), [1, 7, 3]);
    vector[2] += 10;
    assert_eq!(vector.into_inner(), [1, 7, 13]);
}

#[test]
fn a_copy_is_independent() {
    let first = Vector::new([1i32, 2, 3]);
    let mut second = first;
    second[0] = 100;
    assert_eq!(first.into_inner(), [1, 2, 3]);
    assert_eq!(second.into_inner(), [100, 2, 3]);
    let third = first.clone();
    assert_eq!(third.into_inner(), [1, 2, 3]);
}

#[test]
fn integer_elements_wrap() {
    assert_eq!(<i32 as NumericElement>::zero(), 0);
    assert_eq!(<i64 as NumericElement>::zero(), 0);
    assert_eq!(NumericElement::plus(i32::MAX, 1), i32::MIN);
    assert_eq!(NumericElement::plus(i64::MIN, -1), i64::MAX);
    assert_eq!(NumericElement::times(1 << 30, 4i32), 0);
    assert_eq!(NumericElement::times(i64::MAX, 2i64), -2);
    assert_eq!(NumericElement::plus(2i32, 3), 5);
    assert_eq!(NumericElement::times(-6i64, 7), -42);
}
