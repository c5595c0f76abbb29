use toy_df::array::{Int32Array, PrimitiveArray};
use toy_df::buffer::{NullBuffer, ScalarBuffer};
use toy_df::schema::primitive::Int32Type;

#[test]
fn test_from_iter() {
    let arr: Int32Array = vec![1, 2, 3, 4, 5].into_iter().collect();
    assert_eq!(arr.len(), 5);
    assert_eq!(arr.value(0), 1);
    assert_eq!(arr.value(4), 5);
}

#[test]
fn test_value_access() {
    let arr: Int32Array = vec![10, 20, 30].into_iter().collect();
    assert_eq!(arr.value(0), 10);
    assert_eq!(arr.value(1), 20);
    assert_eq!(arr.value(2), 30);
}

#[test]
fn test_no_nulls() {
    let arr: Int32Array = vec![1, 2, 3].into_iter().collect();
    assert!(!arr.is_null(0));
    assert!(!arr.is_null(1));
    assert!(!arr.is_null(2));
}

#[test]
fn test_with_nulls() {
    let values = ScalarBuffer::from(vec![10, 0, 30]);
    let nulls = NullBuffer::from_bools(&[true, false, true]);
    let arr = Int32Array::new(values, Some(nulls));

    assert_eq!(arr.len(), 3);
    assert!(!arr.is_null(0));
    assert!(arr.is_null(1));
    assert!(!arr.is_null(2));
    assert_eq!(arr.value(0), 10);
    assert_eq!(arr.value(2), 30);
}

#[test]
fn primitive_test_slice() {
    let arr: Int32Array = vec![10, 20, 30, 40, 50].into_iter().collect();
    let sliced = arr.slice(1, 3);

    assert_eq!(sliced.len(), 3);
    assert_eq!(sliced.value(0), 20);
    assert_eq!(sliced.value(1), 30);
    assert_eq!(sliced.value(2), 40);
}

#[test]
fn test_slice_with_nulls() {
    // [10, null, 30, null, 50]
    let values = ScalarBuffer::from(vec![10, 0, 30, 0, 50]);
    let nulls = NullBuffer::from_bools(&[true, false, true, false, true]);
    let arr = Int32Array::new(values, Some(nulls));

    // slice(1, 3) -> [null, 30, null]
    let sliced = arr.slice(1, 3);
    assert_eq!(sliced.len(), 3);
    assert!(sliced.is_null(0));
    assert!(!sliced.is_null(1));
    assert!(sliced.is_null(2));
    assert_eq!(sliced.value(1), 30);
}

#[test]
fn primitive_slice_of_slice_matches_single_slice() {
    let arr: PrimitiveArray<Int32Type> = vec![1, 2, 3, 4, 5, 6, 7].into_iter().collect();
    let twice = arr.slice(1, 5).slice(2, 2);
    let once = arr.slice(3, 2);
    assert_eq!(twice.len(), once.len());
    assert_eq!(twice.value(0), 4);
    assert_eq!(twice.value(1), 5);
    assert_eq!(once.value(0), 4);
    assert_eq!(once.value(1), 5);
}

#[test]
fn primitive_values_buffer_is_the_values() {
    let arr: Int32Array = vec![7, 8, 9].into_iter().collect();
    assert_eq!(&**arr.values(), &[7, 8, 9]);
    let empty = arr.slice(3, 0);
    assert_eq!(empty.len(), 0);
}

#[test]
fn from_vec_keeps_values_without_bitmap() {
    let arr: Int32Array = PrimitiveArray::from_vec(vec![7, -8, 9]);
    assert_eq!(arr.len(), 3);
    assert_eq!(arr.value(1), -8);
    assert!(!arr.is_null(2));
    let collected: Int32Array = vec![7, -8, 9].into_iter().collect();
    assert_eq!(&**collected.values(), &**arr.values());
}
