use toy_df::buffer::{BooleanBuffer, NullBuffer};

#[test]
fn null_test_pack_and_read_bools() {
    // Create bitmap: [true, false, true, true, false, false, true, false]
    let bools = vec![true, false, true, true, false, false, true, false];
    let null_buffer = NullBuffer::from_bools(&bools);

    assert!(!null_buffer.is_null(0));
    assert!(null_buffer.is_null(1));
    assert!(!null_buffer.is_null(2));
    assert!(!null_buffer.is_null(3));
    assert!(null_buffer.is_null(4));
    assert!(null_buffer.is_null(5));
    assert!(!null_buffer.is_null(6));
    assert!(null_buffer.is_null(7));

    assert_eq!(null_buffer.null_count(), 4);
}

#[test]
fn null_test_null_buffer_all_valid() {
    let bools = vec![true, true, true];
    let null_buffer = NullBuffer::from_bools(&bools);

    assert_eq!(null_buffer.null_count(), 0);
    assert!(!null_buffer.is_null(0));
    assert!(!null_buffer.is_null(1));
    assert!(!null_buffer.is_null(2));
}

#[test]
fn null_test_null_buffer_all_null() {
    let bools = vec![false, false, false];
    let null_buffer = NullBuffer::from_bools(&bools);

    assert_eq!(null_buffer.null_count(), 3);
    assert!(null_buffer.is_null(0));
    assert!(null_buffer.is_null(1));
    assert!(null_buffer.is_null(2));
}

#[test]
fn test_null_buffer_slice() {
    // [valid, null, valid, null, valid]
    let bools = vec![true, false, true, false, true];
    let null_buffer = NullBuffer::from_bools(&bools);
    assert_eq!(null_buffer.null_count(), 2);

    // slice(1, 3) -> [null, valid, null]
    let sliced = null_buffer.slice(1, 3);
    assert_eq!(sliced.len(), 3);
    assert_eq!(sliced.null_count(), 2);
    assert!(sliced.is_null(0));
    assert!(!sliced.is_null(1));
    assert!(sliced.is_null(2));
}

#[test]
fn test_null_buffer_slice_no_nulls() {
    // [valid, null, valid, valid, valid, null]
    let bools = vec![true, false, true, true, true, false];
    let null_buffer = NullBuffer::from_bools(&bools);

    // slice(2, 3) -> [valid, valid, valid]
    let sliced = null_buffer.slice(2, 3);
    assert_eq!(sliced.len(), 3);
    assert_eq!(sliced.null_count(), 0);
}

#[test]
fn null_count_matches_is_null_over_many_bytes() {
    let bools: Vec<bool> = (0..37).map(|i| i % 5 != 0).collect();
    let null_buffer = NullBuffer::new(BooleanBuffer::from_bools(&bools));
    let counted = (0..bools.len()).filter(|&i| null_buffer.is_null(i)).count();
    assert_eq!(null_buffer.null_count(), counted);
    assert_eq!(null_buffer.null_count(), 8);
    assert_eq!(null_buffer.len(), 37);
}

#[test]
fn empty_null_buffer_has_no_nulls() {
    let null_buffer = NullBuffer::from_bools(&[]);
    assert_eq!(null_buffer.len(), 0);
    assert_eq!(null_buffer.null_count(), 0);
}

#[test]
fn empty_validity_past_the_bytes() {
    // 16 values declared over a single byte; the empty window at the end
    // lies past the byte and still makes a validity bitmap without nulls
    let bools = BooleanBuffer::new(toy_df::buffer::Buffer::from_u8_slice(&[0xff]), 16);
    let tail = bools.slice(16, 0);
    let nulls = NullBuffer::new(tail);
    assert_eq!(nulls.len(), 0);
    assert_eq!(nulls.null_count(), 0);
}
