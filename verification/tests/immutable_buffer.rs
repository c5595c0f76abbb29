use toy_df::buffer::Buffer;

#[test]
fn test_from_i32_slice() {
    let values = vec![1i32, 2, 3, 4, 5];
    let buffer = Buffer::from_i32_slice(&values);

    assert_eq!(buffer.len(), 20); // 5 * 4 bytes
    assert_eq!(buffer.as_i32_slice(), &values[..]);
}

#[test]
fn test_from_u8_slice() {
    let values = vec![0u8, 1, 2, 3, 255];
    let buffer = Buffer::from_u8_slice(&values);

    assert_eq!(buffer.len(), 5);
    assert_eq!(buffer.as_u8_slice(), &values[..]);
}

#[test]
fn test_buffer_alignment_i32() {
    let values = vec![100i32, 200, 300];
    let buffer = Buffer::from_i32_slice(&values);

    let ptr = buffer.as_u8_slice().as_ptr() as usize;
    assert_eq!(ptr % 4, 0, "Buffer should be 4-byte aligned for i32");
}

#[test]
fn test_buffer_clone_shares_memory() {
    let values = vec![42i32, 84, 126];
    let buffer1 = Buffer::from_i32_slice(&values);
    let buffer2 = buffer1.clone();

    // Same data
    assert_eq!(buffer1.as_i32_slice(), buffer2.as_i32_slice());

    // Same pointer (shared memory)
    assert_eq!(buffer1.as_u8_slice().as_ptr(), buffer2.as_u8_slice().as_ptr());
}

#[test]
fn test_buffer_empty() {
    let buffer = Buffer::with_capacity(10, 1);
    assert_eq!(buffer.len(), 0);
    assert_eq!(buffer.as_u8_slice().len(), 0);
}

#[test]
fn immutable_test_slice_basic() {
    let values = vec![0u8, 1, 2, 3, 4, 5, 6, 7];
    let buffer = Buffer::from_u8_slice(&values);

    let sliced = buffer.slice(2, 4);

    assert_eq!(sliced.len(), 4);
    assert_eq!(sliced.as_u8_slice(), &[2, 3, 4, 5]);
}

#[test]
fn test_slice_shares_memory() {
    let values = vec![0u8, 1, 2, 3, 4, 5, 6, 7];
    let buffer = Buffer::from_u8_slice(&values);
    let sliced = buffer.slice(2, 4);

    // Sliced pointer should be the base pointer + offset
    let base_ptr = buffer.as_u8_slice().as_ptr();
    let sliced_ptr = sliced.as_u8_slice().as_ptr();
    assert_eq!(sliced_ptr, base_ptr.wrapping_add(2));
}

#[test]
fn immutable_test_slice_of_slice() {
    let values = vec![0u8, 1, 2, 3, 4, 5, 6, 7];
    let buffer = Buffer::from_u8_slice(&values);

    let slice1 = buffer.slice(2, 5); // [2, 3, 4, 5, 6]
    let slice2 = slice1.slice(1, 3); // [3, 4, 5]

    assert_eq!(slice2.len(), 3);
    assert_eq!(slice2.as_u8_slice(), &[3, 4, 5]);
}

#[test]
fn test_slice_i32() {
    let values = vec![10i32, 20, 30, 40, 50];
    let buffer = Buffer::from_i32_slice(&values);

    // Slice 2 i32s starting at the second element (offset 4 bytes, length 8 bytes)
    let sliced = buffer.slice(4, 8);

    assert_eq!(sliced.as_i32_slice(), &[20, 30]);
}

#[test]
fn i32_bytes_are_little_endian() {
    let buffer = Buffer::from_i32_slice(&[1, -1, 0x01020304]);
    assert_eq!(
        buffer.as_u8_slice(),
        &[1, 0, 0, 0, 255, 255, 255, 255, 4, 3, 2, 1]
    );
    assert_eq!(buffer.as_slice(), buffer.as_u8_slice());
}

#[test]
fn i32_round_trip_extremes() {
    let values = vec![i32::MIN, -2, 0, 7, i32::MAX];
    assert_eq!(Buffer::from_i32_slice(&values).as_i32_slice(), values);
    assert_eq!(Buffer::from_i32_slice(&[]).as_i32_slice(), Vec::<i32>::new());
}
