use toy_df::buffer::{Buffer, ScalarBuffer};

#[test]
fn test_from_vec() {
    let scalar: ScalarBuffer<i32> = vec![1, 2, 3].into();
    assert_eq!(&*scalar, &[1, 2, 3]);
    assert_eq!(scalar.len(), 3);

    let scalar: ScalarBuffer<f64> = vec![1.5, 2.5].into();
    assert_eq!(&*scalar, &[1.5, 2.5]);
}

#[test]
fn scalar_test_slice() {
    let scalar: ScalarBuffer<i32> = vec![10, 20, 30, 40, 50].into();

    let sliced = scalar.slice(1, 3);
    assert_eq!(&*sliced, &[20, 30, 40]);

    // slice of slice
    let sliced2 = sliced.slice(1, 1);
    assert_eq!(&*sliced2, &[30]);
}

#[test]
fn scalar_clone_and_slice_share_values() {
    let scalar: ScalarBuffer<u64> = vec![5, 6, 7, 8].into();
    let copy = scalar.clone();
    assert_eq!(&*copy, &*scalar);
    assert_eq!(copy.as_ptr(), scalar.as_ptr());
    let tail = scalar.slice(2, 2);
    assert_eq!(tail.as_ptr(), scalar[2..].as_ptr());
    assert_eq!(&*scalar.slice(4, 0), &[] as &[u64]);
}

#[test]
fn test_from_i32_buffer() {
    let buffer = Buffer::from_i32_slice(&[1, 2, 3, 4, 5]);
    let scalar: ScalarBuffer<i32> = ScalarBuffer::from_buffer(buffer);

    assert_eq!(scalar.len(), 5);
    assert_eq!(scalar[0], 1);
    assert_eq!(scalar[4], 5);
    assert_eq!(&*scalar, &[1, 2, 3, 4, 5]);
}

#[test]
fn test_from_u8_buffer() {
    let buffer = Buffer::from_u8_slice(&[10, 20, 30]);
    let scalar: ScalarBuffer<u8> = ScalarBuffer::from_buffer(buffer);

    assert_eq!(scalar.len(), 3);
    assert_eq!(&*scalar, &[10, 20, 30]);
}

#[test]
fn test_deref_coercion() {
    let buffer = Buffer::from_i32_slice(&[100, 200, 300]);
    let scalar: ScalarBuffer<i32> = ScalarBuffer::from_buffer(buffer);

    let slice: &[i32] = &scalar;
    assert_eq!(slice, &[100, 200, 300]);
    assert_eq!(scalar.first(), Some(&100));
    assert_eq!(scalar.iter().sum::<i32>(), 600);
}

#[test]
fn values_round_trip_through_bytes() {
    let buffer: Buffer = vec![-1i64, 0, i64::MIN, i64::MAX, 258].into();
    assert_eq!(buffer.len(), 40);
    assert_eq!(&buffer.as_slice()[..8], &[0xff; 8]);
    assert_eq!(&buffer.as_slice()[32..34], &[2, 1]);
    let back: ScalarBuffer<i64> = ScalarBuffer::from_buffer(buffer);
    assert_eq!(&*back, &[-1, 0, i64::MIN, i64::MAX, 258]);

    let buffer: Buffer = vec![-2i16, 300].into();
    assert_eq!(buffer.as_slice(), &[0xfe, 0xff, 0x2c, 0x01]);
    let back: ScalarBuffer<i16> = ScalarBuffer::from_buffer(buffer);
    assert_eq!(&*back, &[-2, 300]);

    let buffer: Buffer = vec![0x0102_0304u32, 7].into();
    assert_eq!(buffer.as_slice(), &[4, 3, 2, 1, 7, 0, 0, 0]);
    let back: ScalarBuffer<u32> = ScalarBuffer::from_buffer(buffer);
    assert_eq!(&*back, &[0x0102_0304, 7]);

    let bytes: Buffer = vec![-128i8, 127, 5].into();
    let back: ScalarBuffer<u8> = ScalarBuffer::from_buffer(bytes);
    assert_eq!(&*back, &[128, 127, 5]);
}

#[test]
fn buffers_cut_mid_value_or_unaligned_are_refused() {
    // 6 bytes are not a whole number of i32 values
    let ragged = Buffer::from_u8_slice(&[1, 0, 0, 0, 9, 9]);
    assert!(ScalarBuffer::<i32>::try_from_buffer(ragged).is_none());
    // a window starting one byte into its allocation is not aligned for i32
    let unaligned = Buffer::from_u8_slice(&[0, 1, 2, 3, 4, 5, 6, 7]).slice(1, 4);
    assert!(ScalarBuffer::<i32>::try_from_buffer(unaligned).is_none());
    // bytes have no alignment to keep
    let bytes = Buffer::from_u8_slice(&[0, 1, 2, 3, 4, 5, 6, 7]).slice(1, 4);
    assert_eq!(&*ScalarBuffer::<u8>::try_from_buffer(bytes).unwrap(), &[1, 2, 3, 4]);
    // a window four bytes in is aligned
    let aligned = Buffer::from_u8_slice(&[0, 0, 0, 0, 7, 0, 0, 0]).slice(4, 4);
    assert_eq!(&*ScalarBuffer::<i32>::try_from_buffer(aligned).unwrap(), &[7]);
}
