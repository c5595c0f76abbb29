use toy_df::buffer::MutableBuffer;

#[test]
fn test_with_capacity() {
    let buffer = MutableBuffer::with_capacity(10, 1);
    assert_eq!(buffer.bytes.length(), 0);
    assert_eq!(buffer.bytes.capacity(), 10);
}

#[test]
fn test_push() {
    let mut buffer = MutableBuffer::with_capacity(5, 1);
    buffer.push(1);
    buffer.push(2);
    buffer.push(3);

    assert_eq!(buffer.bytes.length(), 3);

    // Verify data
    let data = buffer.bytes.as_slice();
    assert_eq!(data[0], 1);
    assert_eq!(data[1], 2);
    assert_eq!(data[2], 3);
}

#[test]
fn test_extend_from_slice() {
    let mut buffer = MutableBuffer::with_capacity(10, 1);
    buffer.extend_from_slice(&[1, 2, 3, 4, 5]);

    assert_eq!(buffer.bytes.length(), 5);

    // Verify data
    let data = buffer.bytes.as_slice();
    for i in 0..5 {
        assert_eq!(data[i], (i + 1) as u8);
    }
}

#[test]
fn test_push_grows() {
    let mut buffer = MutableBuffer::with_capacity(2, 1);
    buffer.push(1);
    buffer.push(2);

    assert_eq!(buffer.bytes.capacity(), 2);

    // This should trigger growth
    buffer.push(3);

    assert_eq!(buffer.bytes.length(), 3);
    assert!(buffer.bytes.capacity() >= 3);

    // Verify all data preserved
    let data = buffer.bytes.as_slice();
    assert_eq!(data[0], 1);
    assert_eq!(data[1], 2);
    assert_eq!(data[2], 3);
}

#[test]
fn test_extend_grows() {
    let mut buffer = MutableBuffer::with_capacity(5, 1);
    buffer.extend_from_slice(&[1, 2, 3]);

    // This should trigger growth
    buffer.extend_from_slice(&[4, 5, 6, 7, 8]);

    assert_eq!(buffer.bytes.length(), 8);
    assert!(buffer.bytes.capacity() >= 8);

    // Verify all data
    let data = buffer.bytes.as_slice();
    for i in 0..8 {
        assert_eq!(data[i], (i + 1) as u8);
    }
}

#[test]
fn growth_doubles_capacity_or_fits_the_need() {
    let mut buffer = MutableBuffer::with_capacity(4, 8);
    buffer.extend_from_slice(&[0; 4]);
    buffer.push(9);
    // doubled: max(5, 2 * 4)
    assert_eq!(buffer.bytes.capacity(), 8);
    buffer.extend_from_slice(&[1; 20]);
    // the need wins: max(25, 16)
    assert_eq!(buffer.bytes.capacity(), 25);
    assert_eq!(buffer.bytes.length(), 25);
    assert_eq!(buffer.bytes.alignment(), 8);
}

#[test]
fn growing_from_zero_capacity() {
    let mut buffer = MutableBuffer::with_capacity(0, 1);
    buffer.push(7);
    assert_eq!(buffer.bytes.capacity(), 1);
    assert_eq!(buffer.bytes.as_slice(), &[7]);
}
