use toy_df::bytes::Bytes;

#[test]
fn test_new() {
    let bytes = Bytes::new(100, 8);
    assert_eq!(bytes.capacity(), 100);
    assert_eq!(bytes.length(), 0);
}

#[test]
fn test_alignment() {
    let bytes = Bytes::new(100, 8);
    let addr = bytes.as_slice().as_ptr() as usize;
    assert_eq!(addr % 8, 0, "Pointer should be 8-byte aligned");
}

#[test]
fn bytes_write_then_set_length() {
    let mut bytes = Bytes::new(4, 1);
    bytes.write(0, 10);
    bytes.write(1, 20);
    assert_eq!(bytes.len(), 0);
    bytes.set_length(3);
    // the byte never written reads as zero
    assert_eq!(bytes.as_slice(), &[10, 20, 0]);
}

#[test]
fn bytes_from_raw_parts() {
    let bytes = Bytes::from_raw_parts(vec![1, 2, 3, 4], 2, 4);
    assert_eq!(bytes.capacity(), 4);
    assert_eq!(bytes.as_slice(), &[1, 2]);
    assert_eq!(bytes.alignment(), 4);
}
