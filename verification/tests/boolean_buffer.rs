use toy_df::bit_util::{get_bit, pack_bools};
use toy_df::buffer::BooleanBuffer;

#[test]
fn test_from_bools() {
    let bools = vec![true, false, true, true, false, false, true, false];
    let buffer = BooleanBuffer::from_bools(&bools);

    assert_eq!(buffer.value(0), true);
    assert_eq!(buffer.value(1), false);
    assert_eq!(buffer.value(2), true);
    assert_eq!(buffer.value(3), true);
    assert_eq!(buffer.value(4), false);
    assert_eq!(buffer.value(5), false);
    assert_eq!(buffer.value(6), true);
    assert_eq!(buffer.value(7), false);
}

#[test]
fn test_len() {
    let buffer = BooleanBuffer::from_bools(&[true, false, true]);
    assert_eq!(buffer.len(), 3);

    let buffer = BooleanBuffer::from_bools(&[]);
    assert_eq!(buffer.len(), 0);

    // 10 bools needs 2 bytes, but len should be 10
    let buffer = BooleanBuffer::from_bools(&[true; 10]);
    assert_eq!(buffer.len(), 10);
}

#[test]
fn test_all_true() {
    let buffer = BooleanBuffer::from_bools(&[true, true, true, true]);
    for i in 0..4 {
        assert_eq!(buffer.value(i), true);
    }
}

#[test]
fn test_all_false() {
    let buffer = BooleanBuffer::from_bools(&[false, false, false, false]);
    for i in 0..4 {
        assert_eq!(buffer.value(i), false);
    }
}

#[test]
fn test_partial_byte() {
    // 5 booleans = 1 byte with 3 padding bits
    let bools = vec![true, false, true, false, true];
    let buffer = BooleanBuffer::from_bools(&bools);

    assert_eq!(buffer.len(), 5);
    assert_eq!(buffer.value(0), true);
    assert_eq!(buffer.value(1), false);
    assert_eq!(buffer.value(2), true);
    assert_eq!(buffer.value(3), false);
    assert_eq!(buffer.value(4), true);
}

#[test]
fn boolean_test_slice_basic() {
    let bools = vec![true, false, true, true, false, false, true, false];
    let buffer = BooleanBuffer::from_bools(&bools);

    // slice(2, 4) -> [true, true, false, false]
    let sliced = buffer.slice(2, 4);
    assert_eq!(sliced.len(), 4);
    assert_eq!(sliced.value(0), true);
    assert_eq!(sliced.value(1), true);
    assert_eq!(sliced.value(2), false);
    assert_eq!(sliced.value(3), false);
}

#[test]
fn boolean_test_slice_of_slice() {
    let bools = vec![true, false, true, true, false, false, true, false];
    let buffer = BooleanBuffer::from_bools(&bools);

    // slice(1, 6) -> [false, true, true, false, false, true]
    let sliced1 = buffer.slice(1, 6);
    assert_eq!(sliced1.len(), 6);
    assert_eq!(sliced1.value(0), false);

    // slice again: slice(2, 3) -> [true, false, false]
    let sliced2 = sliced1.slice(2, 3);
    assert_eq!(sliced2.len(), 3);
    assert_eq!(sliced2.value(0), true);
    assert_eq!(sliced2.value(1), false);
    assert_eq!(sliced2.value(2), false);
}

#[test]
fn pack_bools_example_byte() {
    // LSB first: [1,0,1,1,0,0,1,0] is 0b01001101 = 77
    let buffer = pack_bools(&[true, false, true, true, false, false, true, false]);
    assert_eq!(buffer.as_u8_slice(), &[77]);
}

#[test]
fn pack_bools_pads_the_last_byte_with_zeros() {
    let buffer = pack_bools(&[true; 9]);
    assert_eq!(buffer.as_u8_slice(), &[255, 1]);
    assert_eq!(pack_bools(&[]).len(), 0);
}

#[test]
fn get_bit_reads_back_what_pack_bools_wrote() {
    let bools = vec![false, true, true, false, true, false, false, true, true, false, true];
    let buffer = pack_bools(&bools);
    for (i, &b) in bools.iter().enumerate() {
        assert_eq!(get_bit(&buffer, i), b);
    }
    // padding bits of the last byte are unset
    for i in bools.len()..16 {
        assert!(!get_bit(&buffer, i));
    }
}

#[test]
fn boolean_slice_crossing_a_byte_boundary() {
    let bools: Vec<bool> = (0..20).map(|i| i % 3 == 0).collect();
    let buffer = BooleanBuffer::from_bools(&bools);
    let sliced = buffer.slice(6, 10);
    for i in 0..10 {
        assert_eq!(sliced.value(i), bools[6 + i]);
    }
}
