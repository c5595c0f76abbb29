//! Immutable, shareable byte buffers with zero-copy slicing.

use std::sync::Arc;
use vstd::prelude::*;
use crate::bytes::{Bytes, valid_layout};
use crate::native::{NativeType, encode_values, le_bytes, le_encode};

verus! {

/// A second handle to the same shared allocation.
///
/// Calls `Arc::clone`; the contract claims only what its documentation
/// says: the result points to the same value as `a`.
#[verifier::external_body]
pub(crate) fn share<T>(a: &Arc<T>) -> (r: Arc<T>)
    ensures
        *r == **a,
{
    Arc::clone(a)
}

/// The little-endian bytes of an `i32`.
pub open spec fn i32_le_bytes(v: i32) -> Seq<u8> {
    let u = v as u32;
    seq![(u & 0xffu32) as u8, ((u >> 8u32) & 0xffu32) as u8, ((u >> 16u32) & 0xffu32) as u8, ((u >> 24u32) & 0xffu32) as u8]
}

/// The `i32` whose little-endian bytes are `b0 b1 b2 b3`.
pub open spec fn i32_from_le(b0: u8, b1: u8, b2: u8, b3: u8) -> i32 {
    ((b0 as u32) | ((b1 as u32) << 8u32) | ((b2 as u32) << 16u32) | ((b3 as u32) << 24u32)) as i32
}

/// The values laid out one after another, each as 4 little-endian bytes.
pub open spec fn i32s_to_le_bytes(values: Seq<i32>) -> Seq<u8> {
    Seq::new(4 * values.len(), |k: int| i32_le_bytes(values[k / 4])[k % 4])
}

/// The `i32` values that consecutive groups of 4 little-endian bytes encode.
pub open spec fn le_bytes_to_i32s(bytes: Seq<u8>) -> Seq<i32> {
    Seq::new(bytes.len() / 4, |i: int| i32_from_le(bytes[4 * i], bytes[4 * i + 1], bytes[4 * i + 2], bytes[4 * i + 3]))
}

/// Decoding the 4 little-endian bytes of an `i32` gives it back.
pub proof fn lemma_i32_le_round_trip(v: i32)
    ensures
        i32_from_le(i32_le_bytes(v)[0], i32_le_bytes(v)[1], i32_le_bytes(v)[2], i32_le_bytes(v)[3]) == v,
{
    let u = v as u32;
    assert((((u & 0xffu32) as u8) as u32 | ((((u >> 8u32) & 0xffu32) as u8) as u32) << 8u32
        | ((((u >> 16u32) & 0xffu32) as u8) as u32) << 16u32 | ((((u >> 24u32) & 0xffu32) as u8) as u32) << 24u32) == u) by (bit_vector);
    assert(((v as u32) as i32) == v) by (bit_vector);
}

/// Reading back `i32` values written as little-endian bytes gives the
/// values: `as_i32_slice` undoes `from_i32_slice`, whose bytes always come
/// in whole groups of 4.
pub proof fn lemma_i32s_round_trip(values: Seq<i32>)
    ensures
        i32s_to_le_bytes(values).len() % 4 == 0,
        le_bytes_to_i32s(i32s_to_le_bytes(values)) == values,
{
    let bytes = i32s_to_le_bytes(values);
    let back = le_bytes_to_i32s(bytes);
    assert forall|i: int| 0 <= i < values.len() implies #[trigger] back[i] == values[i] by {
        lemma_i32_le_round_trip(values[i]);
        assert(bytes[4 * i] == i32_le_bytes(values[i])[0]);
        assert(bytes[4 * i + 1] == i32_le_bytes(values[i])[1]);
        assert(bytes[4 * i + 2] == i32_le_bytes(values[i])[2]);
        assert(bytes[4 * i + 3] == i32_le_bytes(values[i])[3]);
    }
    assert(back =~= values);
}

/// The 4 bytes of an `i32` are its little-endian encoding as a native value.
proof fn lemma_i32_le_bytes_native(v: i32)
    ensures
        i32_le_bytes(v) == le_bytes(<i32 as NativeType>::spec_bits(v), 4),
{
    let u = v as u32;
    let b: nat = <i32 as NativeType>::spec_bits(v);
    assert(v < 0 ==> ((v as u32) as i64) == (v as i64) + 0x1_0000_0000i64) by (bit_vector);
    assert(v >= 0 ==> ((v as u32) as i64) == (v as i64)) by (bit_vector);
    assert(b == u as nat);
    assert((u & 0xffu32) as u8 == (u % 256) as u8) by (bit_vector);
    assert(((u >> 8u32) & 0xffu32) as u8 == ((u / 256) % 256) as u8) by (bit_vector);
    assert(((u >> 16u32) & 0xffu32) as u8 == ((u / 65536) % 256) as u8) by (bit_vector);
    assert(((u >> 24u32) & 0xffu32) as u8 == ((u / 16777216) % 256) as u8) by (bit_vector);
    assert(b / 256 / 256 == b / 65536);
    assert(b / 256 / 256 / 256 == b / 16777216);
    reveal_with_fuel(le_bytes, 5);
    assert(i32_le_bytes(v) =~= le_bytes(b, 4));
}

/// Laying out `i32` values as 4 little-endian bytes each is their native
/// little-endian encoding: `ScalarBuffer::<i32>::from_buffer` reads them back.
pub proof fn lemma_i32s_le_encode(values: Seq<i32>)
    ensures
        i32s_to_le_bytes(values) == le_encode::<i32>(values),
    decreases values.len(),
{
    if values.len() > 0 {
        let rest = values.drop_first();
        lemma_i32s_le_encode(rest);
        lemma_i32_le_bytes_native(values[0]);
        let all = i32s_to_le_bytes(values);
        assert forall|k: int| 4 <= k < all.len() implies #[trigger] all[k] == i32s_to_le_bytes(rest)[k - 4] by {
            assert((k - 4) / 4 == k / 4 - 1);
            assert((k - 4) % 4 == k % 4);
            assert(values[k / 4] == rest[k / 4 - 1]);
        }
        assert(all =~= i32_le_bytes(values[0]) + i32s_to_le_bytes(rest));
    } else {
        assert(i32s_to_le_bytes(values) =~= Seq::<u8>::empty());
    }
}

/// An immutable, reference-counted view of bytes, with zero-copy slicing.
///
/// Clones and slices share the same `Bytes` allocation; a buffer sees
/// `length` bytes starting `offset` bytes into the allocation's bytes in use.
pub struct Buffer {
    bytes: Arc<Bytes>,
    offset: usize,
    length: usize,
}

impl View for Buffer {
    type V = Seq<u8>;

    /// The bytes visible through this buffer.
    closed spec fn view(&self) -> Seq<u8> {
        self.bytes@.subrange(self.offset as int, self.offset + self.length)
    }
}

impl Clone for Buffer {
    /// Another handle on the same bytes; no data is copied.
    fn clone(&self) -> (r: Self)
        ensures
            r@ == self@,
    {
        proof {
            use_type_invariant(self);
        }
        Buffer { bytes: share(&self.bytes), offset: self.offset, length: self.length }
    }
}

impl Buffer {
    #[verifier::type_invariant]
    spec fn inv(self) -> bool {
        &&& self.bytes.wf()
        &&& self.offset + self.length <= self.bytes@.len()
        &&& self.offset + self.length <= usize::MAX
    }

    /// Byte offset of this buffer's first byte within its allocation.
    pub closed spec fn spec_offset(&self) -> nat {
        self.offset as nat
    }

    /// Byte offset of this buffer's first byte within its allocation.
    pub(crate) fn offset(&self) -> (r: usize)
        ensures
            r == self.spec_offset(),
    {
        self.offset
    }

    /// Creates an empty buffer with `capacity` bytes reserved.
    pub fn with_capacity(capacity: usize, alignment: usize) -> (r: Self)
        requires
            valid_layout(capacity as int, alignment as int),
        ensures
            r@ == Seq::<u8>::empty(),
    {
        let b = Buffer { bytes: Arc::new(Bytes::new(capacity, alignment)), offset: 0, length: 0 };
        assert(b@ =~= Seq::<u8>::empty());
        b
    }

    /// A zero-copy view of `length` bytes starting at byte `offset` of this buffer.
    pub fn slice(&self, offset: usize, length: usize) -> (r: Self)
        requires
            offset + length <= self@.len(),
        ensures
            r@ == self@.subrange(offset as int, offset + length),
            r.spec_offset() == self.spec_offset() + offset,
    {
        proof {
            use_type_invariant(self);
        }
        let r = Buffer { bytes: share(&self.bytes), offset: self.offset + offset, length };
        assert(r@ =~= self@.subrange(offset as int, offset + length));
        r
    }

    /// Creates a buffer holding a copy of `values`.
    pub fn from_u8_slice(values: &[u8]) -> (r: Self)
        requires
            valid_layout(values@.len() as int, 1),
        ensures
            r@ == values@,
            r.spec_offset() == 0,
    {
        let capacity = values.len();
        let mut bytes = Bytes::new(capacity, 1);
        let mut i: usize = 0;
        while i < capacity
            invariant
                capacity == values@.len(),
                i <= capacity,
                bytes.wf(),
                bytes@.len() == 0,
                bytes.spec_capacity() == capacity,
                bytes.contents().len() == capacity,
                forall|k: int| 0 <= k < i ==> #[trigger] bytes.contents()[k] == values@[k],
            decreases capacity - i,
        {
            bytes.write(i, values[i]);
            i = i + 1;
        }
        bytes.set_length(capacity);
        assert(bytes@ =~= values@);
        let r = Buffer { bytes: Arc::new(bytes), offset: 0, length: capacity };
        assert(r@ =~= values@);
        r
    }

    /// Creates a buffer holding `values` as little-endian bytes, 4 per value.
    pub fn from_i32_slice(values: &[i32]) -> (r: Self)
        requires
            valid_layout(4 * values@.len() as int, 4),
        ensures
            r@ == i32s_to_le_bytes(values@),
            r@ == le_encode::<i32>(values@),
            r.spec_offset() == 0,
    {
        proof {
            lemma_i32s_le_encode(values@);
        }
        let n = values.len();
        let capacity = n * 4;
        let mut bytes = Bytes::new(capacity, 4);
        let mut i: usize = 0;
        while i < n
            invariant
                n == values@.len(),
                capacity == 4 * n,
                i <= n,
                bytes.wf(),
                bytes@.len() == 0,
                bytes.spec_capacity() == capacity,
                bytes.contents().len() == capacity,
                forall|k: int| 0 <= k < 4 * i ==>
                    #[trigger] bytes.contents()[k] == i32s_to_le_bytes(values@)[k],
            decreases n - i,
        {
            let u: u32 = values[i] as u32;
            let ghost enc = i32_le_bytes(values@[i as int]);
            bytes.write(4 * i, (u & 0xff) as u8);
            bytes.write(4 * i + 1, ((u >> 8) & 0xff) as u8);
            bytes.write(4 * i + 2, ((u >> 16) & 0xff) as u8);
            bytes.write(4 * i + 3, ((u >> 24) & 0xff) as u8);
            proof {
                assert forall|k: int| 0 <= k < 4 * (i + 1) implies
                    #[trigger] bytes.contents()[k] == i32s_to_le_bytes(values@)[k] by {
                    if k >= 4 * i {
                        assert(k / 4 == i);
                        assert(i32s_to_le_bytes(values@)[k] == enc[k % 4]);
                    }
                }
            }
            i = i + 1;
        }
        bytes.set_length(capacity);
        assert(bytes@ =~= i32s_to_le_bytes(values@));
        let r = Buffer { bytes: Arc::new(bytes), offset: 0, length: capacity };
        assert(r@ =~= i32s_to_le_bytes(values@));
        r
    }

    /// The buffer's bytes.
    pub fn as_u8_slice(&self) -> (r: &[u8])
        ensures
            r@ == self@,
    {
        proof {
            use_type_invariant(self);
        }
        let all = self.bytes.as_slice();
        vstd::slice::slice_subrange(all, self.offset, self.offset + self.length)
    }

    /// The buffer's bytes.
    pub fn as_slice(&self) -> (r: &[u8])
        ensures
            r@ == self@,
    {
        self.as_u8_slice()
    }

    /// The `i32` values that the buffer's bytes encode, 4 little-endian bytes
    /// each. The buffer must hold a whole number of values, and its first
    /// byte must lie a multiple of 4 bytes into its allocation, as an `i32`
    /// is aligned; the values are decoded, so no read depends on the address.
    pub fn as_i32_slice(&self) -> (r: Vec<i32>)
        requires
            self@.len() % 4 == 0,
            self.spec_offset() % 4 == 0,
        ensures
            r@ == le_bytes_to_i32s(self@),
    {
        let bytes = self.as_u8_slice();
        let n = bytes.len() / 4;
        let mut out: Vec<i32> = Vec::new();
        let mut i: usize = 0;
        while i < n
            invariant
                bytes@ == self@,
                bytes@.len() <= usize::MAX,
                n == bytes@.len() / 4,
                i <= n,
                out@ == le_bytes_to_i32s(bytes@).take(i as int),
            decreases n - i,
        {
            let b0 = bytes[4 * i];
            let b1 = bytes[4 * i + 1];
            let b2 = bytes[4 * i + 2];
            let b3 = bytes[4 * i + 3];
            let w: u32 = (b0 as u32) | ((b1 as u32) << 8) | ((b2 as u32) << 16) | ((b3 as u32) << 24);
            let v: i32 = #[verifier::truncate] (w as i32);
            out.push(v);
            proof {
                assert(out@ =~= le_bytes_to_i32s(bytes@).take(i + 1));
            }
            i = i + 1;
        }
        proof {
            assert(le_bytes_to_i32s(bytes@).take(n as int) =~= le_bytes_to_i32s(bytes@));
        }
        out
    }

    /// Number of bytes in this buffer.
    pub fn len(&self) -> (r: usize)
        ensures
            r == self@.len(),
    {
        proof {
            use_type_invariant(self);
        }
        self.length
    }
}

impl<T: NativeType> From<Vec<T>> for Buffer {
    /// A buffer of the values' little-endian bytes, `T::width()` per value,
    /// held in one allocation made for them.
    fn from(values: Vec<T>) -> (r: Buffer)
        ensures
            r@ == le_encode::<T>(values@),
    {
        let data: Vec<u8> = encode_values::<T>(values.as_slice());
        let length = data.len();
        let bytes = Bytes::from_raw_parts(data, length, T::get_alignment());
        let r = Buffer { bytes: Arc::new(bytes), offset: 0, length };
        assert(r@ =~= le_encode::<T>(values@));
        r
    }
}

impl<T: NativeType> vstd::std_specs::convert::FromSpecImpl<Vec<T>> for Buffer {
    /// `from` is specified by its own `ensures`, over the buffer's view.
    open spec fn obeys_from_spec() -> bool {
        false
    }

    open spec fn from_spec(v: Vec<T>) -> Buffer {
        arbitrary()
    }
}

} // verus!
