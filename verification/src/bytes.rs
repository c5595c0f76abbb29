//! The storage that buffers share.

use vstd::prelude::*;

verus! {

/// `a` is a power of two.
pub open spec fn is_power_of_two(a: int) -> bool
    decreases a,
{
    if a <= 0 {
        false
    } else if a == 1 {
        true
    } else {
        a % 2 == 0 && is_power_of_two(a / 2)
    }
}

/// `(size, align)` describes a valid allocation layout: `align` is a power of
/// two and `size`, rounded up to a multiple of `align`, fits in an `isize`.
pub open spec fn valid_layout(size: int, align: int) -> bool {
    &&& is_power_of_two(align)
    &&& size + align - 1 <= isize::MAX
}

/// One allocation of `capacity` bytes, of which the first `length` are in use.
///
/// The allocation is a zero-initialised byte vector, so reading a byte that
/// was never written yields 0. `alignment` records the alignment the
/// allocation was requested with; the vector's address is aligned only as
/// the allocator places it (a byte vector is promised 1-byte alignment).
/// No read here depends on the address: typed values are decoded from the
/// bytes, never reinterpreted in place.
pub struct Bytes {
    data: Vec<u8>,
    length: usize,
    alignment: usize,
}

impl View for Bytes {
    type V = Seq<u8>;

    /// The bytes in use.
    closed spec fn view(&self) -> Seq<u8> {
        self.data@.take(self.length as int)
    }
}

impl Bytes {
    /// Well-formed: the bytes in use lie within the allocation.
    pub closed spec fn wf(&self) -> bool {
        self.length <= self.data@.len()
    }

    /// All `capacity` bytes of the allocation, in use or not.
    pub closed spec fn contents(&self) -> Seq<u8> {
        self.data@
    }

    /// Total allocated bytes.
    pub closed spec fn spec_capacity(&self) -> nat {
        self.data@.len()
    }

    /// Alignment the allocation was requested with.
    pub closed spec fn requested_alignment(&self) -> nat {
        self.alignment as nat
    }

    /// Allocates `capacity` zeroed bytes, recording the requested alignment;
    /// none of them is in use. The layout must be one the allocator accepts.
    pub fn new(capacity: usize, alignment: usize) -> (r: Self)
        requires
            valid_layout(capacity as int, alignment as int),
        ensures
            r.wf(),
            r@ == Seq::<u8>::empty(),
            r.spec_capacity() == capacity,
            r.requested_alignment() == alignment,
            r.contents() == Seq::new(capacity as nat, |i: int| 0u8),
    {
        let data: Vec<u8> = vec![0u8; capacity];
        let r = Bytes { data, length: 0, alignment };
        assert(r.data@ == Seq::new(capacity as nat, |i: int| 0u8));
        r
    }

    /// Takes ownership of an existing allocation, of which the first `length`
    /// bytes are in use.
    pub fn from_raw_parts(data: Vec<u8>, length: usize, alignment: usize) -> (r: Self)
        requires
            length <= data@.len(),
        ensures
            r.wf(),
            r@ == data@.take(length as int),
            r.contents() == data@,
            r.spec_capacity() == data@.len(),
            r.requested_alignment() == alignment,
    {
        Bytes { data, length, alignment }
    }

    /// Number of bytes in use.
    pub fn len(&self) -> (r: usize)
        requires
            self.wf(),
        ensures
            r == self@.len(),
            r <= self.spec_capacity(),
            self@ == self.contents().take(r as int),
            self.contents().len() == self.spec_capacity(),
    {
        self.length
    }

    /// Number of bytes in use.
    pub fn length(&self) -> (r: usize)
        requires
            self.wf(),
        ensures
            r == self@.len(),
            r <= self.spec_capacity(),
            self@ == self.contents().take(r as int),
            self.contents().len() == self.spec_capacity(),
    {
        self.len()
    }

    /// Total allocated bytes.
    pub fn capacity(&self) -> (r: usize)
        ensures
            r == self.spec_capacity(),
            self.contents().len() == r,
    {
        self.data.len()
    }

    /// Alignment the allocation was requested with.
    pub fn alignment(&self) -> (r: usize)
        ensures
            r == self.requested_alignment(),
    {
        self.alignment
    }

    /// Marks the first `length` bytes of the allocation as in use.
    pub fn set_length(&mut self, length: usize)
        requires
            old(self).wf(),
            length <= old(self).spec_capacity(),
        ensures
            final(self).wf(),
            final(self)@ == old(self).contents().take(length as int),
            final(self).contents() == old(self).contents(),
            final(self).spec_capacity() == old(self).spec_capacity(),
            final(self).requested_alignment() == old(self).requested_alignment(),
    {
        self.length = length;
    }

    /// Writes `value` at byte `n` of the allocation.
    pub fn write(&mut self, n: usize, value: u8)
        requires
            old(self).wf(),
            n < old(self).spec_capacity(),
        ensures
            final(self).wf(),
            final(self).contents() == old(self).contents().update(n as int, value),
            final(self)@ == final(self).contents().take(old(self)@.len() as int),
            final(self).spec_capacity() == old(self).spec_capacity(),
            final(self).requested_alignment() == old(self).requested_alignment(),
    {
        self.data.set(n, value);
    }

    /// The bytes in use.
    pub fn as_slice(&self) -> (r: &[u8])
        requires
            self.wf(),
        ensures
            r@ == self@,
    {
        vstd::slice::slice_subrange(self.data.as_slice(), 0, self.length)
    }
}

} // verus!
