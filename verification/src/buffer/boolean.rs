//! Bit-packed boolean values.

use vstd::prelude::*;
use crate::bit_util::{self, bit_of, bytes_for_bits};
use super::immutable::Buffer;

verus! {

/// A bit-packed buffer of boolean values, LSB first, with a bit offset so
/// that slicing copies nothing.
pub struct BooleanBuffer {
    buffer: Buffer,
    len: usize,
    offset: usize,
}

impl View for BooleanBuffer {
    type V = Seq<bool>;

    /// Value `i` is bit `offset + i` of the underlying bytes.
    closed spec fn view(&self) -> Seq<bool> {
        Seq::new(self.len as nat, |i: int| bit_of(self.buffer@, self.offset + i))
    }
}

impl BooleanBuffer {
    #[verifier::type_invariant]
    spec fn inv(self) -> bool {
        self.offset + self.len <= usize::MAX
    }

    /// Every value has a bit in the underlying bytes (an empty buffer has
    /// no value, wherever its offset lies).
    pub closed spec fn backed(&self) -> bool {
        self.len == 0 || self.offset + self.len <= 8 * self.buffer@.len()
    }

    /// Value `idx` has a bit in the underlying bytes.
    pub closed spec fn has_bit(&self, idx: int) -> bool {
        self.offset + idx < 8 * self.buffer@.len()
    }

    /// In a backed buffer every value has its bit.
    pub proof fn lemma_backed_has_bit(&self, idx: int)
        requires
            self.backed(),
            0 <= idx < self@.len(),
        ensures
            self.has_bit(idx),
    {
    }

    /// A buffer is backed exactly when each of its values has its bit.
    pub proof fn lemma_backed_iff_all_bits(&self)
        ensures
            self.backed() == (forall|i: int| 0 <= i < self@.len() ==> #[trigger] self.has_bit(i)),
    {
        if self.len > 0 && (forall|i: int| 0 <= i < self@.len() ==> #[trigger] self.has_bit(i)) {
            assert(self.has_bit(self.len - 1));
        }
    }

    /// A buffer of `len` values read from the bits of `buffer`.
    pub fn new(buffer: Buffer, len: usize) -> (r: Self)
        ensures
            r@ == Seq::new(len as nat, |i: int| bit_of(buffer@, i)),
            r.backed() == (len <= 8 * buffer@.len()),
            forall|i: int| #[trigger] r.has_bit(i) == (i < 8 * buffer@.len()),
    {
        let r = BooleanBuffer { buffer, len, offset: 0 };
        assert(r@ =~= Seq::new(len as nat, |i: int| bit_of(buffer@, i)));
        r
    }

    /// Number of boolean values (bits, not bytes).
    pub fn len(&self) -> (r: usize)
        ensures
            r == self@.len(),
    {
        self.len
    }

    /// The value at `idx`.
    pub fn value(&self, idx: usize) -> (b: bool)
        requires
            idx < self@.len(),
            self.has_bit(idx as int),
        ensures
            b == self@[idx as int],
    {
        proof {
            use_type_invariant(self);
        }
        bit_util::get_bit(&self.buffer, self.offset + idx)
    }

    /// Packs `bools` into a new buffer.
    pub fn from_bools(bools: &[bool]) -> (r: Self)
        ensures
            r@ == bools@,
            r.backed(),
            forall|i: int| 0 <= i < bools@.len() ==> #[trigger] r.has_bit(i),
    {
        let buffer = bit_util::pack_bools(bools);
        let r = Self::new(buffer, bools.len());
        assert(r@ =~= bools@);
        r
    }

    /// A zero-copy view of `len` values starting at value `offset`.
    pub fn slice(&self, offset: usize, len: usize) -> (r: Self)
        requires
            offset + len <= self@.len(),
        ensures
            r@ == self@.subrange(offset as int, offset + len),
            self.backed() ==> r.backed(),
            forall|i: int| #[trigger] r.has_bit(i) == self.has_bit(offset + i),
    {
        proof {
            use_type_invariant(self);
        }
        let r = BooleanBuffer { buffer: self.buffer.clone(), len, offset: self.offset + offset };
        assert(r@ =~= self@.subrange(offset as int, offset + len));
        r
    }
}

} // verus!
