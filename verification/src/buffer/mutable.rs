//! A growable byte buffer for the build phase.

use vstd::prelude::*;
use crate::bytes::{Bytes, valid_layout};

verus! {

/// The larger of two sizes.
pub open spec fn max_size(a: int, b: int) -> int {
    if a >= b { a } else { b }
}

/// Capacity after growing to hold `needed` bytes from `capacity`: the
/// larger of the need and twice the old capacity.
pub open spec fn grown_capacity(needed: int, capacity: int) -> int {
    max_size(needed, 2 * capacity)
}

/// Appending `extra` bytes to `bytes` can be done: either they fit, or the
/// grown allocation has a valid layout.
pub open spec fn can_append(bytes: &Bytes, extra: int) -> bool {
    ||| bytes@.len() + extra <= bytes.spec_capacity()
    ||| valid_layout(grown_capacity(bytes@.len() + extra, bytes.spec_capacity() as int), bytes.requested_alignment() as int)
}

/// A growable buffer of bytes, doubling its allocation when it runs out of room.
pub struct MutableBuffer {
    pub bytes: Bytes,
}

impl MutableBuffer {
    /// Well-formed: the underlying allocation is.
    pub open spec fn wf(&self) -> bool {
        self.bytes.wf()
    }

    /// An empty buffer with `capacity` bytes reserved.
    pub fn with_capacity(capacity: usize, alignment: usize) -> (r: Self)
        requires
            valid_layout(capacity as int, alignment as int),
        ensures
            r.wf(),
            r.bytes@ == Seq::<u8>::empty(),
            r.bytes.spec_capacity() == capacity,
            r.bytes.requested_alignment() == alignment,
    {
        let bytes = Bytes::new(capacity, alignment);
        Self { bytes }
    }

    /// Appends one byte, growing the allocation when it is full.
    pub fn push(&mut self, value: u8)
        requires
            old(self).wf(),
            can_append(&old(self).bytes, 1),
        ensures
            final(self).wf(),
            final(self).bytes@ == old(self).bytes@.push(value),
            final(self).bytes.requested_alignment() == old(self).bytes.requested_alignment(),
            final(self).bytes.spec_capacity() == if old(self).bytes@.len() + 1 <= old(self).bytes.spec_capacity() {
                old(self).bytes.spec_capacity() as int
            } else {
                grown_capacity(old(self).bytes@.len() + 1int, old(self).bytes.spec_capacity() as int)
            },
    {
        let length = self.bytes.length();
        let capacity = self.bytes.capacity();
        let new_length = length + 1;
        if new_length > capacity {
            let doubled = capacity * 2;
            let new_capacity = if new_length >= doubled { new_length } else { doubled };
            self.grow(new_capacity);
        }
        let length = self.bytes.length();
        let ghost before = self.bytes@;
        self.bytes.write(length, value);
        self.bytes.set_length(new_length);
        proof {
            assert(self.bytes@ =~= before.push(value));
        }
    }

    /// Appends `values`, growing the allocation when they do not fit.
    pub fn extend_from_slice(&mut self, values: &[u8])
        requires
            old(self).wf(),
            can_append(&old(self).bytes, values@.len() as int),
        ensures
            final(self).wf(),
            final(self).bytes@ == old(self).bytes@ + values@,
            final(self).bytes.requested_alignment() == old(self).bytes.requested_alignment(),
            final(self).bytes.spec_capacity() == if old(self).bytes@.len() + values@.len() <= old(self).bytes.spec_capacity() {
                old(self).bytes.spec_capacity() as int
            } else {
                grown_capacity((old(self).bytes@.len() + values@.len()) as int, old(self).bytes.spec_capacity() as int)
            },
    {
        let length = self.bytes.length();
        let capacity = self.bytes.capacity();
        let n = values.len();
        proof {
            if length + n > capacity {
                assert(length + n <= isize::MAX);
            }
        }
        let new_length = length + n;
        if new_length > capacity {
            let doubled = capacity * 2;
            let new_capacity = if new_length >= doubled { new_length } else { doubled };
            self.grow(new_capacity);
        }
        let length = self.bytes.length();
        let ghost before = self.bytes@;
        let mut i: usize = 0;
        while i < n
            invariant
                n == values@.len(),
                i <= n,
                length + n == new_length,
                self.bytes.wf(),
                new_length <= self.bytes.spec_capacity(),
                self.bytes@ == before,
                before.len() == length,
                self.bytes.contents().len() == self.bytes.spec_capacity(),
                self.bytes.contents().take(length as int) == before,
                forall|k: int| 0 <= k < i ==> #[trigger] self.bytes.contents()[length + k] == values@[k],
                self.bytes.requested_alignment() == old(self).bytes.requested_alignment(),
                self.bytes.spec_capacity() == if old(self).bytes@.len() + values@.len() <= old(self).bytes.spec_capacity() {
                    old(self).bytes.spec_capacity() as int
                } else {
                    grown_capacity((old(self).bytes@.len() + values@.len()) as int, old(self).bytes.spec_capacity() as int)
                },
            decreases n - i,
        {
            let ghost prev = self.bytes.contents();
            self.bytes.write(length + i, values[i]);
            proof {
                assert(self.bytes.contents().take(length as int) =~= prev.take(length as int));
            }
            i = i + 1;
        }
        let ghost filled = self.bytes.contents();
        proof {
            assert forall|j: int| length <= j < new_length implies #[trigger] filled[j] == values@[j - length] by {
                let k = j - length;
                assert(filled[length + k] == values@[k]);
            }
            assert forall|j: int| 0 <= j < length implies #[trigger] filled[j] == before[j] by {
                assert(filled.take(length as int)[j] == filled[j]);
            }
        }
        self.bytes.set_length(new_length);
        proof {
            assert(self.bytes@ =~= before + values@);
        }
    }

    /// Moves the bytes in use into a new allocation of `capacity` bytes.
    fn grow(&mut self, capacity: usize)
        requires
            old(self).wf(),
            old(self).bytes@.len() <= capacity,
            valid_layout(capacity as int, old(self).bytes.requested_alignment() as int),
        ensures
            final(self).wf(),
            final(self).bytes@ == old(self).bytes@,
            final(self).bytes.spec_capacity() == capacity,
            final(self).bytes.requested_alignment() == old(self).bytes.requested_alignment(),
    {
        let mut bytes = Bytes::new(capacity, self.bytes.alignment());
        let src = self.bytes.as_slice();
        let length = src.len();
        let mut i: usize = 0;
        while i < length
            invariant
                length == src@.len(),
                src@ == self.bytes@,
                length <= capacity,
                i <= length,
                bytes.wf(),
                bytes@.len() == 0,
                bytes.spec_capacity() == capacity,
                bytes.contents().len() == capacity,
                bytes.requested_alignment() == self.bytes.requested_alignment(),
                forall|k: int| 0 <= k < i ==> #[trigger] bytes.contents()[k] == src@[k],
            decreases length - i,
        {
            bytes.write(i, src[i]);
            i = i + 1;
        }
        bytes.set_length(length);
        assert(bytes@ =~= src@);
        self.bytes = bytes;
    }
}

} // verus!
