//! Typed, shareable value buffers.

use std::sync::Arc;
use vstd::prelude::*;
use super::immutable::{share, Buffer};
use crate::native::{NativeType, decode_values, le_decode, lemma_le_decode_len};

verus! {

/// A shareable buffer of values of type `T` with zero-copy slicing: clones
/// and slices share one allocation and differ only in the window they see.
pub struct ScalarBuffer<T> {
    values: Arc<Vec<T>>,
    offset: usize,
    len: usize,
}

impl<T> View for ScalarBuffer<T> {
    type V = Seq<T>;

    /// The values visible through this buffer.
    closed spec fn view(&self) -> Seq<T> {
        self.values@.subrange(self.offset as int, self.offset + self.len)
    }
}

impl<T> ScalarBuffer<T> {
    #[verifier::type_invariant]
    spec fn inv(self) -> bool {
        &&& self.offset + self.len <= self.values@.len()
        &&& self.offset + self.len <= usize::MAX
    }

    /// A zero-copy view of `len` values starting at value `offset`.
    pub fn slice(&self, offset: usize, len: usize) -> (r: Self)
        requires
            offset + len <= self@.len(),
        ensures
            r@ == self@.subrange(offset as int, offset + len),
    {
        proof {
            use_type_invariant(self);
        }
        let r = ScalarBuffer { values: share(&self.values), offset: self.offset + offset, len };
        assert(r@ =~= self@.subrange(offset as int, offset + len));
        r
    }
}

impl<T> Clone for ScalarBuffer<T> {
    /// Another handle on the same values; nothing is copied.
    fn clone(&self) -> (r: Self)
        ensures
            r@ == self@,
    {
        proof {
            use_type_invariant(self);
        }
        ScalarBuffer { values: share(&self.values), offset: self.offset, len: self.len }
    }
}

impl<T> From<Vec<T>> for ScalarBuffer<T> {
    /// Takes ownership of the vector's allocation; nothing is copied.
    fn from(values: Vec<T>) -> (r: ScalarBuffer<T>)
        ensures
            r@ == values@,
    {
        let len = values.len();
        let r = ScalarBuffer { values: Arc::new(values), offset: 0, len };
        assert(r@ =~= values@);
        r
    }
}

impl<T> vstd::std_specs::convert::FromSpecImpl<Vec<T>> for ScalarBuffer<T> {
    /// `from` is specified by its own `ensures`, over the buffer's view.
    open spec fn obeys_from_spec() -> bool {
        false
    }

    open spec fn from_spec(v: Vec<T>) -> ScalarBuffer<T> {
        arbitrary()
    }
}

impl<T: NativeType> ScalarBuffer<T> {
    /// The values that the buffer's bytes encode, `T::width()` little-endian
    /// bytes each.
    ///
    /// The buffer must hold a whole number of values, and its first byte
    /// must lie a multiple of `T`'s alignment into its allocation (the
    /// allocation itself starts where the allocator placed it): a buffer
    /// of typed values is never cut mid-value or read at an unaligned
    /// position. The values are decoded from the bytes, so no read depends
    /// on the address.
    pub fn from_buffer(buffer: Buffer) -> (r: Self)
        requires
            buffer@.len() % T::spec_width() == 0,
            buffer.spec_offset() % vstd::layout::align_of::<T>() == 0,
        ensures
            r@ == le_decode::<T>(buffer@),
            r@.len() * T::spec_width() == buffer@.len(),
    {
        let w = T::width();
        let ghost v0: T = arbitrary();
        proof {
            T::lemma_bits(v0);
            let n = buffer@.len() as int;
            let q = n / (w as int);
            vstd::arithmetic::div_mod::lemma_fundamental_div_mod(n, w as int);
            assert(n == q * w) by (nonlinear_arith)
                requires
                    n == (w as int) * q + n % (w as int),
                    n % (w as int) == 0,
            ;
            assert(q >= 0) by (nonlinear_arith)
                requires
                    n == q * w,
                    n >= 0,
                    w >= 1,
            ;
            lemma_le_decode_len::<T>(buffer@, q as nat);
        }
        let values: Vec<T> = decode_values::<T>(buffer.as_slice());
        ScalarBuffer::<T>::from(values)
    }

    /// The values of `buffer` as `from_buffer` reads them, or `None` when
    /// the buffer does not hold a whole number of values or its first byte
    /// is not at an aligned position of its allocation.
    pub fn try_from_buffer(buffer: Buffer) -> (r: Option<Self>)
        ensures
            r is Some <==> (buffer@.len() % T::spec_width() == 0
                && buffer.spec_offset() % vstd::layout::align_of::<T>() == 0),
            r matches Some(s) ==> s@ == le_decode::<T>(buffer@),
    {
        vstd::layout::layout_for_type_is_valid::<T>();
        let w = T::width();
        let ghost v0: T = arbitrary();
        proof {
            T::lemma_bits(v0);
        }
        let align = T::get_alignment();
        if buffer.len() % w == 0 && buffer.offset() % align == 0 {
            Some(Self::from_buffer(buffer))
        } else {
            None
        }
    }
}

impl<T> core::ops::Deref for ScalarBuffer<T> {
    type Target = [T];

    /// The visible values as a slice.
    fn deref(&self) -> (r: &[T])
        ensures
            r@ == self@,
    {
        proof {
            use_type_invariant(self);
        }
        vstd::slice::slice_subrange(self.values.as_slice(), self.offset, self.offset + self.len)
    }
}

} // verus!
