//! Arrays of primitive values with optional validity.

use core::ops::Deref;
use vstd::prelude::*;
use crate::buffer::{NullBuffer, ScalarBuffer};
use crate::schema::primitive::{
    Int16Type, Int32Type, Int64Type, Int8Type, UInt16Type, UInt32Type, UInt64Type, UInt8Type,
};
use crate::schema::{DataType, PrimitiveType};

verus! {

pub type Int8Array = PrimitiveArray<Int8Type>;
pub type Int16Array = PrimitiveArray<Int16Type>;
pub type Int32Array = PrimitiveArray<Int32Type>;
pub type Int64Array = PrimitiveArray<Int64Type>;
pub type UInt8Array = PrimitiveArray<UInt8Type>;
pub type UInt16Array = PrimitiveArray<UInt16Type>;
pub type UInt32Array = PrimitiveArray<UInt32Type>;
pub type UInt64Array = PrimitiveArray<UInt64Type>;

/// An array of values of a primitive type with an optional validity bitmap.
pub struct PrimitiveArray<T: PrimitiveType> {
    data_type: DataType,
    values: ScalarBuffer<T::Native>,
    nulls: Option<NullBuffer>,
}

/// The validity that an optional bitmap gives, if there is one.
pub open spec fn validity_of(nulls: Option<NullBuffer>) -> Option<Seq<bool>> {
    match nulls {
        Some(n) => Some(n@),
        None => None,
    }
}

/// Whether entry `idx` is null under an optional validity: never without a bitmap.
pub open spec fn is_null_in(validity: Option<Seq<bool>>, idx: int) -> bool {
    match validity {
        Some(v) => !v[idx],
        None => false,
    }
}

/// `idx` can be looked up in the optional validity.
pub open spec fn in_validity(validity: Option<Seq<bool>>, idx: int) -> bool {
    match validity {
        Some(v) => 0 <= idx < v.len(),
        None => true,
    }
}

impl<T: PrimitiveType> PrimitiveArray<T> {
    /// The values, null or not.
    pub closed spec fn spec_values(&self) -> Seq<T::Native> {
        self.values@
    }

    /// The validity, when the array has a bitmap.
    pub closed spec fn spec_validity(&self) -> Option<Seq<bool>> {
        validity_of(self.nulls)
    }

    /// An array of `values`, with `nulls` as validity.
    pub fn new(values: ScalarBuffer<T::Native>, nulls: Option<NullBuffer>) -> (r: Self)
        ensures
            r.spec_values() == values@,
            r.spec_validity() == validity_of(nulls),
    {
        Self { data_type: T::DATA_TYPE, values, nulls }
    }

    /// An array of `values`, without a validity bitmap.
    pub fn from_vec(values: Vec<T::Native>) -> (r: Self)
        ensures
            r.spec_values() == values@,
            r.spec_validity() is None,
    {
        Self::new(ScalarBuffer::from(values), None)
    }

    /// Number of values.
    pub fn len(&self) -> (r: usize)
        ensures
            r == self.spec_values().len(),
    {
        self.values.deref().len()
    }

    /// The values buffer.
    pub fn values(&self) -> (r: &ScalarBuffer<T::Native>)
        ensures
            r@ == self.spec_values(),
    {
        &self.values
    }

    /// The value at `idx`; for a null entry it is whatever the values hold there.
    pub fn value(&self, idx: usize) -> (r: T::Native)
        requires
            idx < self.spec_values().len(),
        ensures
            r == self.spec_values()[idx as int],
    {
        let s = self.values.deref();
        s[idx]
    }

    /// Whether the value at `idx` is null.
    pub fn is_null(&self, idx: usize) -> (r: bool)
        requires
            in_validity(self.spec_validity(), idx as int),
        ensures
            r == is_null_in(self.spec_validity(), idx as int),
    {
        match &self.nulls {
            None => false,
            Some(nulls) => nulls.is_null(idx),
        }
    }

    /// The `len` entries starting at `offset`, values and validity alike; nothing is copied.
    pub fn slice(&self, offset: usize, len: usize) -> (r: Self)
        requires
            offset + len <= self.spec_values().len(),
            self.spec_validity() matches Some(v) ==> offset + len <= v.len(),
        ensures
            r.spec_values() == self.spec_values().subrange(offset as int, offset + len),
            r.spec_validity() == match self.spec_validity() {
                Some(v) => Some(v.subrange(offset as int, offset + len)),
                None => None,
            },
    {
        let nulls = match &self.nulls {
            Some(n) => Some(n.slice(offset, len)),
            None => None,
        };
        Self { data_type: self.data_type.clone(), values: self.values.slice(offset, len), nulls }
    }
}

impl<T: PrimitiveType> core::iter::FromIterator<T::Native> for PrimitiveArray<T> {
    /// An array of the iterator's values, in order, without a validity bitmap.
    ///
    /// std's `Vec::from_iter` gathers the items, and the verified `from_vec`
    /// builds the array from them. The method itself carries no proof: its
    /// signature, fixed by `FromIterator`, bounds the iterator by
    /// `IntoIterator<Item = ..>`, and vstd declares `IntoIterator` without
    /// its `Item` type, so no proved function can carry that bound. Nor can
    /// the items of an arbitrary iterator be named.
    /// The contract therefore claims only that there is no bitmap; callers
    /// that need the values stated build the array with `from_vec`.
    #[verifier::external_body]
    fn from_iter<I: IntoIterator<Item = T::Native>>(iter: I) -> (r: Self)
        ensures
            r.spec_validity() is None,
    {
        let values: Vec<T::Native> = Vec::from_iter(iter);
        Self::from_vec(values)
    }
}

} // verus!
