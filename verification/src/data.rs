//! Type-erased array data: a type, buffers and validity.

use vstd::prelude::*;
use crate::buffer::{Buffer, NullBuffer};
use crate::schema::DataType;

verus! {

/// The physical parts of an array: its type, its place within its buffers,
/// the buffers and the optional validity bitmap.
pub struct ArrayData {
    data_type: DataType,
    offset: usize,
    len: usize,
    buffers: Vec<Buffer>,
    nulls: Option<NullBuffer>,
}

impl ArrayData {
    pub closed spec fn spec_data_type(&self) -> DataType {
        self.data_type
    }

    pub closed spec fn spec_offset(&self) -> usize {
        self.offset
    }

    pub closed spec fn spec_len(&self) -> usize {
        self.len
    }

    pub closed spec fn spec_buffers(&self) -> Vec<Buffer> {
        self.buffers
    }

    pub closed spec fn spec_nulls(&self) -> Option<NullBuffer> {
        self.nulls
    }

    pub fn new(
        data_type: DataType,
        offset: usize,
        len: usize,
        buffers: Vec<Buffer>,
        nulls: Option<NullBuffer>,
    ) -> (r: Self)
        ensures
            r.spec_data_type() == data_type,
            r.spec_offset() == offset,
            r.spec_len() == len,
            r.spec_buffers() == buffers,
            r.spec_nulls() == nulls,
    {
        ArrayData { data_type, offset, len, buffers, nulls }
    }

    /// The validity bitmap, if any.
    pub fn nulls(&self) -> (r: Option<&NullBuffer>)
        ensures
            match r {
                Some(n) => self.spec_nulls() == Some(*n),
                None => self.spec_nulls() is None,
            },
    {
        self.nulls.as_ref()
    }

    /// The data buffers.
    pub fn buffers(&self) -> (r: &Vec<Buffer>)
        ensures
            *r == self.spec_buffers(),
    {
        &self.buffers
    }
}

} // verus!
