//! Type markers tying a native Rust type to its logical type.

use vstd::prelude::*;
use crate::native::NativeType;
use super::datatype::DataType;

verus! {

/// A primitive logical type: the native type of its values and its `DataType`.
pub trait PrimitiveType: 'static {
    type Native: NativeType;
    const DATA_TYPE: DataType;
}

pub struct Int8Type;
impl PrimitiveType for Int8Type {
    type Native = i8;
    const DATA_TYPE: DataType = DataType::Int8;
}

pub struct Int16Type;
impl PrimitiveType for Int16Type {
    type Native = i16;
    const DATA_TYPE: DataType = DataType::Int16;
}

pub struct Int32Type;
impl PrimitiveType for Int32Type {
    type Native = i32;
    const DATA_TYPE: DataType = DataType::Int32;
}

pub struct Int64Type;
impl PrimitiveType for Int64Type {
    type Native = i64;
    const DATA_TYPE: DataType = DataType::Int64;
}

pub struct UInt8Type;
impl PrimitiveType for UInt8Type {
    type Native = u8;
    const DATA_TYPE: DataType = DataType::UInt8;
}

pub struct UInt16Type;
impl PrimitiveType for UInt16Type {
    type Native = u16;
    const DATA_TYPE: DataType = DataType::UInt16;
}

pub struct UInt32Type;
impl PrimitiveType for UInt32Type {
    type Native = u32;
    const DATA_TYPE: DataType = DataType::UInt32;
}

pub struct UInt64Type;
impl PrimitiveType for UInt64Type {
    type Native = u64;
    const DATA_TYPE: DataType = DataType::UInt64;
}

} // verus!
