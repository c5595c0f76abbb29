//! Typed arrays.

pub mod primitive;

pub use primitive::{
    Int16Array, Int32Array, Int64Array, Int8Array, PrimitiveArray, UInt16Array, UInt32Array,
    UInt64Array, UInt8Array,
};
