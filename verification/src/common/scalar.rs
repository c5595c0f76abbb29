//! Typed single values.

use vstd::prelude::*;

verus! {

/// A typed single value, possibly null. Larger variants are boxed to keep
/// the enum small.
#[derive(Debug)]
pub enum ScalarValue {
    Boolean(Option<bool>),
    Int8(Option<i8>),
    Int16(Option<i16>),
    Int32(Option<i32>),
    Int64(Option<i64>),
    UInt8(Option<u8>),
    UInt16(Option<u16>),
    UInt32(Option<u32>),
    UInt64(Option<Box<u64>>),
    String(Option<Box<String>>),
    Binary(Option<Box<Vec<u8>>>),
}

/// The mathematical content of a `ScalarValue`.
pub enum ScalarModel {
    Boolean(Option<bool>),
    Int8(Option<i8>),
    Int16(Option<i16>),
    Int32(Option<i32>),
    Int64(Option<i64>),
    UInt8(Option<u8>),
    UInt16(Option<u16>),
    UInt32(Option<u32>),
    UInt64(Option<u64>),
    String(Option<Seq<char>>),
    Binary(Option<Seq<u8>>),
}

impl ScalarValue {
    /// The value this scalar holds, with strings and bytes as sequences.
    pub open spec fn model(&self) -> ScalarModel {
        match self {
            ScalarValue::Boolean(v) => ScalarModel::Boolean(*v),
            ScalarValue::Int8(v) => ScalarModel::Int8(*v),
            ScalarValue::Int16(v) => ScalarModel::Int16(*v),
            ScalarValue::Int32(v) => ScalarModel::Int32(*v),
            ScalarValue::Int64(v) => ScalarModel::Int64(*v),
            ScalarValue::UInt8(v) => ScalarModel::UInt8(*v),
            ScalarValue::UInt16(v) => ScalarModel::UInt16(*v),
            ScalarValue::UInt32(v) => ScalarModel::UInt32(*v),
            ScalarValue::UInt64(v) => ScalarModel::UInt64(
                match v {
                    Some(b) => Some(**b),
                    None => None,
                },
            ),
            ScalarValue::String(v) => ScalarModel::String(
                match v {
                    Some(b) => Some(b@),
                    None => None,
                },
            ),
            ScalarValue::Binary(v) => ScalarModel::Binary(
                match v {
                    Some(b) => Some(b@),
                    None => None,
                },
            ),
        }
    }
}

impl Clone for ScalarValue {
    /// A copy holding the same value.
    fn clone(&self) -> (r: Self)
        ensures
            r.model() == self.model(),
    {
        match self {
            ScalarValue::Boolean(v) => ScalarValue::Boolean(*v),
            ScalarValue::Int8(v) => ScalarValue::Int8(*v),
            ScalarValue::Int16(v) => ScalarValue::Int16(*v),
            ScalarValue::Int32(v) => ScalarValue::Int32(*v),
            ScalarValue::Int64(v) => ScalarValue::Int64(*v),
            ScalarValue::UInt8(v) => ScalarValue::UInt8(*v),
            ScalarValue::UInt16(v) => ScalarValue::UInt16(*v),
            ScalarValue::UInt32(v) => ScalarValue::UInt32(*v),
            ScalarValue::UInt64(v) => ScalarValue::UInt64(
                match v {
                    Some(b) => Some(Box::new(**b)),
                    None => None,
                },
            ),
            ScalarValue::String(v) => ScalarValue::String(
                match v {
                    Some(b) => Some(Box::new((**b).clone())),
                    None => None,
                },
            ),
            ScalarValue::Binary(v) => ScalarValue::Binary(
                match v {
                    Some(b) => Some(Box::new(vstd::slice::slice_to_vec((**b).as_slice()))),
                    None => None,
                },
            ),
        }
    }
}

impl From<bool> for ScalarValue {
    fn from(v: bool) -> (r: ScalarValue)
        ensures
            r == ScalarValue::Boolean(Some(v)),
    {
        ScalarValue::Boolean(Some(v))
    }
}

impl vstd::std_specs::convert::FromSpecImpl<bool> for ScalarValue {
    open spec fn obeys_from_spec() -> bool {
        true
    }

    open spec fn from_spec(v: bool) -> ScalarValue {
        ScalarValue::Boolean(Some(v))
    }
}

impl From<i8> for ScalarValue {
    fn from(v: i8) -> (r: ScalarValue)
        ensures
            r == ScalarValue::Int8(Some(v)),
    {
        ScalarValue::Int8(Some(v))
    }
}

impl vstd::std_specs::convert::FromSpecImpl<i8> for ScalarValue {
    open spec fn obeys_from_spec() -> bool {
        true
    }

    open spec fn from_spec(v: i8) -> ScalarValue {
        ScalarValue::Int8(Some(v))
    }
}

impl From<i16> for ScalarValue {
    fn from(v: i16) -> (r: ScalarValue)
        ensures
            r == ScalarValue::Int16(Some(v)),
    {
        ScalarValue::Int16(Some(v))
    }
}

impl vstd::std_specs::convert::FromSpecImpl<i16> for ScalarValue {
    open spec fn obeys_from_spec() -> bool {
        true
    }

    open spec fn from_spec(v: i16) -> ScalarValue {
        ScalarValue::Int16(Some(v))
    }
}

impl From<i32> for ScalarValue {
    fn from(v: i32) -> (r: ScalarValue)
        ensures
            r == ScalarValue::Int32(Some(v)),
    {
        ScalarValue::Int32(Some(v))
    }
}

impl vstd::std_specs::convert::FromSpecImpl<i32> for ScalarValue {
    open spec fn obeys_from_spec() -> bool {
        true
    }

    open spec fn from_spec(v: i32) -> ScalarValue {
        ScalarValue::Int32(Some(v))
    }
}

impl From<i64> for ScalarValue {
    fn from(v: i64) -> (r: ScalarValue)
        ensures
            r == ScalarValue::Int64(Some(v)),
    {
        ScalarValue::Int64(Some(v))
    }
}

impl vstd::std_specs::convert::FromSpecImpl<i64> for ScalarValue {
    open spec fn obeys_from_spec() -> bool {
        true
    }

    open spec fn from_spec(v: i64) -> ScalarValue {
        ScalarValue::Int64(Some(v))
    }
}

impl From<u8> for ScalarValue {
    fn from(v: u8) -> (r: ScalarValue)
        ensures
            r == ScalarValue::UInt8(Some(v)),
    {
        ScalarValue::UInt8(Some(v))
    }
}

impl vstd::std_specs::convert::FromSpecImpl<u8> for ScalarValue {
    open spec fn obeys_from_spec() -> bool {
        true
    }

    open spec fn from_spec(v: u8) -> ScalarValue {
        ScalarValue::UInt8(Some(v))
    }
}

impl From<u16> for ScalarValue {
    fn from(v: u16) -> (r: ScalarValue)
        ensures
            r == ScalarValue::UInt16(Some(v)),
    {
        ScalarValue::UInt16(Some(v))
    }
}

impl vstd::std_specs::convert::FromSpecImpl<u16> for ScalarValue {
    open spec fn obeys_from_spec() -> bool {
        true
    }

    open spec fn from_spec(v: u16) -> ScalarValue {
        ScalarValue::UInt16(Some(v))
    }
}

impl From<u32> for ScalarValue {
    fn from(v: u32) -> (r: ScalarValue)
        ensures
            r == ScalarValue::UInt32(Some(v)),
    {
        ScalarValue::UInt32(Some(v))
    }
}

impl vstd::std_specs::convert::FromSpecImpl<u32> for ScalarValue {
    open spec fn obeys_from_spec() -> bool {
        true
    }

    open spec fn from_spec(v: u32) -> ScalarValue {
        ScalarValue::UInt32(Some(v))
    }
}

impl From<u64> for ScalarValue {
    fn from(v: u64) -> (r: ScalarValue)
        ensures
            r == ScalarValue::UInt64(Some(Box::new(v))),
    {
        ScalarValue::UInt64(Some(Box::new(v)))
    }
}

impl vstd::std_specs::convert::FromSpecImpl<u64> for ScalarValue {
    open spec fn obeys_from_spec() -> bool {
        true
    }

    open spec fn from_spec(v: u64) -> ScalarValue {
        ScalarValue::UInt64(Some(Box::new(v)))
    }
}

impl From<String> for ScalarValue {
    fn from(v: String) -> (r: ScalarValue)
        ensures
            r == ScalarValue::String(Some(Box::new(v))),
    {
        ScalarValue::String(Some(Box::new(v)))
    }
}

impl vstd::std_specs::convert::FromSpecImpl<String> for ScalarValue {
    open spec fn obeys_from_spec() -> bool {
        true
    }

    open spec fn from_spec(v: String) -> ScalarValue {
        ScalarValue::String(Some(Box::new(v)))
    }
}

impl From<Vec<u8>> for ScalarValue {
    fn from(v: Vec<u8>) -> (r: ScalarValue)
        ensures
            r == ScalarValue::Binary(Some(Box::new(v))),
    {
        ScalarValue::Binary(Some(Box::new(v)))
    }
}

impl vstd::std_specs::convert::FromSpecImpl<Vec<u8>> for ScalarValue {
    open spec fn obeys_from_spec() -> bool {
        true
    }

    open spec fn from_spec(v: Vec<u8>) -> ScalarValue {
        ScalarValue::Binary(Some(Box::new(v)))
    }
}

} // verus!
