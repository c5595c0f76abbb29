//! Column descriptors.

use vstd::prelude::*;
use super::datatype::DataType;

verus! {

/// A named, typed column that may or may not hold nulls.
#[derive(Debug, PartialEq, Eq)]
pub struct Field {
    pub name: String,
    pub data_type: DataType,
    pub nullable: bool,
}

impl Field {
    pub fn new(name: String, data_type: DataType, nullable: bool) -> (r: Self)
        ensures
            r.name == name,
            r.data_type == data_type,
            r.nullable == nullable,
    {
        Field { name, data_type, nullable }
    }
}

} // verus!
