//! Helpers for writing expressions.

use vstd::prelude::*;
use crate::common::scalar::ScalarValue;
use super::{Column, Expr};

verus! {

/// A reference to the column `name`.
pub fn col(name: impl Into<String>) -> (r: Expr)
    ensures
        r matches Expr::Column(c) && call_ensures(<_ as Into<String>>::into, (name,), c.name),
{
    Expr::Column(Column::from_name(name.into()))
}

/// A literal value.
pub fn lit(value: impl Into<ScalarValue>) -> (r: Expr)
    ensures
        r matches Expr::Literal(v) && call_ensures(<_ as Into<ScalarValue>>::into, (value,), v),
{
    Expr::Literal(value.into())
}

} // verus!
