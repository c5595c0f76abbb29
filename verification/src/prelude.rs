//! The items most queries need.

pub use crate::expr::expr_fn::{col, lit};
pub use crate::expr::{BinaryOperator, Column, Expr};
