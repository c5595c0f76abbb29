//! A toy columnar data frame engine: Arrow-style buffers and arrays, logical
//! plans and their conversion to physical plans.

pub mod array;
pub mod bit_util;
pub mod buffer;
pub mod bytes;
pub mod common;
pub mod data;
pub mod datasource;
pub mod error;
pub mod expr;
pub mod logical_plan;
pub mod native;
pub mod physical_plan;
pub mod prelude;
pub mod schema;
pub mod session;
pub mod table;

pub use array::PrimitiveArray;
pub use buffer::{Buffer, NullBuffer};
pub use session::{DataFrame, FilePaths, SessionContext};
