//! Types, fields and the primitive type markers.

pub mod datatype;
pub mod field;
pub mod primitive;

pub use datatype::{DataType, TimeUnit};
pub use field::Field;
pub use primitive::PrimitiveType;
