//! Table descriptions.

use vstd::prelude::*;

verus! {

/// A handle on a table's schema. It carries nothing yet: tables describe
/// their columns with arrow's schema type.
pub struct SchemaRef {}

} // verus!
