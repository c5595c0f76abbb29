//! Errors of the query engine.

use vstd::prelude::*;

verus! {

/// What went wrong while planning or executing a query.
#[derive(Debug, PartialEq, Eq, Structural)]
pub enum ToyDfError {
    ExecutionError,
    PlanError,
    TableNotFound,
}

} // verus!
