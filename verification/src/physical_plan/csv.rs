//! Reading CSV files.

use vstd::prelude::*;
use crate::datasource::Batch;
use crate::error::ToyDfError;

verus! {

/// The plan that reads a CSV table.
#[derive(Debug)]
pub struct CsvExec {}

impl CsvExec {
    pub fn new() -> (r: Self)
        ensures
            r == (CsvExec {}),
    {
        CsvExec {}
    }

    /// Reading produces no batches yet.
    pub fn execute(&self) -> (r: Result<Vec<Batch>, ToyDfError>)
        ensures
            r matches Ok(v) && v@.len() == 0,
    {
        Ok(Vec::new())
    }
}

} // verus!
