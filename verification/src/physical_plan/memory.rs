//! Reading in-memory batches.

use vstd::prelude::*;
use crate::datasource::Batch;
use crate::error::ToyDfError;

verus! {

/// The plan that hands out in-memory batches.
#[derive(Debug)]
pub struct MemoryExec {
    pub data: Vec<Batch>,
}

impl MemoryExec {
    /// A copy of the batches, in their order.
    pub fn execute(&self) -> (r: Result<Vec<Batch>, ToyDfError>)
        ensures
            r matches Ok(v) && v@ == self.data@,
    {
        let v = self.data.clone();
        assert(v@ =~= self.data@);
        Ok(v)
    }
}

} // verus!
