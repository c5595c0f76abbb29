//! Tables read from CSV files.

use std::sync::Arc;
use vstd::prelude::*;
use vstd::string::*;
use crate::error::ToyDfError;
use crate::physical_plan::csv::CsvExec;
use crate::physical_plan::plan::ExecutionPlan;

verus! {

/// Options for reading CSV files.
pub struct CsvReadOptions {
    pub has_header: bool,
    pub schema: Option<arrow_schema::SchemaRef>,
}

impl CsvReadOptions {
    pub fn new(has_header: bool, schema: Option<arrow_schema::SchemaRef>) -> (r: Self)
        ensures
            r.has_header == has_header,
            r.schema == schema,
    {
        Self { has_header, schema }
    }
}

/// `parts` joined with `sep` between consecutive parts.
pub open spec fn join_with(parts: Seq<Seq<char>>, sep: Seq<char>) -> Seq<char>
    decreases parts.len(),
{
    if parts.len() == 0 {
        Seq::empty()
    } else if parts.len() == 1 {
        parts[0]
    } else {
        join_with(parts.drop_last(), sep) + sep + parts.last()
    }
}

/// The character sequences of a list of strings.
pub open spec fn strings_view(strings: Seq<String>) -> Seq<Seq<char>> {
    strings.map_values(|s: String| s@)
}

/// A table stored in CSV files.
#[derive(Debug)]
pub struct CsvTable {
    pub source_paths: Vec<String>,
}

impl CsvTable {
    /// The plan that reads the files.
    pub fn scan(&self) -> (r: Result<Arc<ExecutionPlan>, ToyDfError>)
        ensures
            r matches Ok(p) && *p == ExecutionPlan::Csv(CsvExec {}),
    {
        Ok(Arc::new(ExecutionPlan::Csv(CsvExec {})))
    }

    /// `CSV: [path, path, ...]`.
    pub fn to_string(&self) -> (r: String)
        ensures
            r@ == "CSV: ["@ + join_with(strings_view(self.source_paths@), ", "@) + "]"@,
    {
        let mut joined = String::new();
        let n = self.source_paths.len();
        let ghost parts = strings_view(self.source_paths@);
        let mut i: usize = 0;
        while i < n
            invariant
                n == self.source_paths@.len(),
                parts == strings_view(self.source_paths@),
                i <= n,
                joined@ == join_with(parts.take(i as int), ", "@),
            decreases n - i,
        {
            if i != 0 {
                joined.append(", ");
            }
            joined.append(self.source_paths[i].as_str());
            proof {
                assert(parts.take(i + 1).drop_last() =~= parts.take(i as int));
                assert(parts.take(i + 1).last() == self.source_paths@[i as int]@);
                if i == 0 {
                    assert(parts.take(1) =~= seq![parts[0]]);
                }
            }
            i = i + 1;
        }
        proof {
            assert(parts.take(n as int) =~= parts);
        }
        let mut r = String::from_str("CSV: [");
        r.append(joined.as_str());
        r.append("]");
        r
    }
}

} // verus!
