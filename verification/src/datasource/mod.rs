//! Sources of tables.

use std::sync::Arc;
use vstd::prelude::*;
use crate::error::ToyDfError;
use crate::physical_plan::plan::ExecutionPlan;

pub mod csv;
pub mod memory;

pub use csv::CsvTable;
pub use memory::MemTable;

verus! {

/// `arrow_schema::Schema`, the description of a table's columns; opaque here.
#[verifier::external_type_specification]
#[verifier::external_body]
pub struct ExSchema(arrow_schema::Schema);

/// An `arrow::array::RecordBatch`: rows of a table, stored by column.
///
/// The batch is carried whole and never looked into: its columns are
/// arrow's own arrays, and no logic of this crate reads them.
#[verifier::external_body]
#[derive(Debug)]
pub struct Batch(pub arrow::array::RecordBatch);

impl Clone for Batch {
    /// `RecordBatch::clone`, the derived clone, which copies the schema and
    /// column handles (each an `Arc`) and the row count: the copy is the
    /// same batch.
    #[verifier::external_body]
    fn clone(&self) -> (r: Self)
        ensures
            r == *self,
    {
        Batch(self.0.clone())
    }
}

/// A table that queries can scan.
#[derive(Debug)]
pub enum TableProvider {
    Csv(CsvTable),
    Memory(MemTable),
}

impl TableProvider {
    /// The text that names the table.
    pub open spec fn display(&self) -> Seq<char> {
        match self {
            TableProvider::Csv(t) => "CSV: ["@ + csv::join_with(csv::strings_view(t.source_paths@), ", "@) + "]"@,
            TableProvider::Memory(m) => "MemTable"@ + match m.spec_description() {
                Some(d) => " ("@ + d + ")"@,
                None => Seq::<char>::empty(),
            },
        }
    }

    /// Two in-memory tables are named alike exactly when their descriptions
    /// are alike, and a described table's name holds its description right
    /// after `MemTable (`.
    pub proof fn lemma_memory_names(m1: MemTable, m2: MemTable)
        ensures
            (TableProvider::Memory(m1).display() == TableProvider::Memory(m2).display())
                == (m1.spec_description() == m2.spec_description()),
            m1.spec_description() matches Some(d) ==> {
                let name = TableProvider::Memory(m1).display();
                &&& name.len() == d.len() + 11
                &&& name.subrange(10, 10 + d.len() as int) == d
            },
            m1.spec_description() is None ==> TableProvider::Memory(m1).display().len() == 8,
    {
        reveal_strlit("MemTable");
        reveal_strlit(" (");
        reveal_strlit(")");
        let n1 = TableProvider::Memory(m1).display();
        let n2 = TableProvider::Memory(m2).display();
        match m1.spec_description() {
            Some(d) => {
                assert(n1.subrange(10, 10 + d.len() as int) =~= d);
            },
            None => {},
        }
        if n1 == n2 {
            match (m1.spec_description(), m2.spec_description()) {
                (Some(d1), Some(d2)) => {
                    assert(n1.subrange(10, 10 + d1.len() as int) =~= d1);
                    assert(n2.subrange(10, 10 + d2.len() as int) =~= d2);
                    assert(d1 =~= d2);
                },
                _ => {},
            }
        }
    }

    /// The text that names the table.
    pub fn to_string(&self) -> (r: String)
        ensures
            r@ == self.display(),
    {
        match self {
            TableProvider::Csv(t) => t.to_string(),
            TableProvider::Memory(m) => m.to_string(),
        }
    }

    /// The table's schema; only in-memory tables know theirs.
    pub fn schema(&self) -> (r: arrow_schema::SchemaRef)
        requires
            self is Memory,
        ensures
            self matches TableProvider::Memory(m) && *r == *m.spec_schema(),
    {
        match self {
            TableProvider::Memory(m) => m.schema(),
            TableProvider::Csv(_) => vstd::pervasive::unreached(),
        }
    }

    /// The physical plan that reads the table; only CSV tables can be scanned.
    pub fn scan(&self) -> (r: Result<Arc<ExecutionPlan>, ToyDfError>)
        requires
            self is Csv,
        ensures
            r matches Ok(p) && *p == ExecutionPlan::Csv(crate::physical_plan::csv::CsvExec {}),
    {
        match self {
            TableProvider::Csv(t) => t.scan(),
            TableProvider::Memory(_) => vstd::pervasive::unreached(),
        }
    }
}

} // verus!
