//! Physical plan nodes.

use std::sync::Arc;
use vstd::prelude::*;
use crate::datasource::Batch;
use crate::datasource::TableProvider;
use crate::error::ToyDfError;
use crate::expr::{Expr, ExprModel, models_of};
use super::csv::CsvExec;
use super::memory::MemoryExec;

verus! {

/// The batches a plan produces.
pub type RecordBatchStream = Vec<Batch>;

/// The errors that executing a plan can raise: there are none, so the type
/// has no value.
pub type ExecutionError = core::convert::Infallible;

/// A node of a physical plan.
#[derive(Debug)]
pub enum ExecutionPlan {
    Filter(FilterExec),
    Projection(ProjectionExec),
    Csv(CsvExec),
    Memory(MemoryExec),
    Scan(ScanExec),
}

/// The shape of a physical plan: its nodes, their expressions and inputs.
pub enum ExecModel {
    Filter(ExprModel, Box<ExecModel>),
    Projection(Seq<ExprModel>, Box<ExecModel>),
    Csv,
    Memory(Seq<Batch>),
    Scan(TableProvider),
}

/// `arrow::array::RecordBatch::new_empty` on `arrow_schema::Schema::empty`:
/// a batch of no rows and no columns. The schema has no field, so no field
/// can make the call panic. Nothing is stated of the batch, which is opaque
/// here.
#[verifier::external_body]
fn empty_batch() -> Batch {
    Batch(arrow::array::RecordBatch::new_empty(Arc::new(arrow_schema::Schema::empty())))
}

/// A single batch without rows or columns.
fn single_empty_batch() -> (r: RecordBatchStream)
    ensures
        r@.len() == 1,
{
    let mut v: RecordBatchStream = Vec::new();
    v.push(empty_batch());
    v
}

impl ExecutionPlan {
    /// The shape of this plan.
    pub open spec fn model(&self) -> ExecModel
        decreases self,
    {
        match self {
            ExecutionPlan::Filter(f) => ExecModel::Filter(f.expr.model(), Box::new(f.input.model())),
            ExecutionPlan::Projection(p) => ExecModel::Projection(models_of(p.exprs@), Box::new(p.input.model())),
            ExecutionPlan::Csv(_) => ExecModel::Csv,
            ExecutionPlan::Memory(m) => ExecModel::Memory(m.data@),
            ExecutionPlan::Scan(s) => ExecModel::Scan(*s.table),
        }
    }

    /// Runs the plan.
    pub fn execute(&self) -> (r: Result<RecordBatchStream, ToyDfError>)
        ensures
            r matches Ok(v) && match self {
                ExecutionPlan::Csv(_) => v@.len() == 0,
                ExecutionPlan::Memory(m) => v@ == m.data@,
                _ => v@.len() == 1,
            },
    {
        match self {
            ExecutionPlan::Filter(f) => f.execute(),
            ExecutionPlan::Projection(p) => p.execute(),
            ExecutionPlan::Csv(c) => c.execute(),
            ExecutionPlan::Memory(m) => m.execute(),
            ExecutionPlan::Scan(s) => s.execute(),
        }
    }
}

/// Reads a table.
#[derive(Debug)]
pub struct ScanExec {
    pub table: Arc<TableProvider>,
}

impl ScanExec {
    pub fn new(table: Arc<TableProvider>) -> (r: Self)
        ensures
            r.table == table,
    {
        ScanExec { table }
    }

    /// Produces one empty batch.
    pub fn execute(&self) -> (r: Result<RecordBatchStream, ToyDfError>)
        ensures
            r matches Ok(v) && v@.len() == 1,
    {
        Ok(single_empty_batch())
    }
}

/// Keeps the rows of its input for which `expr` holds.
#[derive(Debug)]
pub struct FilterExec {
    pub expr: Expr,
    pub input: Arc<ExecutionPlan>,
}

impl FilterExec {
    pub fn new(expr: Expr, input: Arc<ExecutionPlan>) -> (r: Self)
        ensures
            r.expr == expr,
            r.input == input,
    {
        FilterExec { expr, input }
    }

    /// Produces one empty batch.
    pub fn execute(&self) -> (r: Result<RecordBatchStream, ToyDfError>)
        ensures
            r matches Ok(v) && v@.len() == 1,
    {
        Ok(single_empty_batch())
    }
}

/// Computes `exprs` over the rows of its input.
#[derive(Debug)]
pub struct ProjectionExec {
    pub exprs: Vec<Expr>,
    pub input: Arc<ExecutionPlan>,
}

impl ProjectionExec {
    pub fn new(exprs: Vec<Expr>, input: Arc<ExecutionPlan>) -> (r: Self)
        ensures
            r.exprs == exprs,
            r.input == input,
    {
        ProjectionExec { exprs, input }
    }

    /// Produces one empty batch.
    pub fn execute(&self) -> (r: Result<RecordBatchStream, ToyDfError>)
        ensures
            r matches Ok(v) && v@.len() == 1,
    {
        Ok(single_empty_batch())
    }
}

} // verus!
