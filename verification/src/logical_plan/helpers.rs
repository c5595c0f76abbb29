//! Helpers for building logical plan nodes.

use std::sync::Arc;
use vstd::prelude::*;
use crate::datasource::TableProvider;
use crate::expr::Expr;
use super::plan::{Filter, LogicalPlan, Projection, Scan};

verus! {

/// `exprs` computed over the rows of `input`.
pub fn projection(exprs: Vec<Expr>, input: Arc<LogicalPlan>) -> (r: Arc<LogicalPlan>)
    ensures
        *r == LogicalPlan::Projection(Projection { exprs, input }),
{
    Arc::new(LogicalPlan::Projection(Projection { exprs, input }))
}

/// The rows of `input` for which `expr` holds.
pub fn filter(expr: Expr, input: Arc<LogicalPlan>) -> (r: Arc<LogicalPlan>)
    ensures
        *r == LogicalPlan::Filter(Filter { expr, input }),
{
    Arc::new(LogicalPlan::Filter(Filter { expr, input }))
}

/// All rows of `table`.
pub fn scan(table: Arc<TableProvider>) -> (r: Arc<LogicalPlan>)
    ensures
        *r == LogicalPlan::Scan(Scan { table }),
{
    Arc::new(LogicalPlan::Scan(Scan { table }))
}

} // verus!
