//! Logical plans: trees of relational operators over tables.

pub mod helpers;
pub mod plan;

pub use plan::{Aggregate, Filter, Join, Limit, LogicalPlan, PlanModel, Projection, Scan, Sort};
