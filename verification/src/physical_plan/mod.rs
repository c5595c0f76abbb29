//! Physical plans and the planner that builds them from logical plans.

pub mod csv;
pub mod memory;
pub mod plan;
pub mod planner;
