use std::sync::Arc;
use toy_df::datasource::{CsvTable, MemTable, TableProvider};
use toy_df::logical_plan::{Aggregate, LogicalPlan};
use toy_df::physical_plan::planner::is_supported;
use toy_df::logical_plan::helpers::{filter, projection, scan};
use toy_df::physical_plan::plan::ExecutionPlan;
use toy_df::physical_plan::planner::PhysicalPlanner;
use toy_df::prelude::{col, lit};

#[test]
fn planner_test_create_physical_plan() {
    let scan = scan(Arc::new(TableProvider::Csv(CsvTable {
        source_paths: vec![],
    })));
    let filter = filter(col("a").gt(lit(1)), scan);
    let projection = projection(vec![col("a"), col("b")], filter);

    let physical_planner = PhysicalPlanner::new();
    let physical_plan = physical_planner.create_physical_plan(projection);
    assert!(physical_plan.is_ok());
}

#[test]
fn physical_plan_mirrors_logical_plan() {
    let table = scan(Arc::new(TableProvider::Csv(CsvTable { source_paths: vec!["x.csv".to_string()] })));
    let filtered = filter(col("age").gt(lit(30)), table);
    let projected = projection(vec![col("name")], filtered);
    let plan = PhysicalPlanner::new().create_physical_plan(projected).ok().unwrap();
    match plan.as_ref() {
        ExecutionPlan::Projection(p) => {
            assert_eq!(p.exprs.len(), 1);
            assert_eq!(format!("{:?}", p.exprs[0]), "Column(Column { name: \"name\" })");
            match p.input.as_ref() {
                ExecutionPlan::Filter(f) => {
                    assert_eq!(
                        format!("{:?}", f.expr),
                        "BinaryExpr(BinaryExpr { left: Column(Column { name: \"age\" }), right: Literal(Int32(Some(30))), op: GreaterThan })"
                    );
                    assert!(matches!(f.input.as_ref(), ExecutionPlan::Csv(_)));
                }
                other => panic!("expected a filter, got {:?}", other),
            }
        }
        other => panic!("expected a projection, got {:?}", other),
    }
}

#[test]
fn planning_a_bare_scan_gives_a_csv_reader() {
    let table = scan(Arc::new(TableProvider::Csv(CsvTable { source_paths: vec![] })));
    let plan = PhysicalPlanner::new().create_physical_plan(table).ok().unwrap();
    assert!(matches!(plan.as_ref(), ExecutionPlan::Csv(_)));
    assert_eq!(plan.execute().ok().unwrap().len(), 0);
}

#[test]
fn walkable_and_supported_checks() {

    let csv = scan(Arc::new(TableProvider::Csv(CsvTable { source_paths: vec!["x.csv".to_string()] })));
    let plan = projection(vec![col("a")], filter(col("a").gt(lit(1)), csv));
    assert!(plan.is_walkable());
    assert!(is_supported(&plan));

    let mem = MemTable::new(Arc::new(arrow_schema::Schema::empty()), vec![], None);
    let over_memory = filter(col("a").gt(lit(1)), scan(Arc::new(TableProvider::Memory(mem))));
    assert!(over_memory.is_walkable());
    assert!(!is_supported(&over_memory));

    let aggregate = Arc::new(LogicalPlan::Aggregate(Aggregate {}));
    let over_aggregate = projection(vec![col("a")], aggregate);
    assert!(!over_aggregate.is_walkable());
    assert!(!is_supported(&over_aggregate));
}
