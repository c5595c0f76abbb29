use std::sync::Arc;
use arrow_schema::Schema;
use toy_df::datasource::csv::CsvReadOptions;
use toy_df::datasource::{CsvTable, MemTable, TableProvider};
use toy_df::error::ToyDfError;
use toy_df::logical_plan::LogicalPlan;
use toy_df::prelude::{col, lit};
use toy_df::{FilePaths, SessionContext};

#[test]
fn registered_table_is_found_by_name() {
    let mut ctx = SessionContext::new();
    let table = Arc::new(TableProvider::Memory(MemTable::new(Arc::new(Schema::empty()), vec![], None)));
    assert!(ctx.register_table("users".to_string(), table).is_ok());
    let df = ctx.table("users".to_string()).ok().unwrap();
    match df.logical_plan().as_ref() {
        LogicalPlan::Scan(s) => assert!(matches!(s.table.as_ref(), TableProvider::Memory(_))),
        other => panic!("expected a scan, got {:?}", other),
    }
}

#[test]
fn unknown_table_is_not_found() {
    let ctx = SessionContext::new();
    let r = ctx.table("nobody".to_string());
    assert!(matches!(r, Err(ToyDfError::TableNotFound)));
}

#[test]
fn registering_again_replaces_the_table() {
    let mut ctx = SessionContext::new();
    let first = Arc::new(TableProvider::Csv(CsvTable { source_paths: vec!["a.csv".to_string()] }));
    let second = Arc::new(TableProvider::Csv(CsvTable { source_paths: vec!["b.csv".to_string()] }));
    ctx.register_table("t".to_string(), first).unwrap();
    ctx.register_table("t".to_string(), second).unwrap();
    let df = ctx.table("t".to_string()).ok().unwrap();
    match df.plan.as_ref() {
        LogicalPlan::Scan(s) => assert_eq!(s.table.to_string(), "CSV: [b.csv]"),
        other => panic!("expected a scan, got {:?}", other),
    }
}

#[test]
fn read_csv_select_filter_builds_the_plan() {
    let ctx = SessionContext::new();
    let df = ctx.read_csv("data.csv", CsvReadOptions::new(true, None)).ok().unwrap();
    let df = df.select(vec![col("name"), col("age")]).filter(col("age").gt(lit(30)));
    let lines = df.logical_plan().describe();
    assert_eq!(lines.len(), 3);
    assert_eq!(
        lines[0],
        "Filter BinaryExpr(BinaryExpr { left: Column(Column { name: \"age\" }), right: Literal(Int32(Some(30))), op: GreaterThan })"
    );
    assert_eq!(lines[1], "  Projection [Column(Column { name: \"name\" }), Column(Column { name: \"age\" })]");
    assert_eq!(lines[2], "    Scan CSV: [data.csv]");
    let shown = df.show().ok().unwrap();
    assert_eq!(shown.len(), 1);
    assert_eq!(shown[0].0.num_rows(), 0);
    assert_eq!(shown[0].0.num_columns(), 0);
}

#[test]
fn file_paths_of_strings() {
    assert_eq!("a.csv".file_paths(), vec!["a.csv".to_string()]);
    assert_eq!("b.csv".to_string().file_paths(), vec!["b.csv".to_string()]);
}

#[test]
fn table_names_display() {
    let csv = TableProvider::Csv(CsvTable { source_paths: vec!["a.csv".to_string(), "b.csv".to_string()] });
    assert_eq!(csv.to_string(), "CSV: [a.csv, b.csv]");
    let mem = MemTable::new(Arc::new(Schema::empty()), vec![], Some("users".to_string()));
    assert_eq!(mem.to_string(), "MemTable (users)");
    let plain = MemTable::new(Arc::new(Schema::empty()), vec![], None);
    assert_eq!(plain.to_string(), "MemTable");
    assert_eq!(plain.schema().fields().len(), 0);
}
