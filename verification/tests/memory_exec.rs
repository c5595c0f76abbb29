use std::sync::Arc;
use arrow::array::{RecordBatch, RecordBatchOptions};
use arrow_schema::Schema;
use toy_df::datasource::Batch;
use toy_df::physical_plan::memory::MemoryExec;
use toy_df::physical_plan::plan::ExecutionPlan;

fn batch_of_rows(rows: usize) -> Batch {
    let options = RecordBatchOptions::new().with_row_count(Some(rows));
    Batch(RecordBatch::try_new_with_options(Arc::new(Schema::empty()), vec![], &options).unwrap())
}

#[test]
fn memory_exec_hands_out_its_batches_in_order() {
    let exec = MemoryExec { data: vec![batch_of_rows(3), batch_of_rows(5), batch_of_rows(0)] };
    let out = exec.execute().ok().unwrap();
    let rows: Vec<usize> = out.iter().map(|b| b.0.num_rows()).collect();
    assert_eq!(rows, vec![3, 5, 0]);
    let plan = ExecutionPlan::Memory(exec);
    let again = plan.execute().ok().unwrap();
    let rows: Vec<usize> = again.iter().map(|b| b.0.num_rows()).collect();
    assert_eq!(rows, vec![3, 5, 0]);
}
