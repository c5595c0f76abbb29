//! Turning a logical plan into a physical plan.

use std::sync::Arc;
use vstd::prelude::*;
use crate::buffer::immutable::share;
use crate::datasource::TableProvider;
use crate::error::ToyDfError;
use crate::expr::{clone_exprs, models_of};
use crate::logical_plan::plan::{
    chain_len, chain_node, has_known_inputs, input_of, lemma_chain, walkable, Filter, LogicalPlan,
    PlanModel, Projection, Scan,
};
use super::plan::{ExecModel, ExecutionPlan, FilterExec, ProjectionExec};

verus! {

/// Plans whose every node can be turned into a physical node: projections
/// and filters down to a scan of a CSV table.
pub open spec fn supported(p: PlanModel) -> bool
    decreases p,
{
    match p {
        PlanModel::Projection(_, input) => supported(*input),
        PlanModel::Filter(_, input) => supported(*input),
        PlanModel::Scan(t) => t is Csv,
        _ => false,
    }
}

/// Whether `plan` can be turned into a physical plan: projections and
/// filters down to a scan of a CSV table.
pub fn is_supported(plan: &LogicalPlan) -> (r: bool)
    ensures
        r == supported(plan.model()),
    decreases plan,
{
    match plan {
        LogicalPlan::Projection(p) => is_supported(&p.input),
        LogicalPlan::Filter(f) => is_supported(&f.input),
        LogicalPlan::Scan(s) => match &*s.table {
            TableProvider::Csv(_) => true,
            _ => false,
        },
        _ => false,
    }
}

/// The physical plan of a supported logical plan: a projection or filter
/// becomes the same operator over the physical plan of its input, and a
/// CSV scan becomes a CSV reader.
pub open spec fn physical_of(p: PlanModel) -> ExecModel
    decreases p,
{
    match p {
        PlanModel::Projection(exprs, input) => ExecModel::Projection(exprs, Box::new(physical_of(*input))),
        PlanModel::Filter(expr, input) => ExecModel::Filter(expr, Box::new(physical_of(*input))),
        _ => ExecModel::Csv,
    }
}

/// Support passes down the inputs, and supported plans can be walked.
pub proof fn lemma_supported_chain(p: PlanModel, k: nat)
    requires
        supported(p),
        k < chain_len(p),
    ensures
        supported(chain_node(p, k)),
        walkable(p),
    decreases k,
{
    lemma_supported_walkable(p);
    lemma_chain(p, k);
    if k > 0 {
        lemma_supported_chain(input_of(p), (k - 1) as nat);
        lemma_chain(input_of(p), (k - 1) as nat);
        assert(chain_node(p, k) == chain_node(input_of(p), (k - 1) as nat));
    }
}

/// A supported plan can be walked.
pub proof fn lemma_supported_walkable(p: PlanModel)
    requires
        supported(p),
    ensures
        walkable(p),
    decreases p,
{
    match p {
        PlanModel::Projection(_, input) => lemma_supported_walkable(*input),
        PlanModel::Filter(_, input) => lemma_supported_walkable(*input),
        _ => {},
    }
}

/// Number of nodes from `m` down its inputs to the leaf.
pub open spec fn exec_chain_len(m: ExecModel) -> nat
    decreases m,
{
    match m {
        ExecModel::Filter(_, input) => 1 + exec_chain_len(*input),
        ExecModel::Projection(_, input) => 1 + exec_chain_len(*input),
        _ => 1,
    }
}

/// The physical node `k` steps down the inputs of `m`.
pub open spec fn exec_chain_node(m: ExecModel, k: nat) -> ExecModel
    decreases k,
{
    if k == 0 {
        m
    } else {
        match m {
            ExecModel::Filter(_, input) => exec_chain_node(*input, (k - 1) as nat),
            ExecModel::Projection(_, input) => exec_chain_node(*input, (k - 1) as nat),
            _ => m,
        }
    }
}

/// `e` does what the logical node `l` asks for: a filter by the same
/// predicate, a projection of the same expressions, or a CSV reader for a
/// scan of a CSV table.
pub open spec fn counterpart(l: PlanModel, e: ExecModel) -> bool {
    match l {
        PlanModel::Filter(x, _) => e matches ExecModel::Filter(y, _) && x == y,
        PlanModel::Projection(xs, _) => e matches ExecModel::Projection(ys, _) && xs == ys,
        PlanModel::Scan(t) => t is Csv && e is Csv,
        _ => false,
    }
}

/// Planning keeps every logical node, in order: the physical plan of a
/// supported plan has as many nodes as the logical plan, and node `k` of
/// it is the counterpart of logical node `k`. No filter or projection is
/// dropped, merged or reordered.
pub proof fn lemma_plan_keeps_every_node(p: PlanModel)
    requires
        supported(p),
    ensures
        exec_chain_len(physical_of(p)) == chain_len(p),
        forall|k: nat| k < chain_len(p) ==>
            counterpart(#[trigger] chain_node(p, k), exec_chain_node(physical_of(p), k)),
    decreases p,
{
    match p {
        PlanModel::Projection(_, input) => {
            lemma_plan_keeps_every_node(*input);
            assert forall|k: nat| k < chain_len(p) implies
                counterpart(#[trigger] chain_node(p, k), exec_chain_node(physical_of(p), k)) by {
                if k > 0 {
                    assert(chain_node(p, k) == chain_node(*input, (k - 1) as nat));
                    assert(exec_chain_node(physical_of(p), k) == exec_chain_node(physical_of(*input), (k - 1) as nat));
                }
            }
        },
        PlanModel::Filter(_, input) => {
            lemma_plan_keeps_every_node(*input);
            assert forall|k: nat| k < chain_len(p) implies
                counterpart(#[trigger] chain_node(p, k), exec_chain_node(physical_of(p), k)) by {
                if k > 0 {
                    assert(chain_node(p, k) == chain_node(*input, (k - 1) as nat));
                    assert(exec_chain_node(physical_of(p), k) == exec_chain_node(physical_of(*input), (k - 1) as nat));
                }
            }
        },
        _ => {
            assert forall|k: nat| k < chain_len(p) implies
                counterpart(#[trigger] chain_node(p, k), exec_chain_node(physical_of(p), k)) by {
                assert(k == 0);
            }
        },
    }
}

/// Builds physical plans.
pub struct PhysicalPlanner {}

/// A failure to plan.
#[derive(Debug)]
pub struct PlannerError {}

/// A logical node waiting to be converted, with the physical plans of its
/// inputs gathered so far and the position of its parent.
struct PhysicalNode {
    children_expected: usize,
    children_converted: Vec<Arc<ExecutionPlan>>,
    parent: Option<usize>,
    logical_plan: Arc<LogicalPlan>,
}

/// Node `k` of the walk down `m`, with nothing converted yet.
spec fn fresh_node(node: PhysicalNode, m: PlanModel, k: int) -> bool {
    &&& node.logical_plan.model() == chain_node(m, k as nat)
    &&& node.parent == if k == 0 { None } else { Some((k - 1) as usize) }
    &&& node.children_expected == node.logical_plan.spec_inputs().len()
}

fn physical_node_ref(logical_plan: Arc<LogicalPlan>, parent: Option<usize>) -> (r: PhysicalNode)
    requires
        has_known_inputs(logical_plan.model()),
    ensures
        r.children_expected == logical_plan.spec_inputs().len(),
        r.children_converted@.len() == 0,
        r.parent == parent,
        r.logical_plan == logical_plan,
{
    PhysicalNode {
        children_expected: logical_plan.inputs().len(),
        children_converted: Vec::new(),
        parent,
        logical_plan,
    }
}

/// The physical node for `node`, whose inputs have all been converted.
fn convert_to_plan(node: &PhysicalNode) -> (r: Arc<ExecutionPlan>)
    requires
        supported(node.logical_plan.model()),
        node.children_converted@.len() == node.children_expected,
        node.children_expected == node.logical_plan.spec_inputs().len(),
        forall|i: int| 0 <= i < node.children_converted@.len() ==>
            #[trigger] node.children_converted@[i].model() == physical_of(node.logical_plan.spec_inputs()[i].model()),
    ensures
        r.model() == physical_of(node.logical_plan.model()),
{
    let plan: &LogicalPlan = &node.logical_plan;
    match plan {
        LogicalPlan::Scan(scan) => convert_scan(scan),
        LogicalPlan::Filter(filter) => {
            let input = share(&node.children_converted[0]);
            convert_filter(filter, input)
        },
        LogicalPlan::Projection(projection) => {
            let input = share(&node.children_converted[0]);
            convert_projection(projection, input)
        },
        _ => vstd::pervasive::unreached(),
    }
}

/// The reader of a CSV table.
pub fn convert_scan(scan: &Scan) -> (r: Arc<ExecutionPlan>)
    requires
        *scan.table is Csv,
    ensures
        r.model() == ExecModel::Csv,
{
    scan.table.scan().unwrap()
}

/// A filter with the same expression over `input`.
pub fn convert_filter(filter: &Filter, input: Arc<ExecutionPlan>) -> (r: Arc<ExecutionPlan>)
    ensures
        r.model() == ExecModel::Filter(filter.expr.model(), Box::new(input.model())),
{
    Arc::new(ExecutionPlan::Filter(FilterExec::new(filter.expr.clone(), input)))
}

/// A projection with the same expressions over `input`.
pub fn convert_projection(projection: &Projection, input: Arc<ExecutionPlan>) -> (r: Arc<ExecutionPlan>)
    ensures
        r.model() == ExecModel::Projection(models_of(projection.exprs@), Box::new(input.model())),
{
    Arc::new(ExecutionPlan::Projection(ProjectionExec::new(clone_exprs(&projection.exprs), input)))
}

impl PhysicalPlanner {
    pub fn new() -> (r: Self)
        ensures
            r == (PhysicalPlanner {}),
    {
        Self {}
    }

    /// The physical plan of `logical_plan`.
    ///
    /// The tree is flattened breadth first, every node recording its
    /// parent; the nodes are then converted from the last to the first, so
    /// that each is converted after its inputs and handed to its parent.
    pub fn create_physical_plan(&self, logical_plan: Arc<LogicalPlan>) -> (r: Result<Arc<ExecutionPlan>, ToyDfError>)
        requires
            supported(logical_plan.model()),
        ensures
            r matches Ok(p) && p.model() == physical_of(logical_plan.model()),
            r matches Ok(p) && exec_chain_len(p.model()) == chain_len(logical_plan.model()),
            r matches Ok(p) && forall|k: nat| k < chain_len(logical_plan.model()) ==>
                counterpart(#[trigger] chain_node(logical_plan.model(), k), exec_chain_node(p.model(), k)),
    {
        let ghost m = logical_plan.model();
        proof {
            lemma_plan_keeps_every_node(m);
            lemma_supported_chain(m, 0);
            assert(chain_node(m, 0) == m);
        }
        let root = physical_node_ref(logical_plan, None);
        let mut stack: Vec<PhysicalNode> = Vec::new();
        stack.push(root);
        let mut peek: usize = 0;
        while peek < stack.len()
            invariant
                supported(m),
                1 <= stack@.len() <= chain_len(m),
                peek <= stack@.len(),
                stack@.len() == if peek + 1 <= chain_len(m) { peek + 1 } else { chain_len(m) as int },
                forall|k: int| 0 <= k < stack@.len() ==> fresh_node(#[trigger] stack@[k], m, k),
                forall|k: int| 0 <= k < stack@.len() ==> (#[trigger] stack@[k]).children_converted@.len() == 0,
            decreases chain_len(m) - peek,
        {
            proof {
                lemma_chain(m, peek as nat);
                lemma_supported_chain(m, peek as nat);
            }
            let plan = share(&stack[peek].logical_plan);
            let children = plan.inputs();
            let ghost before = stack@;
            let mut c: usize = 0;
            while c < children.len()
                invariant
                    supported(m),
                    peek < before.len() <= chain_len(m),
                    before.len() == peek + 1,
                    *plan == *before[peek as int].logical_plan,
                    plan.model() == chain_node(m, peek as nat),
                    children@.len() == plan.spec_inputs().len(),
                    forall|i: int| 0 <= i < children@.len() ==> *#[trigger] children@[i] == plan.spec_inputs()[i],
                    children@.len() <= 1,
                    children@.len() == 1 ==> peek + 1 < chain_len(m),
                    children@.len() == 1 ==> chain_node(m, (peek + 1) as nat) == input_of(chain_node(m, peek as nat)),
                    c <= children@.len(),
                    stack@.len() == before.len() + c,
                    forall|k: int| 0 <= k < before.len() ==> #[trigger] stack@[k] == before[k],
                    forall|k: int| 0 <= k < stack@.len() ==> fresh_node(#[trigger] stack@[k], m, k),
                    forall|k: int| 0 <= k < stack@.len() ==> (#[trigger] stack@[k]).children_converted@.len() == 0,
                decreases children@.len() - c,
            {
                proof {
                    lemma_chain(m, (peek + 1) as nat);
                    lemma_supported_chain(m, (peek + 1) as nat);
                    assert(input_of(plan.model()) == plan.spec_inputs()[0].model());
                }
                let node = physical_node_ref(share(&children[c]), Some(peek));
                stack.push(node);
                c = c + 1;
            }
            proof {
                if peek + 1 < chain_len(m) {
                    assert(plan.model() is Projection || plan.model() is Filter);
                    assert(children@.len() == 1);
                } else {
                    assert(!(plan.model() is Projection || plan.model() is Filter));
                    assert(children@.len() == 0);
                }
            }
            peek = peek + 1;
        }
        let n = stack.len();
        let mut root_plan: Option<Arc<ExecutionPlan>> = None;
        let mut i: usize = n;
        while i > 0
            invariant
                supported(m),
                n == stack@.len(),
                n == chain_len(m),
                i <= n,
                forall|k: int| 0 <= k < n ==> fresh_node(#[trigger] stack@[k], m, k),
                forall|k: int| 0 <= k < i && !(k + 1 == i && i < n) ==>
                    (#[trigger] stack@[k]).children_converted@.len() == 0,
                i < n && i > 0 ==> stack@[i - 1].children_converted@.len() == 1,
                i < n && i > 0 ==> stack@[i - 1].children_converted@[0].model() == physical_of(chain_node(m, i as nat)),
                i > 0 ==> root_plan is None,
                i == 0 ==> (root_plan matches Some(p) && p.model() == physical_of(m)),
            decreases i,
        {
            let idx = i - 1;
            proof {
                lemma_chain(m, idx as nat);
                lemma_supported_chain(m, idx as nat);
                let node = stack@[idx as int];
                let lp = *node.logical_plan;
                if idx + 1 < n {
                    assert(lp.spec_inputs().len() == 1);
                    assert(lp.spec_inputs()[0].model() == input_of(lp.model()));
                } else {
                    assert(lp.spec_inputs().len() == 0);
                }
            }
            let physical_plan = convert_to_plan(&stack[idx]);
            match stack[idx].parent {
                Some(p) => {
                    let ghost prev = stack@;
                    stack[p].children_converted.push(physical_plan);
                    proof {
                        assert forall|k: int| 0 <= k < n && k != p implies #[trigger] stack@[k] == prev[k] by {}
                    }
                },
                None => {
                    root_plan = Some(physical_plan);
                    proof {
                        assert(chain_node(m, 0) == m);
                    }
                },
            }
            i = idx;
        }
        match root_plan {
            Some(plan) => Ok(plan),
            None => Err(ToyDfError::PlanError),
        }
    }
}

} // verus!
