//! Logical plan nodes.

use std::sync::Arc;
use vstd::prelude::*;
use vstd::string::*;
use crate::buffer::immutable::share;
use crate::datasource::TableProvider;
use crate::expr::{Expr, ExprModel, models_of};
use crate::expr::text::{expr_text, exprs_debug_text, exprs_items, exprs_text};

verus! {

/// A node of a logical plan.
#[derive(Debug)]
pub enum LogicalPlan {
    Projection(Projection),
    Filter(Filter),
    Aggregate(Aggregate),
    Sort(Sort),
    Join(Join),
    Scan(Scan),
    Limit(Limit),
}

/// Expressions computed over the rows of the input.
#[derive(Debug)]
pub struct Projection {
    pub exprs: Vec<Expr>,
    pub input: Arc<LogicalPlan>,
}

/// The rows of the input for which `expr` holds.
#[derive(Debug)]
pub struct Filter {
    pub expr: Expr,
    pub input: Arc<LogicalPlan>,
}

#[derive(Debug)]
pub struct Aggregate {}

#[derive(Debug)]
pub struct Sort {}

#[derive(Debug)]
pub struct Join {}

/// All rows of a table.
#[derive(Debug)]
pub struct Scan {
    pub table: Arc<TableProvider>,
}

#[derive(Debug)]
pub struct Limit {}

/// The shape of a logical plan: its nodes, their expressions and inputs.
pub enum PlanModel {
    Projection(Seq<ExprModel>, Box<PlanModel>),
    Filter(ExprModel, Box<PlanModel>),
    Aggregate,
    Sort,
    Join,
    Scan(TableProvider),
    Limit,
}

/// The nodes whose inputs are known: projections, filters and scans.
pub open spec fn has_known_inputs(p: PlanModel) -> bool {
    p is Projection || p is Filter || p is Scan
}

/// Every node, from the root down the inputs, is a projection, a filter or
/// a scan: the nodes that can be walked.
pub open spec fn walkable(p: PlanModel) -> bool
    decreases p,
{
    match p {
        PlanModel::Projection(_, input) => walkable(*input),
        PlanModel::Filter(_, input) => walkable(*input),
        PlanModel::Scan(_) => true,
        _ => false,
    }
}

/// Number of nodes from `p` down its inputs to the leaf.
pub open spec fn chain_len(p: PlanModel) -> nat
    decreases p,
{
    match p {
        PlanModel::Projection(_, input) => 1 + chain_len(*input),
        PlanModel::Filter(_, input) => 1 + chain_len(*input),
        _ => 1,
    }
}

/// The node `k` steps down the inputs of `p`.
pub open spec fn chain_node(p: PlanModel, k: nat) -> PlanModel
    decreases k,
{
    if k == 0 {
        p
    } else {
        match p {
            PlanModel::Projection(_, input) => chain_node(*input, (k - 1) as nat),
            PlanModel::Filter(_, input) => chain_node(*input, (k - 1) as nat),
            _ => p,
        }
    }
}

/// The input of a projection or filter.
pub open spec fn input_of(p: PlanModel) -> PlanModel {
    match p {
        PlanModel::Projection(_, input) => *input,
        PlanModel::Filter(_, input) => *input,
        _ => p,
    }
}

/// Along a chain, every node but the last has one input, the next node; the
/// last is a leaf; and walkability passes down.
pub proof fn lemma_chain(p: PlanModel, k: nat)
    requires
        k < chain_len(p),
    ensures
        chain_len(p) >= 1,
        k + 1 < chain_len(p) ==> (chain_node(p, k) is Projection || chain_node(p, k) is Filter),
        k + 1 < chain_len(p) ==> chain_node(p, k + 1) == input_of(chain_node(p, k)),
        k + 1 == chain_len(p) ==> !(chain_node(p, k) is Projection || chain_node(p, k) is Filter),
        walkable(p) ==> walkable(chain_node(p, k)),
    decreases k,
{
    if k == 0 {
        if p is Projection || p is Filter {
            assert(chain_node(p, 1) == chain_node(input_of(p), 0));
        }
    } else {
        assert(p is Projection || p is Filter);
        lemma_chain(input_of(p), (k - 1) as nat);
        assert(chain_node(p, k) == chain_node(input_of(p), (k - 1) as nat));
        assert(chain_node(p, k + 1) == chain_node(input_of(p), k));
    }
}

impl LogicalPlan {
    /// The shape of this plan.
    pub open spec fn model(&self) -> PlanModel
        decreases self,
    {
        match self {
            LogicalPlan::Projection(p) => PlanModel::Projection(models_of(p.exprs@), Box::new(p.input.model())),
            LogicalPlan::Filter(f) => PlanModel::Filter(f.expr.model(), Box::new(f.input.model())),
            LogicalPlan::Aggregate(_) => PlanModel::Aggregate,
            LogicalPlan::Sort(_) => PlanModel::Sort,
            LogicalPlan::Join(_) => PlanModel::Join,
            LogicalPlan::Scan(s) => PlanModel::Scan(*s.table),
            LogicalPlan::Limit(_) => PlanModel::Limit,
        }
    }

    /// The direct inputs of this node.
    pub open spec fn spec_inputs(&self) -> Seq<LogicalPlan> {
        match self {
            LogicalPlan::Projection(p) => seq![*p.input],
            LogicalPlan::Filter(f) => seq![*f.input],
            _ => Seq::empty(),
        }
    }

    /// Whether every node from this one down its inputs is a projection, a
    /// filter or a scan, so that the plan can be described.
    pub fn is_walkable(&self) -> (r: bool)
        ensures
            r == walkable(self.model()),
        decreases self,
    {
        match self {
            LogicalPlan::Projection(p) => p.input.is_walkable(),
            LogicalPlan::Filter(f) => f.input.is_walkable(),
            LogicalPlan::Scan(_) => true,
            _ => false,
        }
    }

    /// The inputs of this node, shared.
    pub fn inputs(&self) -> (r: Vec<Arc<LogicalPlan>>)
        requires
            has_known_inputs(self.model()),
        ensures
            r@.len() == self.spec_inputs().len(),
            forall|i: int| 0 <= i < r@.len() ==> *#[trigger] r@[i] == self.spec_inputs()[i],
    {
        let mut r: Vec<Arc<LogicalPlan>> = Vec::new();
        match self {
            LogicalPlan::Projection(projection) => r.push(share(&projection.input)),
            LogicalPlan::Filter(filter) => r.push(share(&filter.input)),
            LogicalPlan::Scan(_) => {},
            _ => {
                proof {
                    assert(false);
                }
            },
        }
        r
    }

    /// The lines that describe the plan, one per node from the root down,
    /// each indented by two spaces per level.
    pub fn describe(&self) -> (r: Vec<String>)
        requires
            walkable(self.model()),
        ensures
            r@.len() == chain_len(self.model()),
            forall|k: int| 0 <= k < r@.len() ==>
                #[trigger] describes(r@[k]@, k, chain_node(self.model(), k as nat)),
            forall|k: int| 0 <= k < r@.len() ==>
                (chain_node(self.model(), k as nat) matches PlanModel::Projection(es, _) ==>
                    #[trigger] r@[k]@ == padding(k) + "Projection "@ + "["@ + exprs_items(es) + "]"@),
            forall|k: int| 0 <= k < r@.len() ==>
                (chain_node(self.model(), k as nat) matches PlanModel::Filter(e, _) ==>
                    #[trigger] r@[k]@ == padding(k) + "Filter "@ + expr_text(e)),
            forall|k: int| 0 <= k < r@.len() ==>
                (chain_node(self.model(), k as nat) matches PlanModel::Scan(t) ==>
                    #[trigger] r@[k]@ == padding(k) + "Scan "@ + t.display()),
    {
        let mut lines: Vec<String> = Vec::new();
        describe_at(self, &mut lines);
        assert forall|k: int| 0 <= k < lines@.len() implies
            #[trigger] describes(lines@[k]@, k, chain_node(self.model(), k as nat)) by {
            assert(lines@[0 + k] == lines@[k]);
        }
        assert forall|k: int| 0 <= k < lines@.len() implies
            (chain_node(self.model(), k as nat) matches PlanModel::Projection(es, _) ==>
                #[trigger] lines@[k]@ == padding(k) + "Projection "@ + "["@ + exprs_items(es) + "]"@) by {
            assert(lines@[0 + k] == lines@[k]);
            assert(describes(lines@[k]@, k, chain_node(self.model(), k as nat)));
            if let PlanModel::Projection(es, input) = chain_node(self.model(), k as nat) {
                lemma_projection_line_bracketed(lines@[k]@, k, es, input);
            }
        }
        assert forall|k: int| 0 <= k < lines@.len() implies
            (chain_node(self.model(), k as nat) matches PlanModel::Filter(e, _) ==>
                #[trigger] lines@[k]@ == padding(k) + "Filter "@ + expr_text(e)) by {
            assert(lines@[0 + k] == lines@[k]);
            assert(describes(lines@[k]@, k, chain_node(self.model(), k as nat)));
        }
        assert forall|k: int| 0 <= k < lines@.len() implies
            (chain_node(self.model(), k as nat) matches PlanModel::Scan(t) ==>
                #[trigger] lines@[k]@ == padding(k) + "Scan "@ + t.display()) by {
            assert(lines@[0 + k] == lines@[k]);
            assert(describes(lines@[k]@, k, chain_node(self.model(), k as nat)));
        }
        lines
    }
}

/// `level` levels of two-space indentation.
pub open spec fn padding(level: int) -> Seq<char>
    decreases level,
{
    if level <= 0 {
        Seq::empty()
    } else {
        padding(level - 1) + "  "@
    }
}

/// `line` describes `node` at depth `level`: the indentation, then the kind
/// of node and the `Debug` text of its expressions, or the table it scans.
pub open spec fn describes(line: Seq<char>, level: int, node: PlanModel) -> bool {
    match node {
        PlanModel::Projection(exprs, _) => line == padding(level) + "Projection "@ + exprs_text(exprs),
        PlanModel::Filter(expr, _) => line == padding(level) + "Filter "@ + expr_text(expr),
        PlanModel::Scan(t) => line == padding(level) + "Scan "@ + t.display(),
        _ => false,
    }
}

/// A projection's line prints its expressions as a bracketed list, however
/// many there are: after the indentation and `Projection ` comes `[`, the
/// expressions' texts separated by `, `, and `]`; a single expression is
/// still in brackets.
pub proof fn lemma_projection_line_bracketed(line: Seq<char>, level: int, es: Seq<ExprModel>, input: Box<PlanModel>)
    requires
        describes(line, level, PlanModel::Projection(es, input)),
    ensures
        line == padding(level) + "Projection "@ + "["@ + exprs_items(es) + "]"@,
        line[padding(level).len() + 11int] == '[',
        line.last() == ']',
        es.len() == 1 ==> line == padding(level) + "Projection "@ + "["@ + expr_text(es[0]) + "]"@,
{
    reveal_strlit("Projection ");
    reveal_strlit("[");
    reveal_strlit("]");
    assert(line == padding(level) + "Projection "@ + "["@ + exprs_items(es) + "]"@);
    assert(line[padding(level).len() + 11int] == '[');
}

/// `padding(level) + message`.
fn pp(message: &str, level: usize) -> (r: String)
    ensures
        r@ == padding(level as int) + message@,
{
    let mut line = String::new();
    let mut i: usize = 0;
    while i < level
        invariant
            i <= level,
            line@ == padding(i as int),
        decreases level - i,
    {
        line.append("  ");
        i = i + 1;
    }
    line.append(message);
    line
}

/// Appends the description of `plan`, its first line at depth `lines.len()`.
fn describe_at(plan: &LogicalPlan, lines: &mut Vec<String>)
    requires
        walkable(plan.model()),
    ensures
        final(lines)@.len() == old(lines)@.len() + chain_len(plan.model()),
        forall|k: int| 0 <= k < old(lines)@.len() ==> #[trigger] final(lines)@[k] == old(lines)@[k],
        forall|k: int| 0 <= k < chain_len(plan.model()) ==>
            describes(#[trigger] final(lines)@[old(lines)@.len() + k]@, old(lines)@.len() + k, chain_node(plan.model(), k as nat)),
    decreases plan,
{
    let level = lines.len();
    match plan {
        LogicalPlan::Projection(projection) => {
            let mut message = String::from_str("Projection ");
            let text = exprs_debug_text(&projection.exprs);
            message.append(text.as_str());
            let line = pp(message.as_str(), level);
            proof {
                assert(line@ =~= padding(level as int) + "Projection "@ + exprs_text(models_of(projection.exprs@)));
            }
            lines.push(line);
            let ghost mid = lines@;
            describe_at(&projection.input, lines);
            proof {
                assert forall|k: int| 0 <= k < chain_len(plan.model()) implies
                    describes(#[trigger] lines@[level + k]@, level + k, chain_node(plan.model(), k as nat)) by {
                    if k > 0 {
                        assert(lines@[level + 1 + (k - 1)] == lines@[level + k]);
                        assert(chain_node(plan.model(), k as nat) == chain_node(projection.input.model(), (k - 1) as nat));
                    } else {
                        assert(lines@[level as int] == mid[level as int]);
                        assert(chain_node(plan.model(), 0) == plan.model());
                    }
                }
            }
        },
        LogicalPlan::Filter(filter) => {
            let mut message = String::from_str("Filter ");
            let text = filter.expr.debug_text();
            message.append(text.as_str());
            let line = pp(message.as_str(), level);
            proof {
                assert(line@ =~= padding(level as int) + "Filter "@ + expr_text(filter.expr.model()));
            }
            lines.push(line);
            let ghost mid = lines@;
            describe_at(&filter.input, lines);
            proof {
                assert forall|k: int| 0 <= k < chain_len(plan.model()) implies
                    describes(#[trigger] lines@[level + k]@, level + k, chain_node(plan.model(), k as nat)) by {
                    if k > 0 {
                        assert(lines@[level + 1 + (k - 1)] == lines@[level + k]);
                        assert(chain_node(plan.model(), k as nat) == chain_node(filter.input.model(), (k - 1) as nat));
                    } else {
                        assert(lines@[level as int] == mid[level as int]);
                        assert(chain_node(plan.model(), 0) == plan.model());
                    }
                }
            }
        },
        LogicalPlan::Scan(scan) => {
            let mut message = String::from_str("Scan ");
            let table = scan.table.to_string();
            message.append(table.as_str());
            let line = pp(message.as_str(), level);
            proof {
                assert(line@ =~= padding(level as int) + "Scan "@ + scan.table.display());
            }
            lines.push(line);
            proof {
                assert(chain_node(plan.model(), 0) == plan.model());
                assert(lines@[level + 0] == lines@[level as int]);
            }
        },
        _ => {
            proof {
                assert(false);
            }
        },
    }
}

} // verus!
