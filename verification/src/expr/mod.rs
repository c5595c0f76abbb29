//! Logical expressions used in select lists and predicates.

use vstd::prelude::*;
use crate::common::scalar::{ScalarModel, ScalarValue};

pub mod expr_fn;
pub mod text;

verus! {

/// Expression tree, used in SELECT clauses, WHERE predicates and the like.
#[derive(Debug)]
pub enum Expr {
    Literal(ScalarValue),
    Column(Column),
    BinaryExpr(Box<BinaryExpr>),
    ScalarFunction(ScalarFunction),
    AggregateFunction(AggregateFunction),
}

/// A reference to a column by name.
#[derive(Debug)]
pub struct Column {
    pub name: String,
}

/// Two operands joined by an operator.
#[derive(Debug)]
pub struct BinaryExpr {
    pub left: Expr,
    pub right: Expr,
    pub op: BinaryOperator,
}

/// Comparison and boolean operators.
#[derive(Debug, Clone, Copy, PartialEq, Eq, Structural)]
pub enum BinaryOperator {
    Equals,
    NotEquals,
    LessThan,
    LessThanOrEqual,
    GreaterThan,
    GreaterThanOrEqual,
    And,
    Or,
}

/// A named function applied to each row.
#[derive(Debug)]
pub struct ScalarFunction {
    pub name: String,
    pub args: Vec<Expr>,
}

/// A named function aggregating over rows.
#[derive(Debug)]
pub struct AggregateFunction {
    pub name: String,
    pub args: Vec<Expr>,
}

/// The mathematical content of an expression tree, with names as character
/// sequences and argument lists as sequences.
pub enum ExprModel {
    Literal(ScalarModel),
    Column(Seq<char>),
    Binary(Box<ExprModel>, Box<ExprModel>, BinaryOperator),
    ScalarFunction(Seq<char>, Seq<ExprModel>),
    AggregateFunction(Seq<char>, Seq<ExprModel>),
}

impl Expr {
    /// The expression tree this value denotes.
    pub open spec fn model(&self) -> ExprModel
        decreases self, 1int,
    {
        match self {
            Expr::Literal(v) => ExprModel::Literal(v.model()),
            Expr::Column(c) => ExprModel::Column(c.name@),
            Expr::BinaryExpr(b) => ExprModel::Binary(Box::new(b.left.model()), Box::new(b.right.model()), b.op),
            Expr::ScalarFunction(f) => ExprModel::ScalarFunction(f.name@, models_of(f.args@)),
            Expr::AggregateFunction(f) => ExprModel::AggregateFunction(f.name@, models_of(f.args@)),
        }
    }

    /// `self > rhs`.
    pub fn gt(self, rhs: Expr) -> (r: Expr)
        ensures
            r.model() == ExprModel::Binary(Box::new(self.model()), Box::new(rhs.model()), BinaryOperator::GreaterThan),
    {
        Expr::BinaryExpr(Box::new(BinaryExpr { left: self, right: rhs, op: BinaryOperator::GreaterThan }))
    }
}

/// The trees of a list of expressions.
pub open spec fn models_of(exprs: Seq<Expr>) -> Seq<ExprModel>
    decreases exprs, 0int,
{
    if exprs.len() == 0 {
        Seq::empty()
    } else {
        seq![exprs[0].model()] + models_of(exprs.drop_first())
    }
}

/// The trees of a list of expressions, entry by entry.
pub proof fn lemma_models_of(exprs: Seq<Expr>)
    ensures
        models_of(exprs).len() == exprs.len(),
        forall|i: int| 0 <= i < exprs.len() ==> #[trigger] models_of(exprs)[i] == exprs[i].model(),
    decreases exprs.len(),
{
    if exprs.len() > 0 {
        lemma_models_of(exprs.drop_first());
        assert forall|i: int| 0 <= i < exprs.len() implies #[trigger] models_of(exprs)[i] == exprs[i].model() by {
            if i > 0 {
                assert(exprs.drop_first()[i - 1] == exprs[i]);
            }
        }
    }
}

/// Two lists whose entries have the same trees have the same list of trees.
pub proof fn lemma_models_of_eq(a: Seq<Expr>, b: Seq<Expr>)
    requires
        a.len() == b.len(),
        forall|i: int| 0 <= i < a.len() ==> #[trigger] a[i].model() == b[i].model(),
    ensures
        models_of(a) == models_of(b),
{
    lemma_models_of(a);
    lemma_models_of(b);
    assert(models_of(a) =~= models_of(b));
}

/// Copies a list of expressions.
pub fn clone_exprs(exprs: &Vec<Expr>) -> (r: Vec<Expr>)
    ensures
        models_of(r@) == models_of(exprs@),
    decreases exprs@, 0int,
{
    let mut out: Vec<Expr> = Vec::new();
    let mut i: usize = 0;
    while i < exprs.len()
        invariant
            i <= exprs@.len(),
            out@.len() == i,
            forall|k: int| 0 <= k < i ==> #[trigger] out@[k].model() == exprs@[k].model(),
        decreases exprs@.len() - i,
    {
        proof {
            assert(decreases_to!(exprs@ => exprs@[i as int]));
        }
        out.push(exprs[i].clone());
        i = i + 1;
    }
    proof {
        lemma_models_of_eq(out@, exprs@);
    }
    out
}

impl Clone for Expr {
    /// A deep copy denoting the same tree.
    fn clone(&self) -> (r: Self)
        ensures
            r.model() == self.model(),
        decreases self, 1int,
    {
        match self {
            Expr::Literal(v) => Expr::Literal(v.clone()),
            Expr::Column(c) => Expr::Column(Column { name: c.name.clone() }),
            Expr::BinaryExpr(b) => Expr::BinaryExpr(
                Box::new(BinaryExpr { left: b.left.clone(), right: b.right.clone(), op: b.op }),
            ),
            Expr::ScalarFunction(f) => Expr::ScalarFunction(
                ScalarFunction { name: f.name.clone(), args: clone_exprs(&f.args) },
            ),
            Expr::AggregateFunction(f) => Expr::AggregateFunction(
                AggregateFunction { name: f.name.clone(), args: clone_exprs(&f.args) },
            ),
        }
    }
}

impl Column {
    pub fn from_name(name: String) -> (r: Self)
        ensures
            r.name == name,
    {
        Column { name }
    }
}

} // verus!
