//! The part of a logical query plan that spatial analysis reads and rewrites.

use vstd::prelude::*;

verus! {

/// An expression of a plan node.
#[derive(Debug, PartialEq)]
pub enum Expr {
    /// A reference to a column, with the unqualified name of its table when
    /// the reference names one.
    Column { relation: Option<String>, name: String },
    /// A constant text.
    Literal { value: String },
    /// A call of a scalar function. `schema_name` is the name under which the
    /// engine lists the call's result.
    ScalarFunction { name: String, args: Vec<Expr>, schema_name: String },
    /// A call of an aggregate function. `args` holds the expressions under
    /// the call in order: its arguments and, behind them, whatever else it
    /// holds (a filter, an ordering).
    AggregateFunction { name: String, args: Vec<Expr>, schema_name: String },
    /// An expression under an output name.
    Alias { expr: Box<Expr>, name: String },
    /// Any other expression, by the number under which the caller keeps it,
    /// with its children in order.
    Other { id: u64, children: Vec<Expr> },
}

/// The mathematical value of an [`Expr`].
pub enum ExprView {
    Column { relation: Option<Seq<char>>, name: Seq<char> },
    Literal { value: Seq<char> },
    ScalarFunction { name: Seq<char>, args: Seq<ExprView>, schema_name: Seq<char> },
    AggregateFunction { name: Seq<char>, args: Seq<ExprView>, schema_name: Seq<char> },
    Alias { expr: Box<ExprView>, name: Seq<char> },
    Other { id: u64, children: Seq<ExprView> },
}

/// The text of an optional string.
pub open spec fn opt_text(s: Option<String>) -> Option<Seq<char>> {
    match s {
        Some(s) => Some(s@),
        None => None,
    }
}

impl Expr {
    /// The mathematical value of the expression.
    pub open spec fn model(&self) -> ExprView
        decreases self,
    {
        match self {
            Expr::Column { relation, name } => ExprView::Column {
                relation: opt_text(*relation),
                name: name@,
            },
            Expr::Literal { value } => ExprView::Literal { value: value@ },
            Expr::ScalarFunction { name, args, schema_name } => ExprView::ScalarFunction {
                name: name@,
                args: exprs_model(*args),
                schema_name: schema_name@,
            },
            Expr::AggregateFunction { name, args, schema_name } => ExprView::AggregateFunction {
                name: name@,
                args: exprs_model(*args),
                schema_name: schema_name@,
            },
            Expr::Alias { expr, name } => ExprView::Alias { expr: Box::new(expr.model()), name: name@ },
            Expr::Other { id, children } => ExprView::Other {
                id: *id,
                children: exprs_model(*children),
            },
        }
    }
}

/// The values of a list of expressions, in order.
pub open spec fn exprs_model(exprs: Vec<Expr>) -> Seq<ExprView>
    decreases exprs,
{
    Seq::new(
        exprs.len() as nat,
        |i: int|
            if 0 <= i < exprs.len() {
                exprs[i].model()
            } else {
                ExprView::Literal { value: Seq::empty() }
            },
    )
}

impl View for Expr {
    type V = ExprView;

    open spec fn view(&self) -> ExprView {
        self.model()
    }
}

/// A node of a logical plan.
#[derive(Debug, PartialEq)]
pub enum LogicalPlan {
    /// A scan of a table, by the table's unqualified name, with the value of
    /// the `geo` entry of its projected schema's metadata where it has one.
    TableScan { table_name: String, geo: Option<String> },
    /// Any other node, by the number under which the caller keeps it, with its
    /// expressions and its inputs in order.
    Other { id: u64, exprs: Vec<Expr>, inputs: Vec<LogicalPlan> },
}

/// The mathematical value of a [`LogicalPlan`].
pub enum PlanView {
    TableScan { table_name: Seq<char>, geo: Option<Seq<char>> },
    Other { id: u64, exprs: Seq<ExprView>, inputs: Seq<PlanView> },
}

impl LogicalPlan {
    /// The mathematical value of the plan.
    pub open spec fn model(&self) -> PlanView
        decreases self,
    {
        match self {
            LogicalPlan::TableScan { table_name, geo } => PlanView::TableScan {
                table_name: table_name@,
                geo: opt_text(*geo),
            },
            LogicalPlan::Other { id, exprs, inputs } => PlanView::Other {
                id: *id,
                exprs: exprs_model(*exprs),
                inputs: plans_model(*inputs),
            },
        }
    }
}

/// The values of a list of plans, in order.
pub open spec fn plans_model(plans: Vec<LogicalPlan>) -> Seq<PlanView>
    decreases plans,
{
    Seq::new(
        plans.len() as nat,
        |i: int|
            if 0 <= i < plans.len() {
                plans[i].model()
            } else {
                PlanView::TableScan { table_name: Seq::empty(), geo: None }
            },
    )
}

impl View for LogicalPlan {
    type V = PlanView;

    open spec fn view(&self) -> PlanView {
        self.model()
    }
}

} // verus!
