//! The syntax tree of the language and the runtime value representation,
//! together with their mathematical models.
//!
//! Each executable type (`Value`, `Expr`, `Stmt`) has a model type
//! (`ValueSpec`, `ExprSpec`, `StmtSpec`) over `Seq` and `int`-free scalar
//! payloads, reached through `DeepView`. The evaluator's contracts are all
//! stated over the models.

use vstd::prelude::*;

verus! {

/// The binary operators of the language.
#[derive(Debug, Clone, Copy, PartialEq, Eq, Structural)]
pub enum BinOp {
    Add,
    Sub,
    Mul,
    Div,
    Eq,
    NotEq,
    Lt,
    LtEq,
    Gt,
    GtEq,
}

/// A runtime value: an integer, a boolean, or a curried function value.
///
/// A closure `Closure(self_name, params, bound_args, body)` carries the name
/// under which it can call itself, its parameter names, the arguments
/// accumulated so far, and its body. A closure that the evaluator lets
/// escape always has `bound_args.len() < params.len()`.
#[derive(Debug, PartialEq)]
pub enum Value {
    Int(i32),
    Bool(bool),
    Closure(String, Vec<String>, Vec<Value>, Box<Expr>),
}

/// An expression node of the syntax tree.
#[derive(Debug, PartialEq)]
pub enum Expr {
    /// A literal value.
    Literal(Value),
    /// A name, looked up along the scope chain.
    Identifier(String),
    /// A strict, left-to-right binary operation.
    BinaryOp(BinOp, Box<Expr>, Box<Expr>),
    /// A lexical block: statements run in a fresh child frame, and the
    /// optional tail expression gives the block's value (`Int(0)` when
    /// absent).
    Block(Vec<Stmt>, Option<Box<Expr>>),
    /// Application of one argument to a (curried) function value.
    Apply(Box<Expr>, Box<Expr>),
    /// Branches tried in order; the first whose condition is true gives the
    /// value. There is no implicit default branch.
    Cond(Vec<(Expr, Expr)>),
}

/// A statement node, executed against an environment frame for its effect.
#[derive(Debug, PartialEq)]
pub enum Stmt {
    /// Introduce (or shadow) a binding in the current frame.
    Let(String, Expr),
    /// Introduce a closure binding, self-referential under its name.
    FnDef(String, Vec<String>, Expr),
    /// Overwrite the nearest existing binding of the name in the chain.
    Assign(String, Expr),
    /// Evaluate for side effect, discard the value.
    ExprStmt(Expr),
    /// Repeatedly evaluate the condition and, while true, the body.
    While(Expr, Expr),
    /// Evaluate the body once if the condition is true.
    If(Expr, Expr),
    /// Evaluate and emit the value to the output sink.
    Print(Expr),
}

/// Model of a runtime value.
pub enum ValueSpec {
    Int(i32),
    Bool(bool),
    Closure { name: Seq<char>, params: Seq<Seq<char>>, bound: Seq<ValueSpec>, body: Box<ExprSpec> },
}

/// Model of an expression node.
pub enum ExprSpec {
    Literal(ValueSpec),
    Identifier(Seq<char>),
    BinaryOp(BinOp, Box<ExprSpec>, Box<ExprSpec>),
    Block(Seq<StmtSpec>, Option<Box<ExprSpec>>),
    Apply(Box<ExprSpec>, Box<ExprSpec>),
    Cond(Seq<(ExprSpec, ExprSpec)>),
}

/// Model of a statement node.
pub enum StmtSpec {
    Let(Seq<char>, ExprSpec),
    FnDef(Seq<char>, Seq<Seq<char>>, ExprSpec),
    Assign(Seq<char>, ExprSpec),
    ExprStmt(ExprSpec),
    While(ExprSpec, ExprSpec),
    If(ExprSpec, ExprSpec),
    Print(ExprSpec),
}

/// Model of a sequence of parameter names.
pub open spec fn names_model(names: Seq<String>) -> Seq<Seq<char>> {
    names.map_values(|s: String| s@)
}

/// Model of a runtime value, defined by structural recursion.
pub open spec fn value_model(v: Value) -> ValueSpec
    decreases v,
{
    match v {
        Value::Int(i) => ValueSpec::Int(i),
        Value::Bool(b) => ValueSpec::Bool(b),
        Value::Closure(name, params, bound, body) => ValueSpec::Closure {
            name: name@,
            params: names_model(params@),
            bound: values_model(bound@),
            body: Box::new(expr_model(*body)),
        },
    }
}

/// Model of a sequence of runtime values.
pub open spec fn values_model(vs: Seq<Value>) -> Seq<ValueSpec>
    decreases vs,
{
    if vs.len() == 0 {
        Seq::empty()
    } else {
        seq![value_model(vs[0])] + values_model(vs.drop_first())
    }
}

/// Model of an expression node, defined by structural recursion.
pub open spec fn expr_model(e: Expr) -> ExprSpec
    decreases e,
{
    match e {
        Expr::Literal(v) => ExprSpec::Literal(value_model(v)),
        Expr::Identifier(n) => ExprSpec::Identifier(n@),
        Expr::BinaryOp(op, l, r) => ExprSpec::BinaryOp(
            op,
            Box::new(expr_model(*l)),
            Box::new(expr_model(*r)),
        ),
        Expr::Block(stmts, tail) => ExprSpec::Block(
            stmts_model(stmts@),
            match tail {
                Some(t) => Some(Box::new(expr_model(*t))),
                None => None,
            },
        ),
        Expr::Apply(callee, arg) => ExprSpec::Apply(
            Box::new(expr_model(*callee)),
            Box::new(expr_model(*arg)),
        ),
        Expr::Cond(branches) => ExprSpec::Cond(branches_model(branches@)),
    }
}

/// Model of a sequence of branches of a `Cond`.
pub open spec fn branches_model(bs: Seq<(Expr, Expr)>) -> Seq<(ExprSpec, ExprSpec)>
    decreases bs,
{
    if bs.len() == 0 {
        Seq::empty()
    } else {
        seq![(expr_model(bs[0].0), expr_model(bs[0].1))] + branches_model(bs.drop_first())
    }
}

/// Model of a statement node, defined by structural recursion.
pub open spec fn stmt_model(s: Stmt) -> StmtSpec
    decreases s,
{
    match s {
        Stmt::Let(n, e) => StmtSpec::Let(n@, expr_model(e)),
        Stmt::FnDef(n, params, body) => StmtSpec::FnDef(n@, names_model(params@), expr_model(body)),
        Stmt::Assign(n, e) => StmtSpec::Assign(n@, expr_model(e)),
        Stmt::ExprStmt(e) => StmtSpec::ExprStmt(expr_model(e)),
        Stmt::While(c, b) => StmtSpec::While(expr_model(c), expr_model(b)),
        Stmt::If(c, b) => StmtSpec::If(expr_model(c), expr_model(b)),
        Stmt::Print(e) => StmtSpec::Print(expr_model(e)),
    }
}

/// Model of a sequence of statements.
pub open spec fn stmts_model(ss: Seq<Stmt>) -> Seq<StmtSpec>
    decreases ss,
{
    if ss.len() == 0 {
        Seq::empty()
    } else {
        seq![stmt_model(ss[0])] + stmts_model(ss.drop_first())
    }
}

impl DeepView for Value {
    type V = ValueSpec;

    open spec fn deep_view(&self) -> ValueSpec {
        value_model(*self)
    }
}

impl DeepView for Expr {
    type V = ExprSpec;

    open spec fn deep_view(&self) -> ExprSpec {
        expr_model(*self)
    }
}

impl DeepView for Stmt {
    type V = StmtSpec;

    open spec fn deep_view(&self) -> StmtSpec {
        stmt_model(*self)
    }
}

} // verus!
