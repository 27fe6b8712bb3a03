//! The executable evaluator, proved against the definitional semantics in
//! [`crate::semantics`].

use vstd::prelude::*;

use crate::ast::BinOp;
use crate::ast::Expr;
use crate::ast::Stmt;
use crate::ast::Value;
use crate::ast::ValueSpec;
use crate::ast::branches_model;
use crate::ast::expr_model;
use crate::ast::names_model;
use crate::ast::stmt_model;
use crate::ast::stmts_model;
use crate::ast::value_model;
use crate::ast::values_model;
use crate::env::Env;
use crate::env::env_wf;
use crate::errors::ErrorSpec;
use crate::errors::EvalError;
use crate::semantics::StateSpec;
use crate::semantics::binop_eval_spec;
use crate::semantics::downcast_bool_spec;
use crate::semantics::eval_cond_spec;
use crate::semantics::eval_expr_spec;
use crate::semantics::eval_stmt_spec;
use crate::semantics::eval_stmts_spec;
use crate::semantics::result_model;
use crate::semantics::symbol_spec;
use crate::semantics::type_name_spec;

verus! {

broadcast use vstd::string::to_string_from_display_ensures_for_str;

/// An owned copy of a string slice.
fn string_of(s: &str) -> (r: String)
    ensures
        r@ == s@,
{
    s.to_string()
}

/// Model of a statement's `Result`, which carries no value.
pub open spec fn stmt_result_model(r: Result<(), EvalError>) -> Option<ErrorSpec> {
    match r {
        Ok(_) => None,
        Err(e) => Some(e.deep_view()),
    }
}

impl BinOp {
    /// The operator's symbol, as it appears in diagnostics.
    pub fn symbol(self) -> (r: &'static str)
        ensures
            r@ == symbol_spec(self),
    {
        match self {
            BinOp::Add => "+",
            BinOp::Sub => "-",
            BinOp::Mul => "*",
            BinOp::Div => "/",
            BinOp::Eq => "==",
            BinOp::NotEq => "!=",
            BinOp::Lt => "<",
            BinOp::LtEq => "<=",
            BinOp::Gt => ">",
            BinOp::GtEq => ">=",
        }
    }

    /// Apply the operator to two already-evaluated operands.
    pub fn eval(self, l: Value, r: Value) -> (res: Result<Value, EvalError>)
        ensures
            result_model(res) == binop_eval_spec(self, l.deep_view(), r.deep_view()),
    {
        match (&l, &r) {
            (Value::Int(a), Value::Int(b)) => match self {
                BinOp::Add => Ok(Value::Int(a.wrapping_add(*b))),
                BinOp::Sub => Ok(Value::Int(a.wrapping_sub(*b))),
                BinOp::Mul => Ok(Value::Int(a.wrapping_mul(*b))),
                BinOp::Div => {
                    if *b == 0 {
                        Err(EvalError::DivisionByZero)
                    } else {
                        match a.checked_div(*b) {
                            Some(q) => Ok(Value::Int(q)),
                            None => Ok(Value::Int(i32::MIN)),
                        }
                    }
                },
                BinOp::Eq => Ok(Value::Bool(*a == *b)),
                BinOp::NotEq => Ok(Value::Bool(*a != *b)),
                BinOp::Lt => Ok(Value::Bool(*a < *b)),
                BinOp::LtEq => Ok(Value::Bool(*a <= *b)),
                BinOp::Gt => Ok(Value::Bool(*a > *b)),
                BinOp::GtEq => Ok(Value::Bool(*a >= *b)),
            },
            (Value::Bool(a), Value::Bool(b)) => match self {
                BinOp::Eq => Ok(Value::Bool(*a == *b)),
                BinOp::NotEq => Ok(Value::Bool(*a != *b)),
                _ => Err(
                    EvalError::TypeMismatch {
                        context: string_of(self.symbol()),
                        expected: string_of(l.typename()),
                        got: string_of(r.typename()),
                    },
                ),
            },
            _ => Err(
                EvalError::TypeMismatch {
                    context: string_of(self.symbol()),
                    expected: string_of(l.typename()),
                    got: string_of(r.typename()),
                },
            ),
        }
    }
}

impl Value {
    /// The value's type name, as it appears in diagnostics.
    pub fn typename(&self) -> (r: &'static str)
        ensures
            r@ == type_name_spec(self.deep_view()),
    {
        match self {
            Value::Int(..) => "int",
            Value::Bool(..) => "bool",
            Value::Closure(..) => "fn",
        }
    }

    /// Extract the boolean payload, or fail with a type mismatch.
    pub fn downcast_bool(self) -> (r: Result<bool, EvalError>)
        ensures
            (match r {
                Ok(b) => downcast_bool_spec(self.deep_view()) == Ok::<bool, ErrorSpec>(b),
                Err(e) => downcast_bool_spec(self.deep_view()) == Err::<bool, ErrorSpec>(
                    e.deep_view(),
                ),
            }),
    {
        match self {
            Value::Bool(b) => Ok(b),
            v => Err(
                EvalError::TypeMismatch {
                    context: string_of("downcast"),
                    expected: string_of("bool"),
                    got: string_of(v.typename()),
                },
            ),
        }
    }
}

/// Appending a value on the right extends the model on the right.
proof fn lemma_values_model_push(vs: Seq<Value>, x: Value)
    ensures
        values_model(vs.push(x)) == values_model(vs).push(value_model(x)),
    decreases vs.len(),
{
    if vs.len() == 0 {
        assert(vs.push(x).drop_first() =~= Seq::<Value>::empty());
        assert(values_model(Seq::<Value>::empty()) == Seq::<ValueSpec>::empty());
        assert(values_model(vs.push(x)) =~= values_model(vs).push(value_model(x)));
    } else {
        assert(vs.push(x).drop_first() =~= vs.drop_first().push(x));
        lemma_values_model_push(vs.drop_first(), x);
        assert(values_model(vs.push(x)) =~= values_model(vs).push(value_model(x)));
    }
}

/// An owned copy of a vector of names, with the same model.
fn clone_names(ns: &Vec<String>) -> (r: Vec<String>)
    ensures
        names_model(r@) == names_model(ns@),
        r@.len() == ns@.len(),
{
    let mut r: Vec<String> = Vec::new();
    let mut i: usize = 0;
    while i < ns.len()
        invariant
            i <= ns@.len(),
            r@.len() == i,
            forall|k: int| 0 <= k < i ==> r@[k]@ == ns@[k]@,
        decreases ns@.len() - i,
    {
        r.push(ns[i].clone());
        i += 1;
    }
    proof {
        assert(names_model(r@) =~= names_model(ns@));
    }
    r
}

/// An owned copy of a value, with the same model.
pub fn clone_value(v: &Value) -> (r: Value)
    ensures
        r.deep_view() == v.deep_view(),
    decreases v,
{
    match v {
        Value::Int(i) => Value::Int(*i),
        Value::Bool(b) => Value::Bool(*b),
        Value::Closure(name, params, bound, body) => Value::Closure(
            name.clone(),
            clone_names(params),
            clone_values(bound),
            Box::new(clone_expr(body)),
        ),
    }
}

/// An owned copy of a vector of values, with the same model.
fn clone_values(vs: &Vec<Value>) -> (r: Vec<Value>)
    ensures
        values_model(r@) == values_model(vs@),
    decreases vs,
{
    let mut r: Vec<Value> = Vec::new();
    let mut i: usize = 0;
    while i < vs.len()
        invariant
            i <= vs@.len(),
            values_model(r@) == values_model(vs@.take(i as int)),
        decreases vs@.len() - i,
    {
        let ghost prefix = vs@.take(i as int);
        let ghost r0 = r@;
        let cv = clone_value(&vs[i]);
        let ghost cvg = cv;
        r.push(cv);
        proof {
            lemma_values_model_push(r0, cvg);
            lemma_values_model_push(prefix, vs@[i as int]);
            assert(vs@.take(i as int + 1) =~= prefix.push(vs@[i as int]));
        }
        i += 1;
    }
    proof {
        assert(vs@.take(vs@.len() as int) =~= vs@);
    }
    r
}

/// An owned copy of an expression, with the same model.
pub fn clone_expr(e: &Expr) -> (r: Expr)
    ensures
        r.deep_view() == e.deep_view(),
    decreases e,
{
    match e {
        Expr::Literal(v) => Expr::Literal(clone_value(v)),
        Expr::Identifier(n) => Expr::Identifier(n.clone()),
        Expr::BinaryOp(op, l, r) => Expr::BinaryOp(
            *op,
            Box::new(clone_expr(l)),
            Box::new(clone_expr(r)),
        ),
        Expr::Block(stmts, tail) => Expr::Block(
            clone_stmts(stmts),
            match tail {
                Some(t) => Some(Box::new(clone_expr(t))),
                None => None,
            },
        ),
        Expr::Apply(callee, arg) => Expr::Apply(
            Box::new(clone_expr(callee)),
            Box::new(clone_expr(arg)),
        ),
        Expr::Cond(branches) => Expr::Cond(clone_branches(branches)),
    }
}

/// Appending a statement on the right extends the model on the right.
proof fn lemma_stmts_model_push(ss: Seq<Stmt>, x: Stmt)
    ensures
        stmts_model(ss.push(x)) == stmts_model(ss).push(stmt_model(x)),
    decreases ss.len(),
{
    if ss.len() == 0 {
        assert(ss.push(x).drop_first() =~= Seq::<Stmt>::empty());
        assert(stmts_model(Seq::<Stmt>::empty()) == Seq::<crate::ast::StmtSpec>::empty());
        assert(stmts_model(ss.push(x)) =~= stmts_model(ss).push(stmt_model(x)));
    } else {
        assert(ss.push(x).drop_first() =~= ss.drop_first().push(x));
        lemma_stmts_model_push(ss.drop_first(), x);
        assert(stmts_model(ss.push(x)) =~= stmts_model(ss).push(stmt_model(x)));
    }
}

/// An owned copy of a vector of statements, with the same model.
fn clone_stmts(ss: &Vec<Stmt>) -> (r: Vec<Stmt>)
    ensures
        stmts_model(r@) == stmts_model(ss@),
    decreases ss,
{
    let mut r: Vec<Stmt> = Vec::new();
    let mut i: usize = 0;
    while i < ss.len()
        invariant
            i <= ss@.len(),
            stmts_model(r@) == stmts_model(ss@.take(i as int)),
        decreases ss@.len() - i,
    {
        let ghost prefix = ss@.take(i as int);
        let ghost r0 = r@;
        let cs = clone_stmt(&ss[i]);
        let ghost csg = cs;
        r.push(cs);
        proof {
            lemma_stmts_model_push(r0, csg);
            lemma_stmts_model_push(prefix, ss@[i as int]);
            assert(ss@.take(i as int + 1) =~= prefix.push(ss@[i as int]));
        }
        i += 1;
    }
    proof {
        assert(ss@.take(ss@.len() as int) =~= ss@);
    }
    r
}

/// Appending a branch on the right extends the model on the right.
proof fn lemma_branches_model_push(bs: Seq<(Expr, Expr)>, x: (Expr, Expr))
    ensures
        branches_model(bs.push(x)) == branches_model(bs).push(
            (expr_model(x.0), expr_model(x.1)),
        ),
    decreases bs.len(),
{
    if bs.len() == 0 {
        assert(bs.push(x).drop_first() =~= Seq::<(Expr, Expr)>::empty());
        assert(branches_model(Seq::<(Expr, Expr)>::empty()) == Seq::<(
            crate::ast::ExprSpec,
            crate::ast::ExprSpec,
        )>::empty());
        assert(branches_model(bs.push(x)) =~= branches_model(bs).push(
            (expr_model(x.0), expr_model(x.1)),
        ));
    } else {
        assert(bs.push(x).drop_first() =~= bs.drop_first().push(x));
        lemma_branches_model_push(bs.drop_first(), x);
        assert(branches_model(bs.push(x)) =~= branches_model(bs).push(
            (expr_model(x.0), expr_model(x.1)),
        ));
    }
}

/// An owned copy of a vector of branches, with the same model.
fn clone_branches(bs: &Vec<(Expr, Expr)>) -> (r: Vec<(Expr, Expr)>)
    ensures
        branches_model(r@) == branches_model(bs@),
    decreases bs,
{
    let mut r: Vec<(Expr, Expr)> = Vec::new();
    let mut i: usize = 0;
    while i < bs.len()
        invariant
            i <= bs@.len(),
            branches_model(r@) == branches_model(bs@.take(i as int)),
        decreases bs@.len() - i,
    {
        let ghost prefix = bs@.take(i as int);
        let ghost r0 = r@;
        let pair = &bs[i];
        let cp = (clone_expr(&pair.0), clone_expr(&pair.1));
        let ghost cpg = cp;
        r.push(cp);
        proof {
            lemma_branches_model_push(r0, cpg);
            lemma_branches_model_push(prefix, bs@[i as int]);
            assert(bs@.take(i as int + 1) =~= prefix.push(bs@[i as int]));
        }
        i += 1;
    }
    proof {
        assert(bs@.take(bs@.len() as int) =~= bs@);
    }
    r
}

/// The model of a sequence of values has the same length.
proof fn lemma_values_model_len(vs: Seq<Value>)
    ensures
        values_model(vs).len() == vs.len(),
    decreases vs.len(),
{
    if vs.len() > 0 {
        lemma_values_model_len(vs.drop_first());
    }
}

/// The model of a sequence of values is the sequence of the models.
proof fn lemma_values_model_index(vs: Seq<Value>, j: int)
    requires
        0 <= j < vs.len(),
    ensures
        values_model(vs).len() == vs.len(),
        values_model(vs)[j] == value_model(vs[j]),
    decreases j,
{
    lemma_values_model_len(vs);
    if j > 0 {
        lemma_values_model_index(vs.drop_first(), j - 1);
    }
}

/// An owned copy of a statement, with the same model.
pub fn clone_stmt(s: &Stmt) -> (r: Stmt)
    ensures
        r.deep_view() == s.deep_view(),
    decreases s,
{
    match s {
        Stmt::Let(n, e) => Stmt::Let(n.clone(), clone_expr(e)),
        Stmt::FnDef(n, params, body) => Stmt::FnDef(n.clone(), clone_names(params), clone_expr(body)),
        Stmt::Assign(n, e) => Stmt::Assign(n.clone(), clone_expr(e)),
        Stmt::ExprStmt(e) => Stmt::ExprStmt(clone_expr(e)),
        Stmt::While(c, b) => Stmt::While(clone_expr(c), clone_expr(b)),
        Stmt::If(c, b) => Stmt::If(clone_expr(c), clone_expr(b)),
        Stmt::Print(e) => Stmt::Print(clone_expr(e)),
    }
}

impl Stmt {
    /// Execute the statement at frame `cur` for its effect, with `fuel`
    /// depth budget, appending printed values to `out`.
    ///
    /// The result, the environment after, and the output after are exactly
    /// what [`eval_stmt_spec`] prescribes for the statement's model.
    #[verifier::loop_isolation(false)]
    pub fn eval(&self, env: &mut Env, cur: usize, fuel: u64, out: &mut Vec<Value>) -> (res: Result<
        (),
        EvalError,
    >)
        requires
            env_wf(old(env).deep_view()),
            cur < old(env).deep_view().len(),
        ensures
            env_wf(final(env).deep_view()),
            final(env).deep_view().len() == old(env).deep_view().len(),
            ({
                let (r, st2) = eval_stmt_spec(
                    fuel as nat,
                    self.deep_view(),
                    StateSpec { frames: old(env).deep_view(), out: old(out).deep_view() },
                    cur as int,
                );
                stmt_result_model(res) == r && final(env).deep_view() == st2.frames
                    && final(out).deep_view() == st2.out
            }),
        decreases fuel,
    {
        if fuel == 0 {
            return Err(EvalError::RecursionLimitExceeded);
        }
        let f = fuel - 1;
        match self {
            Stmt::Let(n, e) => {
                let v = match e.eval(env, cur, f, out) {
                    Ok(v) => v,
                    Err(er) => return Err(er),
                };
                let ghost st1 = StateSpec { frames: env.deep_view(), out: out.deep_view() };
                let ghost vm = v.deep_view();
                env.set(cur, n, v);
                proof {
                    assert(StateSpec { frames: env.deep_view(), out: out.deep_view() }
                        =~= crate::semantics::set_in(st1, cur as int, n@, vm));
                }
                Ok(())
            },
            Stmt::FnDef(n, params, body) => {
                let v = Value::Closure(
                    n.clone(),
                    clone_names(params),
                    Vec::new(),
                    Box::new(clone_expr(body)),
                );
                let ghost st1 = StateSpec { frames: env.deep_view(), out: out.deep_view() };
                let ghost vm = v.deep_view();
                proof {
                    assert(values_model(Seq::<Value>::empty()) == Seq::<ValueSpec>::empty());
                    assert(vm == (ValueSpec::Closure {
                        name: n@,
                        params: names_model(params@),
                        bound: Seq::empty(),
                        body: Box::new(body.deep_view()),
                    }));
                }
                env.set(cur, n, v);
                proof {
                    assert(StateSpec { frames: env.deep_view(), out: out.deep_view() }
                        =~= crate::semantics::set_in(st1, cur as int, n@, vm));
                }
                Ok(())
            },
            Stmt::Assign(n, e) => {
                let v = match e.eval(env, cur, f, out) {
                    Ok(v) => v,
                    Err(er) => return Err(er),
                };
                if env.assign(cur, n, v) {
                    Ok(())
                } else {
                    Err(EvalError::UnboundIdentifier(n.clone()))
                }
            },
            Stmt::ExprStmt(e) => {
                match e.eval(env, cur, f, out) {
                    Ok(_) => Ok(()),
                    Err(er) => Err(er),
                }
            },
            Stmt::Print(e) => {
                let v = match e.eval(env, cur, f, out) {
                    Ok(v) => v,
                    Err(er) => return Err(er),
                };
                let ghost out1 = out.deep_view();
                let ghost vg = v;
                out.push(v);
                proof {
                    assert(out.deep_view() =~= out1.push(vg.deep_view()));
                }
                Ok(())
            },
            Stmt::While(c, b) => {
                let cv = match c.eval(env, cur, f, out) {
                    Ok(v) => v,
                    Err(er) => return Err(er),
                };
                let taken = match cv.downcast_bool() {
                    Ok(t) => t,
                    Err(er) => return Err(er),
                };
                if taken {
                    match b.eval(env, cur, f, out) {
                        Ok(_) => {},
                        Err(er) => return Err(er),
                    }
                    self.eval(env, cur, f, out)
                } else {
                    Ok(())
                }
            },
            Stmt::If(c, b) => {
                let cv = match c.eval(env, cur, f, out) {
                    Ok(v) => v,
                    Err(er) => return Err(er),
                };
                let taken = match cv.downcast_bool() {
                    Ok(t) => t,
                    Err(er) => return Err(er),
                };
                if taken {
                    match b.eval(env, cur, f, out) {
                        Ok(_) => Ok(()),
                        Err(er) => Err(er),
                    }
                } else {
                    Ok(())
                }
            },
        }
    }
}

impl Expr {
    /// Evaluate the expression at frame `cur`, with `fuel` depth budget,
    /// appending printed values to `out`.
    ///
    /// The result, the environment after, and the output after are exactly
    /// what [`eval_expr_spec`] prescribes for the expression's model.
    #[verifier::loop_isolation(false)]
    #[verifier::rlimit(100)]
    pub fn eval(&self, env: &mut Env, cur: usize, fuel: u64, out: &mut Vec<Value>) -> (res: Result<
        Value,
        EvalError,
    >)
        requires
            env_wf(old(env).deep_view()),
            cur < old(env).deep_view().len(),
        ensures
            env_wf(final(env).deep_view()),
            final(env).deep_view().len() == old(env).deep_view().len(),
            ({
                let (r, st2) = eval_expr_spec(
                    fuel as nat,
                    self.deep_view(),
                    StateSpec { frames: old(env).deep_view(), out: old(out).deep_view() },
                    cur as int,
                );
                result_model(res) == r && final(env).deep_view() == st2.frames
                    && final(out).deep_view() == st2.out
            }),
        decreases fuel,
    {
        if fuel == 0 {
            return Err(EvalError::RecursionLimitExceeded);
        }
        let f = fuel - 1;
        match self {
            Expr::Literal(v) => Ok(clone_value(v)),
            Expr::Identifier(n) => {
                match env.get(cur, n) {
                    Some(v) => Ok(clone_value(v)),
                    None => Err(EvalError::UnboundIdentifier(n.clone())),
                }
            },
            Expr::BinaryOp(op, l, r) => {
                let lv = match l.eval(env, cur, f, out) {
                    Ok(v) => v,
                    Err(er) => return Err(er),
                };
                let rv = match r.eval(env, cur, f, out) {
                    Ok(v) => v,
                    Err(er) => return Err(er),
                };
                op.eval(lv, rv)
            },
            Expr::Block(stmts, tail) => {
                let child = env.push_frame(Some(cur));
                let ghost stp = StateSpec { frames: env.deep_view(), out: out.deep_view() };
                proof {
                    assert(stmts@.skip(0) =~= stmts@);
                }
                let mut i: usize = 0;
                while i < stmts.len()
                    invariant
                        env_wf(env.deep_view()),
                        child < env.deep_view().len(),
                        env.deep_view().len() == stp.frames.len(),
                        i <= stmts@.len(),
                        eval_stmts_spec(
                            f as nat,
                            stmts_model(stmts@.skip(i as int)),
                            StateSpec { frames: env.deep_view(), out: out.deep_view() },
                            child as int,
                        ) == eval_stmts_spec(f as nat, stmts_model(stmts@), stp, child as int),
                    decreases stmts@.len() - i,
                {
                    proof {
                        assert(stmts@.skip(i as int)[0] == stmts@[i as int]);
                        assert(stmts@.skip(i as int).drop_first() =~= stmts@.skip(i as int + 1));
                        assert((seq![stmt_model(stmts@[i as int])] + stmts_model(
                            stmts@.skip(i as int + 1),
                        )).drop_first() =~= stmts_model(stmts@.skip(i as int + 1)));
                    }
                    match stmts[i].eval(env, child, f, out) {
                        Ok(_) => {},
                        Err(er) => {
                            env.pop_frame();
                            return Err(er);
                        },
                    }
                    i += 1;
                }
                proof {
                    assert(stmts@.skip(stmts@.len() as int) =~= Seq::<Stmt>::empty());
                    assert(stmts_model(Seq::<Stmt>::empty()) == Seq::<crate::ast::StmtSpec>::empty());
                }
                match tail {
                    Some(t) => {
                        let res = t.eval(env, child, f, out);
                        env.pop_frame();
                        res
                    },
                    None => {
                        env.pop_frame();
                        Ok(Value::Int(0))
                    },
                }
            },
            Expr::Apply(callee, arg) => {
                let fv = match callee.eval(env, cur, f, out) {
                    Ok(v) => v,
                    Err(er) => return Err(er),
                };
                match fv {
                    Value::Closure(name, params, mut bound, body) => {
                        proof {
                            lemma_values_model_len(bound@);
                        }
                        if bound.len() < params.len() {
                            let av = match arg.eval(env, cur, f, out) {
                                Ok(v) => v,
                                Err(er) => return Err(er),
                            };
                            let ghost bound0 = bound@;
                            let ghost avg = av;
                            bound.push(av);
                            proof {
                                lemma_values_model_push(bound0, avg);
                                lemma_values_model_len(bound@);
                            }
                            if bound.len() == params.len() {
                                let ghost base = env.deep_view();
                                let ghost ps = names_model(params@);
                                let ghost vs = values_model(bound@);
                                let ghost bodym = Box::new(body.deep_view());
                                let ghost target = crate::semantics::invocation_binds(
                                    name@,
                                    ps,
                                    bodym,
                                    vs,
                                );
                                let child = env.push_frame(None);
                                let selfc = Value::Closure(
                                    name.clone(),
                                    clone_names(&params),
                                    Vec::new(),
                                    Box::new(clone_expr(&body)),
                                );
                                proof {
                                    assert(values_model(Seq::<Value>::empty())
                                        == Seq::<ValueSpec>::empty());
                                    lemma_values_model_len(bound@);
                                }
                                env.set(child, &name, selfc);
                                let ghost binds0 = env.deep_view()[child as int].binds;
                                proof {
                                    assert(binds0 == crate::env::frame_set(
                                        Seq::<(Seq<char>, ValueSpec)>::empty(),
                                        name@,
                                        ValueSpec::Closure {
                                            name: name@,
                                            params: ps,
                                            bound: Seq::empty(),
                                            body: bodym,
                                        },
                                    ));
                                }
                                proof {
                                    assert(ps.skip(0) =~= ps);
                                    assert(vs.skip(0) =~= vs);
                                }
                                let mut j: usize = 0;
                                while j < params.len()
                                    invariant
                                        j <= params@.len(),
                                        bound@.len() == params@.len(),
                                        env_wf(env.deep_view()),
                                        env.deep_view().len() == base.len() + 1,
                                        child == base.len(),
                                        env.deep_view() == base.push(
                                            env.deep_view()[child as int],
                                        ),
                                        env.deep_view()[child as int].parent == None::<int>,
                                        crate::semantics::bind_params(
                                            env.deep_view()[child as int].binds,
                                            ps.skip(j as int),
                                            vs.skip(j as int),
                                        ) == target,
                                    decreases params@.len() - j,
                                {
                                    let ghost bcur = env.deep_view()[child as int].binds;
                                    proof {
                                        lemma_values_model_index(bound@, j as int);
                                        assert(ps.skip(j as int)[0] == ps[j as int]);
                                        assert(vs.skip(j as int)[0] == vs[j as int]);
                                        assert(ps.skip(j as int).drop_first() =~= ps.skip(
                                            j as int + 1,
                                        ));
                                        assert(vs.skip(j as int).drop_first() =~= vs.skip(
                                            j as int + 1,
                                        ));
                                    }
                                    let bv = clone_value(&bound[j]);
                                    env.set(child, &params[j], bv);
                                    proof {
                                        assert(env.deep_view() =~= base.push(
                                            env.deep_view()[child as int],
                                        ));
                                    }
                                    j += 1;
                                }
                                proof {
                                    assert(ps.skip(params@.len() as int)
                                        =~= Seq::<Seq<char>>::empty());
                                    lemma_values_model_len(bound@);
                                    assert(vs.skip(params@.len() as int)
                                        =~= Seq::<ValueSpec>::empty());
                                    assert(env.deep_view()[child as int].binds == target);
                                    assert(env.deep_view() =~= base.push(
                                        crate::env::FrameSpec { parent: None, binds: target },
                                    ));
                                }
                                let res = body.eval(env, child, f, out);
                                env.pop_frame();
                                res
                            } else {
                                Ok(Value::Closure(name, params, bound, body))
                            }
                        } else {
                            Err(EvalError::NotCallable(string_of("fn")))
                        }
                    },
                    other => Err(EvalError::NotCallable(string_of(other.typename()))),
                }
            },
            Expr::Cond(branches) => {
                let ghost st1 = StateSpec { frames: env.deep_view(), out: out.deep_view() };
                proof {
                    assert(branches@.skip(0) =~= branches@);
                }
                let mut i: usize = 0;
                while i < branches.len()
                    invariant
                        env_wf(env.deep_view()),
                        cur < env.deep_view().len(),
                        env.deep_view().len() == st1.frames.len(),
                        i <= branches@.len(),
                        eval_cond_spec(
                            f as nat,
                            branches_model(branches@.skip(i as int)),
                            StateSpec { frames: env.deep_view(), out: out.deep_view() },
                            cur as int,
                        ) == eval_cond_spec(
                            f as nat,
                            branches_model(branches@),
                            st1,
                            cur as int,
                        ),
                    decreases branches@.len() - i,
                {
                    proof {
                        assert(branches@.skip(i as int)[0] == branches@[i as int]);
                        assert(branches@.skip(i as int).drop_first() =~= branches@.skip(
                            i as int + 1,
                        ));
                        assert((seq![
                            (
                                expr_model(branches@[i as int].0),
                                expr_model(branches@[i as int].1),
                            ),
                        ] + branches_model(branches@.skip(i as int + 1))).drop_first()
                            =~= branches_model(branches@.skip(i as int + 1)));
                    }
                    let cv = match branches[i].0.eval(env, cur, f, out) {
                        Ok(v) => v,
                        Err(er) => return Err(er),
                    };
                    let taken = match cv.downcast_bool() {
                        Ok(t) => t,
                        Err(er) => return Err(er),
                    };
                    if taken {
                        return branches[i].1.eval(env, cur, f, out);
                    }
                    i += 1;
                }
                proof {
                    assert(branches@.skip(branches@.len() as int) =~= Seq::<(Expr, Expr)>::empty());
                    assert(branches_model(Seq::<(Expr, Expr)>::empty()) == Seq::<(
                        crate::ast::ExprSpec,
                        crate::ast::ExprSpec,
                    )>::empty());
                }
                Err(EvalError::NoMatchingBranch)
            },
        }
    }
}

/// Evaluate a whole program against a fresh root environment with the given
/// depth budget. Returns the result of the program and the values it
/// printed, in order.
pub fn run(program: &Expr, fuel: u64) -> (r: (Result<Value, EvalError>, Vec<Value>))
    ensures
        ({
            let (res, st2) = eval_expr_spec(
                fuel as nat,
                program.deep_view(),
                StateSpec {
                    frames: seq![
                        crate::env::FrameSpec { parent: None, binds: Seq::empty() },
                    ],
                    out: Seq::empty(),
                },
                0,
            );
            result_model(r.0) == res && r.1.deep_view() == st2.out
        }),
{
    let mut env = Env::new();
    let mut out: Vec<Value> = Vec::new();
    proof {
        assert(out.deep_view() =~= Seq::<ValueSpec>::empty());
    }
    let res = program.eval(&mut env, 0, fuel, &mut out);
    (res, out)
}

} // verus!
