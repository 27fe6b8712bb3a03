//! The definitional semantics of the language: a fuel-indexed interpreter
//! over the models of values, syntax trees and environments.
//!
//! Every executable evaluation function of the crate is proved to return
//! exactly what the corresponding spec function here prescribes. The fuel is
//! an evaluation-depth budget: every nested evaluation step consumes one
//! unit, and a program that does not finish within the budget fails with
//! `RecursionLimitExceeded`. This keeps the semantics total (and the
//! executable evaluator free of unbounded recursion) while leaving the
//! behaviour of every terminating program fully determined once the fuel is
//! large enough.

use vstd::prelude::*;

use crate::ast::BinOp;
use crate::ast::ExprSpec;
use crate::ast::StmtSpec;
use crate::ast::ValueSpec;
use crate::ast::Value;
use crate::env::FrameSpec;
use crate::env::assign_chain;
use crate::env::frame_set;
use crate::env::lookup_chain;
use crate::errors::ErrorSpec;
use crate::errors::EvalError;

verus! {

/// The full evaluation state: the environment arena and the output sink.
#[verifier::ext_equal]
pub struct StateSpec {
    /// The environment frames, by handle.
    pub frames: Seq<FrameSpec>,
    /// The values printed so far, in order.
    pub out: Seq<ValueSpec>,
}

/// Model of a `Result` of evaluation.
pub open spec fn result_model(r: Result<Value, EvalError>) -> Result<ValueSpec, ErrorSpec> {
    match r {
        Ok(v) => Ok(v.deep_view()),
        Err(e) => Err(e.deep_view()),
    }
}

/// The symbol of a binary operator, as it appears in diagnostics.
pub open spec fn symbol_spec(op: BinOp) -> Seq<char> {
    match op {
        BinOp::Add => "+"@,
        BinOp::Sub => "-"@,
        BinOp::Mul => "*"@,
        BinOp::Div => "/"@,
        BinOp::Eq => "=="@,
        BinOp::NotEq => "!="@,
        BinOp::Lt => "<"@,
        BinOp::LtEq => "<="@,
        BinOp::Gt => ">"@,
        BinOp::GtEq => ">="@,
    }
}

/// The type name of a value, as it appears in diagnostics.
pub open spec fn type_name_spec(v: ValueSpec) -> Seq<char> {
    match v {
        ValueSpec::Int(..) => "int"@,
        ValueSpec::Bool(..) => "bool"@,
        ValueSpec::Closure { .. } => "fn"@,
    }
}

/// Extraction of the boolean payload of a value; any other type of value is
/// a type mismatch.
pub open spec fn downcast_bool_spec(v: ValueSpec) -> Result<bool, ErrorSpec> {
    match v {
        ValueSpec::Bool(b) => Ok(b),
        _ => Err(
            ErrorSpec::TypeMismatch {
                context: "downcast"@,
                expected: "bool"@,
                got: type_name_spec(v),
            },
        ),
    }
}

/// Truncating division on the machine integers, with the one overflowing
/// quotient (`i32::MIN / -1`) wrapping around to `i32::MIN`.
pub open spec fn div_wrap(a: i32, b: i32) -> i32
    recommends
        b != 0,
{
    match a.checked_div(b) {
        Some(q) => q,
        None => i32::MIN,
    }
}

/// The result of one binary operation on two already-evaluated operands.
///
/// `Add`/`Sub`/`Mul` use wrapping two's-complement arithmetic; `Div`
/// truncates toward zero and rejects a zero divisor; the comparisons follow
/// the standard integer order; `Eq`/`NotEq` are also defined on two
/// booleans. Every other combination is a type mismatch naming the operator
/// symbol and both operand type names.
pub open spec fn binop_eval_spec(op: BinOp, l: ValueSpec, r: ValueSpec) -> Result<
    ValueSpec,
    ErrorSpec,
> {
    match (l, r) {
        (ValueSpec::Int(a), ValueSpec::Int(b)) => match op {
            BinOp::Add => Ok(ValueSpec::Int(a.wrapping_add(b))),
            BinOp::Sub => Ok(ValueSpec::Int(a.wrapping_sub(b))),
            BinOp::Mul => Ok(ValueSpec::Int(a.wrapping_mul(b))),
            BinOp::Div => if b == 0 {
                Err(ErrorSpec::DivisionByZero)
            } else {
                Ok(ValueSpec::Int(div_wrap(a, b)))
            },
            BinOp::Eq => Ok(ValueSpec::Bool(a == b)),
            BinOp::NotEq => Ok(ValueSpec::Bool(a != b)),
            BinOp::Lt => Ok(ValueSpec::Bool(a < b)),
            BinOp::LtEq => Ok(ValueSpec::Bool(a <= b)),
            BinOp::Gt => Ok(ValueSpec::Bool(a > b)),
            BinOp::GtEq => Ok(ValueSpec::Bool(a >= b)),
        },
        (ValueSpec::Bool(a), ValueSpec::Bool(b)) => match op {
            BinOp::Eq => Ok(ValueSpec::Bool(a == b)),
            BinOp::NotEq => Ok(ValueSpec::Bool(a != b)),
            _ => Err(
                ErrorSpec::TypeMismatch {
                    context: symbol_spec(op),
                    expected: type_name_spec(l),
                    got: type_name_spec(r),
                },
            ),
        },
        _ => Err(
            ErrorSpec::TypeMismatch {
                context: symbol_spec(op),
                expected: type_name_spec(l),
                got: type_name_spec(r),
            },
        ),
    }
}

/// Insert-or-overwrite of `name` in frame `cur` of the state.
pub open spec fn set_in(st: StateSpec, cur: int, name: Seq<char>, v: ValueSpec) -> StateSpec {
    if 0 <= cur < st.frames.len() {
        StateSpec {
            frames: st.frames.update(
                cur,
                FrameSpec {
                    parent: st.frames[cur].parent,
                    binds: frame_set(st.frames[cur].binds, name, v),
                },
            ),
            out: st.out,
        }
    } else {
        st
    }
}

/// Discard of the most recently pushed frame.
pub open spec fn pop_state(st: StateSpec) -> StateSpec {
    if st.frames.len() == 0 {
        st
    } else {
        StateSpec { frames: st.frames.drop_last(), out: st.out }
    }
}

/// Binding of parameter names to argument values, in declaration order,
/// into the bindings of a fresh invocation frame.
pub open spec fn bind_params(
    binds: Seq<(Seq<char>, ValueSpec)>,
    params: Seq<Seq<char>>,
    args: Seq<ValueSpec>,
) -> Seq<(Seq<char>, ValueSpec)>
    decreases params.len(),
{
    if params.len() == 0 || args.len() == 0 {
        binds
    } else {
        bind_params(
            frame_set(binds, params[0], args[0]),
            params.drop_first(),
            args.drop_first(),
        )
    }
}

/// The bindings of the fresh, parent-less frame in which a saturated
/// closure's body runs: the closure rebinds itself under its own name (with
/// an empty argument accumulator), then each parameter is bound to its
/// argument in declaration order.
pub open spec fn invocation_binds(
    name: Seq<char>,
    params: Seq<Seq<char>>,
    body: Box<ExprSpec>,
    args: Seq<ValueSpec>,
) -> Seq<(Seq<char>, ValueSpec)> {
    let self_closure = ValueSpec::Closure { name, params, bound: Seq::empty(), body };
    bind_params(frame_set(Seq::empty(), name, self_closure), params, args)
}

/// One step of evaluation of an expression, at frame `cur`, with `fuel`
/// depth budget. Returns the value or the error, and the state after.
pub open spec fn eval_expr_spec(fuel: nat, e: ExprSpec, st: StateSpec, cur: int) -> (Result<
    ValueSpec,
    ErrorSpec,
>, StateSpec)
    decreases fuel, 0int,
{
    if fuel == 0 {
        (Err(ErrorSpec::RecursionLimitExceeded), st)
    } else {
        let f = (fuel - 1) as nat;
        match e {
            ExprSpec::Literal(v) => (Ok(v), st),
            ExprSpec::Identifier(n) => (
                match lookup_chain(st.frames, cur, n) {
                    Some(v) => Ok(v),
                    None => Err(ErrorSpec::UnboundIdentifier(n)),
                },
                st,
            ),
            ExprSpec::BinaryOp(op, l, r) => {
                let (rl, st1) = eval_expr_spec(f, *l, st, cur);
                match rl {
                    Ok(lv) => {
                        let (rr, st2) = eval_expr_spec(f, *r, st1, cur);
                        match rr {
                            Ok(rv) => (binop_eval_spec(op, lv, rv), st2),
                            Err(e2) => (Err(e2), st2),
                        }
                    },
                    Err(e1) => (Err(e1), st1),
                }
            },
            ExprSpec::Block(ss, tail) => {
                let child = st.frames.len() as int;
                let st1 = StateSpec {
                    frames: st.frames.push(FrameSpec { parent: Some(cur), binds: Seq::empty() }),
                    out: st.out,
                };
                let (r1, st2) = eval_stmts_spec(f, ss, st1, child);
                match r1 {
                    Some(e1) => (Err(e1), pop_state(st2)),
                    None => match tail {
                        Some(t) => {
                            let (r2, st3) = eval_expr_spec(f, *t, st2, child);
                            (r2, pop_state(st3))
                        },
                        None => (Ok(ValueSpec::Int(0)), pop_state(st2)),
                    },
                }
            },
            ExprSpec::Apply(callee, arg) => {
                let (rf, st1) = eval_expr_spec(f, *callee, st, cur);
                match rf {
                    Err(e1) => (Err(e1), st1),
                    Ok(fv) => match fv {
                        ValueSpec::Closure { name, params, bound, body } => {
                            if bound.len() < params.len() {
                                let (ra, st2) = eval_expr_spec(f, *arg, st1, cur);
                                match ra {
                                    Err(e2) => (Err(e2), st2),
                                    Ok(av) => {
                                        let bound2 = bound.push(av);
                                        if bound2.len() == params.len() {
                                            let child = st2.frames.len() as int;
                                            let st3 = StateSpec {
                                                frames: st2.frames.push(
                                                    FrameSpec {
                                                        parent: None,
                                                        binds: invocation_binds(
                                                            name,
                                                            params,
                                                            body,
                                                            bound2,
                                                        ),
                                                    },
                                                ),
                                                out: st2.out,
                                            };
                                            let (rb, st4) = eval_expr_spec(f, *body, st3, child);
                                            (rb, pop_state(st4))
                                        } else {
                                            (
                                                Ok(
                                                    ValueSpec::Closure {
                                                        name,
                                                        params,
                                                        bound: bound2,
                                                        body,
                                                    },
                                                ),
                                                st2,
                                            )
                                        }
                                    },
                                }
                            } else {
                                // a closure the evaluator lets escape is
                                // never saturated, so this arises only for a
                                // saturated closure literal written directly
                                // into the input tree
                                (Err(ErrorSpec::NotCallable(type_name_spec(fv))), st1)
                            }
                        },
                        _ => (Err(ErrorSpec::NotCallable(type_name_spec(fv))), st1),
                    },
                }
            },
            ExprSpec::Cond(branches) => eval_cond_spec(f, branches, st, cur),
        }
    }
}

/// Evaluation of the branches of a `Cond`, in order: the first branch whose
/// condition holds gives the value; a condition of any non-boolean type is a
/// type mismatch; no matching branch is an error, never a default.
pub open spec fn eval_cond_spec(
    fuel: nat,
    branches: Seq<(ExprSpec, ExprSpec)>,
    st: StateSpec,
    cur: int,
) -> (Result<ValueSpec, ErrorSpec>, StateSpec)
    decreases fuel, branches.len(),
{
    if branches.len() == 0 {
        (Err(ErrorSpec::NoMatchingBranch), st)
    } else {
        let (rc, st1) = eval_expr_spec(fuel, branches[0].0, st, cur);
        match rc {
            Err(e1) => (Err(e1), st1),
            Ok(cv) => match downcast_bool_spec(cv) {
                Err(e2) => (Err(e2), st1),
                Ok(true) => eval_expr_spec(fuel, branches[0].1, st1, cur),
                Ok(false) => eval_cond_spec(fuel, branches.drop_first(), st1, cur),
            },
        }
    }
}

/// Execution of a sequence of statements, in order, for effect.
pub open spec fn eval_stmts_spec(fuel: nat, ss: Seq<StmtSpec>, st: StateSpec, cur: int) -> (Option<
    ErrorSpec,
>, StateSpec)
    decreases fuel, ss.len(),
{
    if ss.len() == 0 {
        (None, st)
    } else {
        let (r0, st1) = eval_stmt_spec(fuel, ss[0], st, cur);
        match r0 {
            Some(e0) => (Some(e0), st1),
            None => eval_stmts_spec(fuel, ss.drop_first(), st1, cur),
        }
    }
}

/// Execution of one statement at frame `cur`, for effect: the error if it
/// failed, and the state after.
pub open spec fn eval_stmt_spec(fuel: nat, s: StmtSpec, st: StateSpec, cur: int) -> (Option<
    ErrorSpec,
>, StateSpec)
    decreases fuel, 0int,
{
    if fuel == 0 {
        (Some(ErrorSpec::RecursionLimitExceeded), st)
    } else {
        let f = (fuel - 1) as nat;
        match s {
            StmtSpec::Let(n, e) => {
                let (r, st1) = eval_expr_spec(f, e, st, cur);
                match r {
                    Err(e1) => (Some(e1), st1),
                    Ok(v) => (None, set_in(st1, cur, n, v)),
                }
            },
            StmtSpec::FnDef(n, params, body) => {
                let v = ValueSpec::Closure {
                    name: n,
                    params,
                    bound: Seq::empty(),
                    body: Box::new(body),
                };
                (None, set_in(st, cur, n, v))
            },
            StmtSpec::Assign(n, e) => {
                let (r, st1) = eval_expr_spec(f, e, st, cur);
                match r {
                    Err(e1) => (Some(e1), st1),
                    Ok(v) => match assign_chain(st1.frames, cur, n, v) {
                        Some(frames2) => (None, StateSpec { frames: frames2, out: st1.out }),
                        None => (Some(ErrorSpec::UnboundIdentifier(n)), st1),
                    },
                }
            },
            StmtSpec::ExprStmt(e) => {
                let (r, st1) = eval_expr_spec(f, e, st, cur);
                match r {
                    Err(e1) => (Some(e1), st1),
                    Ok(_) => (None, st1),
                }
            },
            StmtSpec::Print(e) => {
                let (r, st1) = eval_expr_spec(f, e, st, cur);
                match r {
                    Err(e1) => (Some(e1), st1),
                    Ok(v) => (None, StateSpec { frames: st1.frames, out: st1.out.push(v) }),
                }
            },
            StmtSpec::While(c, b) => {
                let (rc, st1) = eval_expr_spec(f, c, st, cur);
                match rc {
                    Err(e1) => (Some(e1), st1),
                    Ok(cv) => match downcast_bool_spec(cv) {
                        Err(e2) => (Some(e2), st1),
                        Ok(false) => (None, st1),
                        Ok(true) => {
                            let (rb, st2) = eval_expr_spec(f, b, st1, cur);
                            match rb {
                                Err(e3) => (Some(e3), st2),
                                Ok(_) => eval_stmt_spec(f, s, st2, cur),
                            }
                        },
                    },
                }
            },
            StmtSpec::If(c, b) => {
                let (rc, st1) = eval_expr_spec(f, c, st, cur);
                match rc {
                    Err(e1) => (Some(e1), st1),
                    Ok(cv) => match downcast_bool_spec(cv) {
                        Err(e2) => (Some(e2), st1),
                        Ok(false) => (None, st1),
                        Ok(true) => {
                            let (rb, st2) = eval_expr_spec(f, b, st1, cur);
                            match rb {
                                Err(e3) => (Some(e3), st2),
                                Ok(_) => (None, st2),
                            }
                        },
                    },
                }
            },
        }
    }
}

} // verus!
