//! Laws of the evaluator, proved once and for all over the definitional
//! semantics: division of integer literals, exhaustiveness of `Cond`,
//! unbound identifiers in a fresh environment, and under-saturated
//! application.

use vstd::prelude::*;

use vstd::arithmetic::div_mod::lemma_div_is_ordered;
use vstd::arithmetic::div_mod::lemma_div_is_ordered_by_denominator;
use vstd::arithmetic::div_mod::lemma_div_nonincreasing;
use vstd::arithmetic::div_mod::lemma_div_pos_is_pos;

use crate::ast::BinOp;
use crate::ast::ExprSpec;
use crate::ast::ValueSpec;
use crate::env::FrameSpec;
use crate::errors::ErrorSpec;
use crate::semantics::StateSpec;
use crate::semantics::div_wrap;
use crate::semantics::eval_cond_spec;
use crate::semantics::eval_expr_spec;

verus! {

/// Truncating integer division on the unbounded integers: the quotient of
/// the magnitudes, carrying the sign of the exact quotient.
pub open spec fn trunc_div_int(a: int, b: int) -> int
    recommends
        b != 0,
{
    if a >= 0 && b > 0 {
        a / b
    } else if a <= 0 && b < 0 {
        (-a) / (-b)
    } else if a < 0 {
        -((-a) / b)
    } else {
        -(a / (-b))
    }
}

/// `div_wrap` computes truncating division whenever the quotient is
/// representable, and the one unrepresentable quotient wraps to `i32::MIN`.
proof fn lemma_div_wrap_is_truncating(a: i32, b: i32)
    requires
        b != 0,
    ensures
        a == i32::MIN && b == -1 ==> div_wrap(a, b) == i32::MIN,
        !(a == i32::MIN && b == -1) ==> a.checked_div(b) is Some && div_wrap(a, b) as int
            == trunc_div_int(a as int, b as int),
{
    let x = a as int;
    let d = b as int;
    if !(a == i32::MIN && b == -1) {
        if x == 0 {
        } else if x > 0 && d > 0 {
            lemma_div_pos_is_pos(x, d);
            lemma_div_nonincreasing(x, d);
        } else if x < 0 && d < 0 {
            let m = -x;
            let dd = -d;
            lemma_div_pos_is_pos(m, dd);
            lemma_div_nonincreasing(m, dd);
            if dd >= 2 {
                lemma_div_is_ordered_by_denominator(m, 2, dd);
                lemma_div_is_ordered(m, 0x8000_0000, 2);
                assert(m / dd <= 0x4000_0000);
            } else {
                assert(dd == 1);
                assert(m / 1 == m);
                assert(m <= 0x7fff_ffff);
            }
        } else if x < 0 {
            let m = -x;
            lemma_div_pos_is_pos(m, d);
            lemma_div_nonincreasing(m, d);
        } else {
            let dd = -d;
            lemma_div_pos_is_pos(x, dd);
            lemma_div_nonincreasing(x, dd);
        }
    }
}

/// Division of two integer literals: a zero divisor always fails with
/// `DivisionByZero`; otherwise the result is the truncating quotient
/// `a / b`, except that the one unrepresentable quotient
/// (`i32::MIN / -1`) wraps around to `i32::MIN`. The evaluation leaves the
/// state untouched.
pub proof fn lemma_div_of_literals(fuel: nat, a: i32, b: i32, st: StateSpec, cur: int)
    requires
        fuel >= 2,
    ensures
        ({
            let e = ExprSpec::BinaryOp(
                BinOp::Div,
                Box::new(ExprSpec::Literal(ValueSpec::Int(a))),
                Box::new(ExprSpec::Literal(ValueSpec::Int(b))),
            );
            let (r, st2) = eval_expr_spec(fuel, e, st, cur);
            st2 == st && (b == 0 ==> r == Err::<ValueSpec, ErrorSpec>(ErrorSpec::DivisionByZero))
                && (b != 0 && !(a == i32::MIN && b == -1) ==> r == Ok::<ValueSpec, ErrorSpec>(
                ValueSpec::Int(div_wrap(a, b)),
            ) && div_wrap(a, b) as int == trunc_div_int(a as int, b as int)) && (a == i32::MIN && b
                == -1 ==> r == Ok::<ValueSpec, ErrorSpec>(ValueSpec::Int(i32::MIN)))
        }),
{
    reveal_with_fuel(eval_expr_spec, 3);
    if b != 0 {
        lemma_div_wrap_is_truncating(a, b);
    }
}

/// Every condition of the branch sequence evaluates, under the threaded
/// state, to `Bool(false)`.
pub open spec fn all_conds_false(
    fuel: nat,
    branches: Seq<(ExprSpec, ExprSpec)>,
    st: StateSpec,
    cur: int,
) -> bool
    decreases branches.len(),
{
    branches.len() == 0 || ({
        let (rc, st1) = eval_expr_spec(fuel, branches[0].0, st, cur);
        rc == Ok::<ValueSpec, ErrorSpec>(ValueSpec::Bool(false)) && all_conds_false(
            fuel,
            branches.drop_first(),
            st1,
            cur,
        )
    })
}

/// Branch evaluation with no condition that holds ends in
/// `NoMatchingBranch`, never in a default value.
proof fn lemma_cond_spec_no_match(
    fuel: nat,
    branches: Seq<(ExprSpec, ExprSpec)>,
    st: StateSpec,
    cur: int,
)
    requires
        all_conds_false(fuel, branches, st, cur),
    ensures
        eval_cond_spec(fuel, branches, st, cur).0 == Err::<ValueSpec, ErrorSpec>(
            ErrorSpec::NoMatchingBranch,
        ),
    decreases branches.len(),
{
    if branches.len() > 0 {
        let (rc, st1) = eval_expr_spec(fuel, branches[0].0, st, cur);
        lemma_cond_spec_no_match(fuel, branches.drop_first(), st1, cur);
    }
}

/// A `Cond` none of whose conditions holds fails with `NoMatchingBranch`,
/// never silently returning a default.
pub proof fn lemma_cond_exhaustive(
    fuel: nat,
    branches: Seq<(ExprSpec, ExprSpec)>,
    st: StateSpec,
    cur: int,
)
    requires
        fuel >= 1,
        all_conds_false((fuel - 1) as nat, branches, st, cur),
    ensures
        eval_expr_spec(fuel, ExprSpec::Cond(branches), st, cur).0 == Err::<ValueSpec, ErrorSpec>(
            ErrorSpec::NoMatchingBranch,
        ),
{
    lemma_cond_spec_no_match((fuel - 1) as nat, branches, st, cur);
}

/// Reading any name in a fresh root environment fails with
/// `UnboundIdentifier` carrying that very name, and changes nothing.
pub proof fn lemma_unbound_identifier(fuel: nat, name: Seq<char>, outv: Seq<ValueSpec>)
    requires
        fuel >= 1,
    ensures
        ({
            let st = StateSpec {
                frames: seq![FrameSpec { parent: None, binds: Seq::empty() }],
                out: outv,
            };
            eval_expr_spec(fuel, ExprSpec::Identifier(name), st, 0) == (
                Err::<ValueSpec, ErrorSpec>(ErrorSpec::UnboundIdentifier(name)),
                st,
            )
        }),
{
}

/// Applying a closure that still lacks more than one argument returns the
/// closure with the argument appended, invokes nothing, and changes
/// nothing.
pub proof fn lemma_apply_undersaturated(
    fuel: nat,
    name: Seq<char>,
    params: Seq<Seq<char>>,
    bound: Seq<ValueSpec>,
    body: Box<ExprSpec>,
    arg: ValueSpec,
    st: StateSpec,
    cur: int,
)
    requires
        fuel >= 2,
        bound.len() + 1 < params.len(),
    ensures
        ({
            let callee = ExprSpec::Literal(ValueSpec::Closure { name, params, bound, body });
            let e = ExprSpec::Apply(Box::new(callee), Box::new(ExprSpec::Literal(arg)));
            eval_expr_spec(fuel, e, st, cur) == (
                Ok::<ValueSpec, ErrorSpec>(
                    ValueSpec::Closure { name, params, bound: bound.push(arg), body },
                ),
                st,
            )
        }),
{
    reveal_with_fuel(eval_expr_spec, 3);
}

} // verus!

