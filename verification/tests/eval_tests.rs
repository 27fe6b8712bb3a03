use interp::ast::BinOp;
use interp::ast::Expr;
use interp::ast::Stmt;
use interp::ast::Value;
use interp::env::Env;
use interp::errors::EvalError;
use interp::eval::run;

const FUEL: u64 = 100_000;

fn num(i: i32) -> Expr {
    Expr::Literal(Value::Int(i))
}

fn boolean(b: bool) -> Expr {
    Expr::Literal(Value::Bool(b))
}

fn ident(n: &str) -> Expr {
    Expr::Identifier(n.to_string())
}

fn bin(op: BinOp, l: Expr, r: Expr) -> Expr {
    Expr::BinaryOp(op, Box::new(l), Box::new(r))
}

fn block(stmts: Vec<Stmt>, tail: Option<Expr>) -> Expr {
    Expr::Block(stmts, tail.map(Box::new))
}

fn apply(f: Expr, a: Expr) -> Expr {
    Expr::Apply(Box::new(f), Box::new(a))
}

fn let_stmt(n: &str, e: Expr) -> Stmt {
    Stmt::Let(n.to_string(), e)
}

fn assign(n: &str, e: Expr) -> Stmt {
    Stmt::Assign(n.to_string(), e)
}

fn mismatch(context: &str, expected: &str, got: &str) -> EvalError {
    EvalError::TypeMismatch {
        context: context.to_string(),
        expected: expected.to_string(),
        got: got.to_string(),
    }
}

#[test]
fn div_truncates_toward_zero() {
    assert_eq!(run(&bin(BinOp::Div, num(7), num(2)), FUEL).0, Ok(Value::Int(3)));
    assert_eq!(run(&bin(BinOp::Div, num(-7), num(2)), FUEL).0, Ok(Value::Int(-3)));
    assert_eq!(run(&bin(BinOp::Div, num(7), num(-2)), FUEL).0, Ok(Value::Int(-3)));
    assert_eq!(run(&bin(BinOp::Div, num(-7), num(-2)), FUEL).0, Ok(Value::Int(3)));
}

#[test]
fn div_by_zero_fails() {
    assert_eq!(run(&bin(BinOp::Div, num(7), num(0)), FUEL).0, Err(EvalError::DivisionByZero));
    assert_eq!(run(&bin(BinOp::Div, num(0), num(0)), FUEL).0, Err(EvalError::DivisionByZero));
}

#[test]
fn div_min_by_minus_one_wraps() {
    assert_eq!(
        run(&bin(BinOp::Div, num(i32::MIN), num(-1)), FUEL).0,
        Ok(Value::Int(i32::MIN))
    );
}

#[test]
fn arithmetic_wraps_on_overflow() {
    assert_eq!(
        run(&bin(BinOp::Add, num(i32::MAX), num(1)), FUEL).0,
        Ok(Value::Int(i32::MIN))
    );
    assert_eq!(
        run(&bin(BinOp::Sub, num(i32::MIN), num(1)), FUEL).0,
        Ok(Value::Int(i32::MAX))
    );
}

#[test]
fn arithmetic_exact_values() {
    assert_eq!(run(&bin(BinOp::Add, num(2), num(3)), FUEL).0, Ok(Value::Int(5)));
    assert_eq!(run(&bin(BinOp::Sub, num(2), num(3)), FUEL).0, Ok(Value::Int(-1)));
    assert_eq!(run(&bin(BinOp::Mul, num(-4), num(3)), FUEL).0, Ok(Value::Int(-12)));
}

#[test]
fn comparisons_follow_integer_order() {
    assert_eq!(run(&bin(BinOp::Lt, num(1), num(2)), FUEL).0, Ok(Value::Bool(true)));
    assert_eq!(run(&bin(BinOp::LtEq, num(2), num(2)), FUEL).0, Ok(Value::Bool(true)));
    assert_eq!(run(&bin(BinOp::Gt, num(1), num(2)), FUEL).0, Ok(Value::Bool(false)));
    assert_eq!(run(&bin(BinOp::GtEq, num(1), num(2)), FUEL).0, Ok(Value::Bool(false)));
    assert_eq!(run(&bin(BinOp::Eq, num(5), num(5)), FUEL).0, Ok(Value::Bool(true)));
    assert_eq!(run(&bin(BinOp::NotEq, num(5), num(5)), FUEL).0, Ok(Value::Bool(false)));
}

#[test]
fn booleans_support_equality_only() {
    assert_eq!(
        run(&bin(BinOp::Eq, boolean(true), boolean(true)), FUEL).0,
        Ok(Value::Bool(true))
    );
    assert_eq!(
        run(&bin(BinOp::NotEq, boolean(true), boolean(false)), FUEL).0,
        Ok(Value::Bool(true))
    );
    assert_eq!(
        run(&bin(BinOp::Lt, boolean(true), boolean(false)), FUEL).0,
        Err(mismatch("<", "bool", "bool"))
    );
}

#[test]
fn mixed_operand_types_fail() {
    assert_eq!(
        run(&bin(BinOp::Add, num(1), boolean(true)), FUEL).0,
        Err(mismatch("+", "int", "bool"))
    );
    assert_eq!(
        run(&bin(BinOp::Add, boolean(true), num(1)), FUEL).0,
        Err(mismatch("+", "bool", "int"))
    );
}

#[test]
fn shadowing_inner_block_wins() {
    let program = block(
        vec![let_stmt("x", num(1))],
        Some(block(vec![let_stmt("x", num(2))], Some(ident("x")))),
    );
    assert_eq!(run(&program, FUEL).0, Ok(Value::Int(2)));
}

#[test]
fn outer_binding_unchanged_after_inner_shadow() {
    let inner = block(vec![let_stmt("x", num(2))], None);
    let program = block(
        vec![let_stmt("x", num(1)), Stmt::ExprStmt(inner)],
        Some(ident("x")),
    );
    assert_eq!(run(&program, FUEL).0, Ok(Value::Int(1)));
}

#[test]
fn assignment_updates_outer_binding_through_chain() {
    let inner = block(vec![assign("x", num(5))], None);
    let program = block(
        vec![let_stmt("x", num(0)), Stmt::ExprStmt(inner)],
        Some(ident("x")),
    );
    assert_eq!(run(&program, FUEL).0, Ok(Value::Int(5)));
}

#[test]
fn assignment_to_unbound_name_fails() {
    let program = block(vec![assign("z", num(1))], None);
    assert_eq!(
        run(&program, FUEL).0,
        Err(EvalError::UnboundIdentifier("z".to_string()))
    );
}

#[test]
fn while_loop_counts_to_five() {
    let body = block(
        vec![
            assign("x", bin(BinOp::Add, ident("x"), num(1))),
            Stmt::Print(ident("x")),
        ],
        None,
    );
    let program = block(
        vec![
            let_stmt("x", num(0)),
            Stmt::While(bin(BinOp::Lt, ident("x"), num(5)), body),
        ],
        Some(ident("x")),
    );
    let (result, printed) = run(&program, FUEL);
    assert_eq!(result, Ok(Value::Int(5)));
    // one print per iteration: exactly five iterations ran
    assert_eq!(
        printed,
        vec![Value::Int(1), Value::Int(2), Value::Int(3), Value::Int(4), Value::Int(5)]
    );
}

#[test]
fn while_condition_must_be_boolean() {
    let program = block(vec![Stmt::While(num(1), num(2))], None);
    assert_eq!(run(&program, FUEL).0, Err(mismatch("downcast", "bool", "int")));
}

#[test]
fn if_statement_runs_body_once_when_true() {
    let program = block(
        vec![
            let_stmt("x", num(0)),
            Stmt::If(boolean(true), block(vec![assign("x", num(7))], None)),
            Stmt::If(boolean(false), block(vec![assign("x", num(9))], None)),
        ],
        Some(ident("x")),
    );
    assert_eq!(run(&program, FUEL).0, Ok(Value::Int(7)));
}

fn factorial_program(arg: i32) -> Expr {
    let recursive_case = bin(
        BinOp::Mul,
        ident("n"),
        apply(ident("fact"), bin(BinOp::Sub, ident("n"), num(1))),
    );
    let body = Expr::Cond(vec![
        (bin(BinOp::LtEq, ident("n"), num(1)), num(1)),
        (boolean(true), recursive_case),
    ]);
    block(
        vec![Stmt::FnDef("fact".to_string(), vec!["n".to_string()], body)],
        Some(apply(ident("fact"), num(arg))),
    )
}

#[test]
fn recursive_factorial_of_five_is_120() {
    assert_eq!(run(&factorial_program(5), FUEL).0, Ok(Value::Int(120)));
}

#[test]
fn partial_application_returns_closure() {
    let body = bin(BinOp::Add, ident("a"), bin(BinOp::Add, ident("b"), ident("c")));
    let program = block(
        vec![Stmt::FnDef(
            "add3".to_string(),
            vec!["a".to_string(), "b".to_string(), "c".to_string()],
            body,
        )],
        Some(apply(ident("add3"), num(1))),
    );
    match run(&program, FUEL).0 {
        Ok(Value::Closure(name, params, bound, _)) => {
            assert_eq!(name, "add3");
            assert_eq!(params.len(), 3);
            assert_eq!(bound, vec![Value::Int(1)]);
        }
        other => panic!("expected an under-saturated closure, got {:?}", other),
    }
}

#[test]
fn curried_application_saturates_in_order() {
    let body = bin(
        BinOp::Sub,
        bin(BinOp::Mul, ident("a"), num(10)),
        ident("b"),
    );
    let program = block(
        vec![Stmt::FnDef(
            "f".to_string(),
            vec!["a".to_string(), "b".to_string()],
            body,
        )],
        Some(apply(apply(ident("f"), num(3)), num(4))),
    );
    assert_eq!(run(&program, FUEL).0, Ok(Value::Int(26)));
}

#[test]
fn closures_do_not_capture_surrounding_bindings() {
    // function bodies run in a parent-less frame: only the self-name and
    // the parameters are visible
    let program = block(
        vec![
            let_stmt("x", num(1)),
            Stmt::FnDef("f".to_string(), vec!["y".to_string()], ident("x")),
        ],
        Some(apply(ident("f"), num(0))),
    );
    assert_eq!(
        run(&program, FUEL).0,
        Err(EvalError::UnboundIdentifier("x".to_string()))
    );
}

#[test]
fn cond_picks_first_true_branch() {
    let program = Expr::Cond(vec![
        (boolean(false), num(1)),
        (boolean(true), num(2)),
        (boolean(true), num(3)),
    ]);
    assert_eq!(run(&program, FUEL).0, Ok(Value::Int(2)));
}

#[test]
fn cond_with_no_matching_branch_fails() {
    let program = Expr::Cond(vec![(boolean(false), num(1)), (boolean(false), num(2))]);
    assert_eq!(run(&program, FUEL).0, Err(EvalError::NoMatchingBranch));
    let empty = Expr::Cond(vec![]);
    assert_eq!(run(&empty, FUEL).0, Err(EvalError::NoMatchingBranch));
}

#[test]
fn cond_condition_must_be_boolean() {
    let program = Expr::Cond(vec![(num(1), num(2))]);
    assert_eq!(run(&program, FUEL).0, Err(mismatch("downcast", "bool", "int")));
}

#[test]
fn unbound_identifier_in_empty_root_fails() {
    assert_eq!(
        run(&ident("never_defined"), FUEL).0,
        Err(EvalError::UnboundIdentifier("never_defined".to_string()))
    );
}

#[test]
fn apply_on_non_function_fails() {
    assert_eq!(
        run(&apply(num(1), num(2)), FUEL).0,
        Err(EvalError::NotCallable("int".to_string()))
    );
    assert_eq!(
        run(&apply(boolean(true), num(2)), FUEL).0,
        Err(EvalError::NotCallable("bool".to_string()))
    );
}

#[test]
fn block_without_tail_yields_zero() {
    assert_eq!(run(&block(vec![], None), FUEL).0, Ok(Value::Int(0)));
}

#[test]
fn print_emits_one_value_per_statement() {
    let program = block(
        vec![Stmt::Print(num(42)), Stmt::Print(boolean(true))],
        None,
    );
    let (result, printed) = run(&program, FUEL);
    assert_eq!(result, Ok(Value::Int(0)));
    assert_eq!(printed, vec![Value::Int(42), Value::Bool(true)]);
}

#[test]
fn fuel_exhaustion_reports_recursion_limit() {
    assert_eq!(run(&num(1), 0).0, Err(EvalError::RecursionLimitExceeded));
    // unbounded recursion runs out of any finite budget
    let body = apply(ident("g"), ident("n"));
    let program = block(
        vec![Stmt::FnDef("g".to_string(), vec!["n".to_string()], body)],
        Some(apply(ident("g"), num(0))),
    );
    assert_eq!(run(&program, 1_000).0, Err(EvalError::RecursionLimitExceeded));
}

#[test]
fn operands_evaluate_left_to_right() {
    // both sides print, left first, before the operator combines them
    let left = block(vec![Stmt::Print(num(1))], Some(num(10)));
    let right = block(vec![Stmt::Print(num(2))], Some(num(20)));
    let (result, printed) = run(&bin(BinOp::Add, left, right), FUEL);
    assert_eq!(result, Ok(Value::Int(30)));
    assert_eq!(printed, vec![Value::Int(1), Value::Int(2)]);
}

#[test]
fn typename_names_each_kind() {
    assert_eq!(Value::Int(1).typename(), "int");
    assert_eq!(Value::Bool(true).typename(), "bool");
    let f = Value::Closure("f".to_string(), vec!["x".to_string()], vec![], Box::new(num(1)));
    assert_eq!(f.typename(), "fn");
}

#[test]
fn downcast_bool_extracts_or_fails() {
    assert_eq!(Value::Bool(true).downcast_bool(), Ok(true));
    assert_eq!(Value::Bool(false).downcast_bool(), Ok(false));
    assert_eq!(
        Value::Int(3).downcast_bool(),
        Err(mismatch("downcast", "bool", "int"))
    );
}

#[test]
fn binop_symbols() {
    assert_eq!(BinOp::Add.symbol(), "+");
    assert_eq!(BinOp::Sub.symbol(), "-");
    assert_eq!(BinOp::Mul.symbol(), "*");
    assert_eq!(BinOp::Div.symbol(), "/");
    assert_eq!(BinOp::Eq.symbol(), "==");
    assert_eq!(BinOp::NotEq.symbol(), "!=");
    assert_eq!(BinOp::Lt.symbol(), "<");
    assert_eq!(BinOp::LtEq.symbol(), "<=");
    assert_eq!(BinOp::Gt.symbol(), ">");
    assert_eq!(BinOp::GtEq.symbol(), ">=");
}

#[test]
fn binop_eval_directly() {
    assert_eq!(BinOp::Add.eval(Value::Int(2), Value::Int(2)), Ok(Value::Int(4)));
    assert_eq!(
        BinOp::Div.eval(Value::Int(9), Value::Int(0)),
        Err(EvalError::DivisionByZero)
    );
}

#[test]
fn environment_set_get_and_assign() {
    let mut env = Env::new();
    let x = "x".to_string();
    let y = "y".to_string();
    assert!(env.get(0, &x).is_none());
    env.set(0, &x, Value::Int(1));
    assert_eq!(env.get(0, &x), Some(&Value::Int(1)));
    // overwrite in place
    env.set(0, &x, Value::Int(2));
    assert_eq!(env.get(0, &x), Some(&Value::Int(2)));
    // assignment only touches existing bindings
    assert!(env.assign(0, &x, Value::Int(3)));
    assert_eq!(env.get(0, &x), Some(&Value::Int(3)));
    assert!(!env.assign(0, &y, Value::Int(9)));
    assert!(env.get(0, &y).is_none());
}

#[test]
fn environment_chain_lookup_and_frames() {
    let mut env = Env::new();
    let x = "x".to_string();
    env.set(0, &x, Value::Int(1));
    let child = env.push_frame(Some(0));
    assert_eq!(env.frame_count(), 2);
    // inner frame sees the outer binding
    assert_eq!(env.get(child, &x), Some(&Value::Int(1)));
    // shadowing in the child frame hides, assignment through the chain
    // mutates the outer binding
    env.set(child, &x, Value::Int(2));
    assert_eq!(env.get(child, &x), Some(&Value::Int(2)));
    assert_eq!(env.get(0, &x), Some(&Value::Int(1)));
    env.pop_frame();
    assert_eq!(env.frame_count(), 1);
    assert_eq!(env.get(0, &x), Some(&Value::Int(1)));
}

#[test]
fn eval_against_explicit_environment() {
    let mut env = Env::new();
    let mut printed: Vec<Value> = Vec::new();
    let x = "x".to_string();
    env.set(0, &x, Value::Int(41));
    let e = bin(BinOp::Add, ident("x"), num(1));
    let result = e.eval(&mut env, 0, FUEL, &mut printed);
    assert_eq!(result, Ok(Value::Int(42)));
    assert!(printed.is_empty());
}
