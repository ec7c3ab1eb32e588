use scheme_parser::ast::Expr;
use scheme_parser::env::Env;
use scheme_parser::eval::{eval, EvalError, SyntaxErrorDesc};
use scheme_parser::lexer::{parse, tokenize};
use scheme_parser::value::{Value, ValueKind};

const FUEL: u64 = 1_000_000;

fn run(env: &mut Env, src: &str) -> Result<Value, EvalError> {
    let mut tokens = tokenize(src);
    let expr = parse(&mut tokens).expect("program should parse");
    eval(&expr, env, 0, FUEL)
}

fn run_fresh(src: &str) -> Result<Value, EvalError> {
    let mut env = Env::new();
    run(&mut env, src)
}

fn expect_number(r: Result<Value, EvalError>) -> (i64, i64) {
    match r {
        Ok(Value::Number(x)) => (x.num, x.den),
        other => panic!("expected a number, got {:?}", other),
    }
}

fn expect_bool(r: Result<Value, EvalError>) -> bool {
    match r {
        Ok(Value::Bool(b)) => b,
        other => panic!("expected a boolean, got {:?}", other),
    }
}

fn assert_number_eq(r: Result<Value, EvalError>, num: i64, den: i64) {
    let (n, d) = expect_number(r);
    // equal as rationals: cross multiplication
    assert_eq!((n as i128) * (den as i128), (num as i128) * (d as i128));
}

#[test]
fn arithmetic_identity_sum_empty() {
    assert_number_eq(run_fresh("(+)"), 0, 1);
}

#[test]
fn arithmetic_identity_sum() {
    assert_number_eq(run_fresh("(+ 1 2 3)"), 6, 1);
}

#[test]
fn arithmetic_identity_negation() {
    assert_number_eq(run_fresh("(- 5)"), -5, 1);
}

#[test]
fn arithmetic_identity_subtraction() {
    assert_number_eq(run_fresh("(- 10 1 2)"), 7, 1);
}

#[test]
fn arithmetic_identity_reciprocal() {
    // (/ 2) is one half
    assert_number_eq(run_fresh("(/ 2)"), 1, 2);
}

#[test]
fn arithmetic_identity_division() {
    assert_number_eq(run_fresh("(/ 8 2 2)"), 2, 1);
}

#[test]
fn arithmetic_product() {
    assert_number_eq(run_fresh("(* 2 3 4)"), 24, 1);
}

#[test]
fn product_requires_two_arguments() {
    match run_fresh("(* 2)") {
        Err(EvalError::ArityMismatch { expected: 2, found: 1, .. }) => {}
        other => panic!("expected an arity mismatch, got {:?}", other),
    }
}

#[test]
fn fractional_literals() {
    assert_number_eq(run_fresh("(+ 0.5 0.25)"), 3, 4);
    assert_number_eq(run_fresh("(* 0.5 4)"), 2, 1);
}

#[test]
fn comparison_totality_on_samples() {
    // for each pair exactly one of <, =, > answers true
    let pairs = [("1", "2"), ("2", "2"), ("3", "2"), ("-1", "0.5"), ("0.5", "0.5")];
    for (a, b) in pairs.iter() {
        let lt = expect_bool(run_fresh(&format!("(< {} {})", a, b)));
        let eq = expect_bool(run_fresh(&format!("(= {} {})", a, b)));
        let gt = expect_bool(run_fresh(&format!("(> {} {})", a, b)));
        let ne = expect_bool(run_fresh(&format!("(!= {} {})", a, b)));
        assert_eq!(1, [lt, eq, gt].iter().filter(|x| **x).count());
        assert_eq!(ne, !eq);
    }
}

#[test]
fn comparison_le_ge() {
    assert!(expect_bool(run_fresh("(<= 2 2)")));
    assert!(expect_bool(run_fresh("(>= 2 2)")));
    assert!(!expect_bool(run_fresh("(>= 1 2)")));
    assert!(expect_bool(run_fresh("(<= 1 2)")));
}

#[test]
fn scoping_isolation() {
    let mut env = Env::new();
    run(&mut env, "(define (f x) (define y 1) (+ x y))").expect("define should succeed");
    assert_number_eq(run(&mut env, "(f 5)"), 6, 1);
    // the local define of y must not leak into the top level
    match run(&mut env, "y") {
        Err(EvalError::UnboundSymbol(name)) => assert_eq!(name, "y"),
        other => panic!("expected y to be unbound, got {:?}", other),
    }
}

#[test]
fn closure_capture() {
    let mut env = Env::new();
    run(&mut env, "(define (make-adder n) (lambda (x) (+ x n)))").expect("define");
    run(&mut env, "(define add5 (make-adder 5))").expect("define");
    assert_number_eq(run(&mut env, "(add5 10)"), 15, 1);
}

#[test]
fn self_recursion_factorial() {
    let mut env = Env::new();
    run(&mut env, "(define (fact n) (if (<= n 1) 1 (* n (fact (- n 1)))))").expect("define");
    assert_number_eq(run(&mut env, "(fact 5)"), 120, 1);
}

#[test]
fn and_short_circuits() {
    assert!(!expect_bool(run_fresh("(and false undefined-symbol)")));
}

#[test]
fn or_short_circuits() {
    assert!(expect_bool(run_fresh("(or true undefined-symbol)")));
}

#[test]
fn and_or_full_evaluation() {
    assert!(expect_bool(run_fresh("(and true true true)")));
    assert!(!expect_bool(run_fresh("(or false false)")));
    assert!(!expect_bool(run_fresh("(and true false undefined-symbol)")));
}

#[test]
fn not_negates() {
    assert!(!expect_bool(run_fresh("(not true)")));
    assert!(expect_bool(run_fresh("(not false)")));
}

#[test]
fn arity_error_on_comparison() {
    match run_fresh("(< 1)") {
        Err(EvalError::ArityMismatch { expected: 2, found: 1, .. }) => {}
        other => panic!("expected an arity mismatch, got {:?}", other),
    }
}

#[test]
fn type_error_on_sum() {
    match run_fresh("(+ 1 true)") {
        Err(EvalError::TypeError { expected: ValueKind::Number, .. }) => {}
        other => panic!("expected a type error, got {:?}", other),
    }
}

#[test]
fn arity_error_on_closure_call() {
    let mut env = Env::new();
    run(&mut env, "(define (g a b) (+ a b))").expect("define");
    match run(&mut env, "(g 1)") {
        Err(EvalError::ArityMismatch { expected: 2, found: 1, .. }) => {}
        other => panic!("expected an arity mismatch, got {:?}", other),
    }
}

#[test]
fn cond_without_match_fails() {
    match run_fresh("(cond ((> 1 2) 1) ((> 1 3) 2))") {
        Err(EvalError::InvalidSyntax { desc: SyntaxErrorDesc::CondNoMatch, .. }) => {}
        other => panic!("expected the no-matching-clause failure, got {:?}", other),
    }
}

#[test]
fn cond_with_else_never_misses() {
    assert_number_eq(run_fresh("(cond ((> 1 2) 1) (else 42))"), 42, 1);
    assert_number_eq(run_fresh("(cond ((< 1 2) 7) (else 42))"), 7, 1);
}

#[test]
fn cond_selects_first_true_clause() {
    assert_number_eq(run_fresh("(cond ((< 2 1) 1) ((< 1 2) 2) (else 3))"), 2, 1);
}

#[test]
fn cond_non_bool_test_is_type_error() {
    match run_fresh("(cond (1 2) (else 3))") {
        Err(EvalError::TypeError { expected: ValueKind::Bool, .. }) => {}
        other => panic!("expected a type error, got {:?}", other),
    }
}

#[test]
fn if_selects_branches() {
    assert_number_eq(run_fresh("(if (< 1 2) 10 20)"), 10, 1);
    assert_number_eq(run_fresh("(if (> 1 2) 10 20)"), 20, 1);
}

#[test]
fn if_untaken_branch_not_evaluated() {
    assert_number_eq(run_fresh("(if true 1 undefined-symbol)"), 1, 1);
    assert_number_eq(run_fresh("(if false undefined-symbol 2)"), 2, 1);
}

#[test]
fn define_returns_value_and_binds() {
    let mut env = Env::new();
    assert_number_eq(run(&mut env, "(define x 3)"), 3, 1);
    assert_number_eq(run(&mut env, "(+ x x)"), 6, 1);
    assert_number_eq(run(&mut env, "(define x 4)"), 4, 1);
    assert_number_eq(run(&mut env, "x"), 4, 1);
}

#[test]
fn empty_list_is_nil() {
    match run_fresh("()") {
        Ok(Value::Nil) => {}
        other => panic!("expected nil, got {:?}", other),
    }
}

#[test]
fn unbound_symbol_reported() {
    match run_fresh("nowhere") {
        Err(EvalError::UnboundSymbol(name)) => assert_eq!(name, "nowhere"),
        other => panic!("expected an unbound symbol, got {:?}", other),
    }
}

#[test]
fn calling_a_number_is_a_type_error() {
    match run_fresh("(1 2 3)") {
        Err(EvalError::TypeError { expected: ValueKind::Function, .. }) => {}
        other => panic!("expected a type error, got {:?}", other),
    }
}

#[test]
fn define_wrong_shape_is_invalid_syntax() {
    match run_fresh("(define)") {
        Err(EvalError::InvalidSyntax { desc: SyntaxErrorDesc::DefineArity, .. }) => {}
        other => panic!("expected invalid syntax, got {:?}", other),
    }
    match run_fresh("(define 1 2)") {
        Err(EvalError::InvalidSyntax { desc: SyntaxErrorDesc::DefineTarget, .. }) => {}
        other => panic!("expected invalid syntax, got {:?}", other),
    }
    match run_fresh("(define (f 1) 2)") {
        Err(EvalError::InvalidSyntax { desc: SyntaxErrorDesc::DefineParamSymbol, .. }) => {}
        other => panic!("expected invalid syntax, got {:?}", other),
    }
}

#[test]
fn lambda_applies_anonymously() {
    assert_number_eq(run_fresh("((lambda (x y) (+ x y)) 3 4)"), 7, 1);
}

#[test]
fn lambda_wrong_shape_is_invalid_syntax() {
    match run_fresh("(lambda x 1)") {
        Err(EvalError::InvalidSyntax { desc: SyntaxErrorDesc::LambdaParamList, .. }) => {}
        other => panic!("expected invalid syntax, got {:?}", other),
    }
}

#[test]
fn division_by_zero_is_reported() {
    match run_fresh("(/ 1 0)") {
        Err(EvalError::OtherError(msg)) => assert_eq!(msg, "division by zero"),
        other => panic!("expected a division failure, got {:?}", other),
    }
}

#[test]
fn numeric_overflow_is_reported() {
    let mut env = Env::new();
    run(&mut env, "(define big 9223372036854775807)").expect("define");
    match run(&mut env, "(+ big big)") {
        Err(EvalError::OtherError(msg)) => assert_eq!(msg, "numeric overflow"),
        other => panic!("expected an overflow failure, got {:?}", other),
    }
}

#[test]
fn recursion_limit_is_reported() {
    let mut env = Env::new();
    run(&mut env, "(define (loop n) (loop n))").expect("define");
    let mut tokens = tokenize("(loop 1)");
    let expr = parse(&mut tokens).expect("parse");
    match eval(&expr, &mut env, 0, 100) {
        Err(EvalError::OtherError(msg)) => assert_eq!(msg, "recursion limit exceeded"),
        other => panic!("expected the recursion limit, got {:?}", other),
    }
}

#[test]
fn builtins_are_values() {
    let mut env = Env::new();
    run(&mut env, "(define plus +)").expect("define");
    assert_number_eq(run(&mut env, "(plus 1 2)"), 3, 1);
}

#[test]
fn shadowing_in_inner_scope() {
    let mut env = Env::new();
    run(&mut env, "(define x 1)").expect("define");
    run(&mut env, "(define (f x) (+ x 10))").expect("define");
    assert_number_eq(run(&mut env, "(f 5)"), 15, 1);
    assert_number_eq(run(&mut env, "x"), 1, 1);
}

#[test]
fn env_get_walks_parent_chain() {
    let mut env = Env::new();
    env.define(0, "a", Value::Bool(true));
    let child = env.new_child(0);
    match env.get(child, "a") {
        Some(Value::Bool(true)) => {}
        other => panic!("expected the parent binding, got {:?}", other),
    }
    env.define(child, "a", Value::Bool(false));
    match env.get(child, "a") {
        Some(Value::Bool(false)) => {}
        other => panic!("expected the child binding to win, got {:?}", other),
    }
    match env.get(0, "a") {
        Some(Value::Bool(true)) => {}
        other => panic!("expected the parent binding untouched, got {:?}", other),
    }
}

#[test]
fn expr_deep_clone() {
    let mut tokens = tokenize("(a (b 1) 2.5)");
    let expr = parse(&mut tokens).expect("parse");
    let copy = expr.clone();
    assert_eq!(copy.display_text(), expr.display_text());
}

#[test]
fn define_fn_body_forms_run_in_order() {
    let mut env = Env::new();
    run(&mut env, "(define (h x) (define a 1) (define b 2) (+ x a b))").expect("define");
    assert_number_eq(run(&mut env, "(h 10)"), 13, 1);
}

#[test]
fn closures_see_later_outer_definitions() {
    // frames link to their parents, so a lookup made inside a call
    // sees bindings added to the outer frame after the closure was made
    let mut env = Env::new();
    run(&mut env, "(define (f) later)").expect("define");
    run(&mut env, "(define later 9)").expect("define");
    assert_number_eq(run(&mut env, "(f)"), 9, 1);
}

#[test]
fn nested_closures_chain_scopes() {
    let mut env = Env::new();
    run(&mut env, "(define (outer a) (define (inner b) (+ a b)) (inner 10))").expect("define");
    assert_number_eq(run(&mut env, "(outer 5)"), 15, 1);
}

#[test]
fn negative_and_fractional_arithmetic() {
    assert_number_eq(run_fresh("(+ -2 0.5)"), -3, 2);
    assert_number_eq(run_fresh("(- 0.5 2)"), -3, 2);
    assert_number_eq(run_fresh("(/ 1 3)"), 1, 3);
    assert!(expect_bool(run_fresh("(= (/ 1 3) (/ 2 6))")));
}
