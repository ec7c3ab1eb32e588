use scheme_parser::ast::Expr;
use scheme_parser::env::Env;
use scheme_parser::eval::eval;
use scheme_parser::lexer::{parse, tokenize, ParseError};
use scheme_parser::rat::Rat;
use scheme_parser::value::Value;

#[test]
fn tokenize_pads_parentheses() {
    assert_eq!(tokenize("(+ 1 2)"), vec!["(", "+", "1", "2", ")"]);
}

#[test]
fn tokenize_handles_whitespace() {
    assert_eq!(tokenize("  ( a\t\nbc )  "), vec!["(", "a", "bc", ")"]);
    assert_eq!(tokenize(""), Vec::<String>::new());
    assert_eq!(tokenize("   \n "), Vec::<String>::new());
}

#[test]
fn tokenize_adjacent_parens() {
    assert_eq!(tokenize("((x))"), vec!["(", "(", "x", ")", ")"]);
}

#[test]
fn parse_atom_number() {
    let mut tokens = tokenize("42");
    match parse(&mut tokens) {
        Ok(Expr::Number(x)) => {
            assert_eq!(x.num, 42);
            assert_eq!(x.den, 1);
        }
        other => panic!("expected a number, got {:?}", other),
    }
    assert!(tokens.is_empty());
}

#[test]
fn parse_decimal_and_signs() {
    let mut tokens = tokenize("-2.5");
    match parse(&mut tokens) {
        Ok(Expr::Number(x)) => {
            assert_eq!(x.num, -25);
            assert_eq!(x.den, 10);
        }
        other => panic!("expected a number, got {:?}", other),
    }
    let mut tokens = tokenize("+0.5");
    match parse(&mut tokens) {
        Ok(Expr::Number(x)) => {
            assert_eq!(x.num, 5);
            assert_eq!(x.den, 10);
        }
        other => panic!("expected a number, got {:?}", other),
    }
}

#[test]
fn parse_symbol() {
    let mut tokens = tokenize("foo-bar");
    match parse(&mut tokens) {
        Ok(Expr::Symbol(s)) => assert_eq!(s, "foo-bar"),
        other => panic!("expected a symbol, got {:?}", other),
    }
}

#[test]
fn numeral_lookalikes_are_symbols() {
    for text in ["1.2.3", "--1", "1a", ".", "-"] {
        let mut tokens = tokenize(text);
        match parse(&mut tokens) {
            Ok(Expr::Symbol(s)) => assert_eq!(s, text),
            other => panic!("expected {} to be a symbol, got {:?}", text, other),
        }
    }
}

#[test]
fn parse_nested_lists() {
    let mut tokens = tokenize("(a (b c) ())");
    let expr = parse(&mut tokens).expect("parse");
    assert!(tokens.is_empty());
    assert_eq!(expr.display_text(), "(a (b c) ())");
}

#[test]
fn parse_leaves_trailing_tokens() {
    let mut tokens = tokenize("(a) (b)");
    parse(&mut tokens).expect("parse");
    assert_eq!(tokens, vec!["(", "b", ")"]);
}

#[test]
fn parse_reports_eof() {
    let mut tokens = tokenize("(a b");
    assert!(matches!(parse(&mut tokens), Err(ParseError::UnexpectedEof)));
    let mut none: Vec<String> = Vec::new();
    assert!(matches!(parse(&mut none), Err(ParseError::UnexpectedEof)));
}

#[test]
fn parse_reports_stray_close() {
    let mut tokens = tokenize(") x");
    assert!(matches!(parse(&mut tokens), Err(ParseError::UnexpectedClose)));
}

#[test]
fn render_numbers() {
    assert_eq!(Value::Number(Rat { num: 6, den: 1 }).display_text(), "6");
    assert_eq!(Value::Number(Rat { num: -5, den: 1 }).display_text(), "-5");
    assert_eq!(Value::Number(Rat { num: 1, den: 2 }).display_text(), "0.5");
    assert_eq!(Value::Number(Rat { num: 120, den: 1 }).display_text(), "120");
    assert_eq!(Value::Number(Rat { num: -25, den: 10 }).display_text(), "-2.5");
    assert_eq!(Value::Number(Rat { num: 1, den: 40 }).display_text(), "0.025");
    // a fraction with no finite decimal expansion keeps its exact form
    assert_eq!(Value::Number(Rat { num: 1, den: 3 }).display_text(), "1/3");
    assert_eq!(Value::Number(Rat { num: 5, den: 10 }).display_text(), "0.5");
}

#[test]
fn render_other_values() {
    assert_eq!(Value::Bool(true).display_text(), "true");
    assert_eq!(Value::Bool(false).display_text(), "false");
    assert_eq!(Value::Nil.display_text(), "nil");
}

#[test]
fn render_procedure_names() {
    let mut env = Env::new();
    let plus = env.get(0, "+").expect("+ is bound");
    assert_eq!(plus.display_text(), "+");
    let mut tokens = tokenize("(define (f x) x)");
    let expr = parse(&mut tokens).expect("parse");
    let f = eval(&expr, &mut env, 0, 10).expect("define");
    assert_eq!(f.display_text(), "f");
    let mut tokens = tokenize("(lambda (x) x)");
    let expr = parse(&mut tokens).expect("parse");
    let anon = eval(&expr, &mut env, 0, 10).expect("lambda");
    assert_eq!(anon.display_text(), "");
}

#[test]
fn render_expression_round_trip() {
    let source = "(define (fact n) (if (<= n 1) 1 (* n (fact (- n 1)))))";
    let mut tokens = tokenize(source);
    let expr = parse(&mut tokens).expect("parse");
    assert_eq!(expr.display_text(), source);
}
