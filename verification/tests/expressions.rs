//! Tests of the expression grammar: precedence, negation, parentheses,
//! relational suffixes and recognized spans.
use kconfig_parser::{parse_expr, Condition, Expr, Expression, VarType};

fn var(s: &str) -> Expr {
    Expr::Var(VarType::Str(String::from(s)))
}

#[test]
fn and_binds_tighter_than_or() {
    let (e, end) = parse_expr("A || B && C", 0).unwrap();
    assert_eq!(end, 11);
    assert_eq!(
        e,
        Expr::Or(Box::new(var("A")), Box::new(Expr::And(Box::new(var("B")), Box::new(var("C")))))
    );
}

#[test]
fn not_binds_tightest() {
    let (e, _) = parse_expr("!A && B", 0).unwrap();
    assert_eq!(
        e,
        Expr::And(Box::new(Expr::Not(Box::new(var("A")))), Box::new(var("B")))
    );
}

#[test]
fn parentheses_group() {
    let (e, _) = parse_expr("(A || B) && C", 0).unwrap();
    assert_eq!(
        e,
        Expr::And(
            Box::new(Expr::Or(Box::new(var("A")), Box::new(var("B")))),
            Box::new(var("C"))
        )
    );
}

#[test]
fn double_negation_is_right_recursive() {
    let (e, _) = parse_expr("!!A", 0).unwrap();
    assert_eq!(e, Expr::Not(Box::new(Expr::Not(Box::new(var("A"))))));
}

#[test]
fn relational_suffix_stays_in_var_span() {
    let (e, end) = parse_expr("X >= 0x5", 0).unwrap();
    assert_eq!(end, 8);
    assert_eq!(e, var("X >= 0x5"));
}

#[test]
fn state_suffix_stays_in_var_span() {
    let (e, _) = parse_expr("FOO=y", 0).unwrap();
    assert_eq!(e, var("FOO=y"));
}

#[test]
fn macro_call_span_is_balanced() {
    let (e, end) = parse_expr("$(foo,$(bar))", 0).unwrap();
    assert_eq!(end, 13);
    assert_eq!(e, var("$(foo,$(bar))"));
}

#[test]
fn expression_keeps_raw_span() {
    let (e, end) = Expression::parse("A && B if C", 0).unwrap();
    assert_eq!(e.val, "A && B");
    assert_eq!(end, 6);
}

#[test]
fn condition_requires_if() {
    let (c, end) = Condition::parse(" if BAR", 0).unwrap();
    assert_eq!(c.expression.val, "BAR");
    assert_eq!(end, 7);
    assert!(Condition::parse(" BAR", 0).is_none());
}

#[test]
fn expression_spanning_escaped_newline() {
    let (e, end) = Expression::parse("A &&\\\nB", 0).unwrap();
    assert_eq!(e.val, "A &&\\\nB");
    assert_eq!(end, 7);
}
