use ephact::expression::expr::{CompareOp, Expr, Literal, LogicalOp};

#[test]
fn expr_display_literal_bool() {
    assert_eq!(Literal::Bool(true).to_text(), "true");
    assert_eq!(Literal::Bool(false).to_text(), "false");
}

#[test]
fn expr_display_literal_null() {
    assert_eq!(Literal::Null.to_text(), "null");
}

#[test]
fn expr_display_literal_int() {
    assert_eq!(Literal::Int(42).to_text(), "42");
}

#[test]
fn expr_display_literal_string() {
    assert_eq!(Literal::String("hello".into()).to_text(), "'hello'");
}

#[test]
fn expr_display_variable() {
    assert_eq!(Expr::Variable("github".into()).to_text(), "github");
}

#[test]
fn expr_display_property_access() {
    let expr = Expr::PropertyAccess(
        Box::new(Expr::Variable("github".into())),
        "event_name".into(),
    );
    assert_eq!(expr.to_text(), "github.event_name");
}

#[test]
fn expr_display_func_call() {
    let expr = Expr::FuncCall(
        "contains".into(),
        vec![
            Expr::Literal(Literal::String("hello".into())),
            Expr::Literal(Literal::String("ll".into())),
        ],
    );
    assert_eq!(expr.to_text(), "contains('hello', 'll')");
}

#[test]
fn expr_display_compare() {
    let expr = Expr::Compare(
        CompareOp::Eq,
        Box::new(Expr::Variable("github".into())),
        Box::new(Expr::Literal(Literal::String("push".into()))),
    );
    assert_eq!(expr.to_text(), "github == 'push'");
}

#[test]
fn expr_display_logical() {
    let expr = Expr::Logical(
        LogicalOp::And,
        Box::new(Expr::Literal(Literal::Bool(true))),
        Box::new(Expr::Literal(Literal::Bool(false))),
    );
    assert_eq!(expr.to_text(), "true && false");
}

#[test]
fn expr_display_index_access() {
    let expr = Expr::IndexAccess(
        Box::new(Expr::Variable("arr".into())),
        Box::new(Expr::Literal(Literal::Int(0))),
    );
    assert_eq!(expr.to_text(), "arr[0]");
}

#[test]
fn expr_display_array_deref() {
    let expr = Expr::ArrayDeref(Box::new(Expr::Variable("arr".into())));
    assert_eq!(expr.to_text(), "arr.*");
}

#[test]
fn expr_display_not() {
    let expr = Expr::Not(Box::new(Expr::Variable("flag".into())));
    assert_eq!(expr.to_text(), "!flag");
}
