use ephact::value_objects::comparison_operator::ComparisonOperator;
use ephact::value_objects::expression::Expression;
use ephact::value_objects::literal_value::LiteralValue;
use ephact::value_objects::logical_operator::LogicalOperator;

#[test]
fn expression_display_literal_bool() {
    assert_eq!(LiteralValue::Boolean(true).to_text(), "true");
    assert_eq!(LiteralValue::Boolean(false).to_text(), "false");
}

#[test]
fn expression_display_literal_null() {
    assert_eq!(LiteralValue::Null.to_text(), "null");
}

#[test]
fn expression_display_literal_int() {
    assert_eq!(LiteralValue::Integer(42).to_text(), "42");
}

#[test]
fn expression_display_literal_string() {
    assert_eq!(LiteralValue::String("hello".into()).to_text(), "'hello'");
}

#[test]
fn expression_display_variable() {
    assert_eq!(Expression::Variable("github".into()).to_text(), "github");
}

#[test]
fn expression_display_property_access() {
    let expr = Expression::PropertyAccess(
        Box::new(Expression::Variable("github".into())),
        "event_name".into(),
    );
    assert_eq!(expr.to_text(), "github.event_name");
}

#[test]
fn expression_display_func_call() {
    let expr = Expression::FunctionCall(
        "contains".into(),
        vec![
            Expression::Literal(LiteralValue::String("hello".into())),
            Expression::Literal(LiteralValue::String("ll".into())),
        ],
    );
    assert_eq!(expr.to_text(), "contains('hello', 'll')");
}

#[test]
fn expression_display_compare() {
    let expr = Expression::Comparison(
        ComparisonOperator::Equal,
        Box::new(Expression::Variable("github".into())),
        Box::new(Expression::Literal(LiteralValue::String("push".into()))),
    );
    assert_eq!(expr.to_text(), "github == 'push'");
}

#[test]
fn expression_display_logical() {
    let expr = Expression::Logical(
        LogicalOperator::And,
        Box::new(Expression::Literal(LiteralValue::Boolean(true))),
        Box::new(Expression::Literal(LiteralValue::Boolean(false))),
    );
    assert_eq!(expr.to_text(), "true && false");
}

#[test]
fn expression_display_index_access() {
    let expr = Expression::IndexAccess(
        Box::new(Expression::Variable("arr".into())),
        Box::new(Expression::Literal(LiteralValue::Integer(0))),
    );
    assert_eq!(expr.to_text(), "arr[0]");
}

#[test]
fn expression_display_array_deref() {
    let expr = Expression::ArrayDereference(Box::new(Expression::Variable("arr".into())));
    assert_eq!(expr.to_text(), "arr.*");
}

#[test]
fn expression_display_not() {
    let expr = Expression::Not(Box::new(Expression::Variable("flag".into())));
    assert_eq!(expr.to_text(), "!flag");
}
