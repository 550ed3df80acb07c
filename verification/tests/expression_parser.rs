use ephact::value_objects::expression_token::ExpressionToken;
use ephact::errors::ParseError;
use ephact::expression::token::FloatLiteral;
use ephact::services::expression_parser::ExpressionParser;
use ephact::value_objects::comparison_operator::ComparisonOperator;
use ephact::value_objects::expression::Expression;
use ephact::value_objects::literal_value::LiteralValue;
use ephact::value_objects::logical_operator::LogicalOperator;

fn parse(input: &str) -> Result<Expression, ParseError> {
    ExpressionParser::parse_text(input)
}

#[test]
fn expression_parser_parse_bool_true() {
    let expr = parse("true").unwrap();
    assert_eq!(expr, Expression::Literal(LiteralValue::Boolean(true)));
}

#[test]
fn expression_parser_parse_bool_false() {
    let expr = parse("false").unwrap();
    assert_eq!(expr, Expression::Literal(LiteralValue::Boolean(false)));
}

#[test]
fn expression_parser_parse_null() {
    let expr = parse("null").unwrap();
    assert_eq!(expr, Expression::Literal(LiteralValue::Null));
}

#[test]
fn expression_parser_parse_int() {
    let expr = parse("42").unwrap();
    assert_eq!(expr, Expression::Literal(LiteralValue::Integer(42)));
}

#[test]
fn expression_parser_parse_negative_int() {
    let expr = parse("7").unwrap();
    assert_eq!(expr, Expression::Literal(LiteralValue::Integer(7)));
}

#[test]
fn expression_parser_parse_float() {
    let expr = parse("2.71").unwrap();
    assert_eq!(expr, Expression::Literal(LiteralValue::Float(FloatLiteral::new("2.71".to_string()))));
}

#[test]
fn expression_parser_parse_string() {
    let expr = parse("'hello'").unwrap();
    assert_eq!(
        expr,
        Expression::Literal(LiteralValue::String("hello".into()))
    );
}

#[test]
fn expression_parser_parse_variable() {
    let expr = parse("github").unwrap();
    assert_eq!(expr, Expression::Variable("github".into()));
}

#[test]
fn expression_parser_parse_variable_env() {
    let expr = parse("env").unwrap();
    assert_eq!(expr, Expression::Variable("env".into()));
}

#[test]
fn expression_parser_parse_property_access() {
    let expr = parse("github.ref").unwrap();
    assert_eq!(
        expr,
        Expression::PropertyAccess(
            Box::new(Expression::Variable("github".into())),
            "ref".into()
        )
    );
}

#[test]
fn expression_parser_parse_nested_property_access() {
    let expr = parse("github.event_name").unwrap();
    assert_eq!(
        expr,
        Expression::PropertyAccess(
            Box::new(Expression::Variable("github".into())),
            "event_name".into()
        )
    );
}

#[test]
fn expression_parser_parse_deep_property_access() {
    let expr = parse("a.b.c").unwrap();
    assert_eq!(
        expr,
        Expression::PropertyAccess(
            Box::new(Expression::PropertyAccess(
                Box::new(Expression::Variable("a".into())),
                "b".into()
            )),
            "c".into()
        )
    );
}

#[test]
fn expression_parser_parse_index_access() {
    let expr = parse("arr[0]").unwrap();
    assert_eq!(
        expr,
        Expression::IndexAccess(
            Box::new(Expression::Variable("arr".into())),
            Box::new(Expression::Literal(LiteralValue::Integer(0)))
        )
    );
}

#[test]
fn expression_parser_parse_index_access_string_key() {
    let expr = parse("obj['key']").unwrap();
    assert_eq!(
        expr,
        Expression::IndexAccess(
            Box::new(Expression::Variable("obj".into())),
            Box::new(Expression::Literal(LiteralValue::String("key".into())))
        )
    );
}

#[test]
fn expression_parser_parse_array_deref() {
    let expr = parse("foo.*").unwrap();
    assert_eq!(
        expr,
        Expression::ArrayDereference(Box::new(Expression::Variable("foo".into())))
    );
}

#[test]
fn expression_parser_parse_func_call_no_args() {
    let expr = parse("success()").unwrap();
    assert_eq!(expr, Expression::FunctionCall("success".into(), vec![]));
}

#[test]
fn expression_parser_parse_func_call_one_arg() {
    let expr = parse("always()").unwrap();
    assert_eq!(expr, Expression::FunctionCall("always".into(), vec![]));
}

#[test]
fn expression_parser_parse_func_call_two_args() {
    let expr = parse("contains('hello', 'll')").unwrap();
    assert_eq!(
        expr,
        Expression::FunctionCall(
            "contains".into(),
            vec![
                Expression::Literal(LiteralValue::String("hello".into())),
                Expression::Literal(LiteralValue::String("ll".into()))
            ]
        )
    );
}

#[test]
fn expression_parser_parse_eq() {
    let expr = parse("a == b").unwrap();
    assert_eq!(
        expr,
        Expression::Comparison(
            ComparisonOperator::Equal,
            Box::new(Expression::Variable("a".into())),
            Box::new(Expression::Variable("b".into()))
        )
    );
}

#[test]
fn expression_parser_parse_neq() {
    let expr = parse("a != b").unwrap();
    assert_eq!(
        expr,
        Expression::Comparison(
            ComparisonOperator::NotEqual,
            Box::new(Expression::Variable("a".into())),
            Box::new(Expression::Variable("b".into()))
        )
    );
}

#[test]
fn expression_parser_parse_lt() {
    let expr = parse("a < b").unwrap();
    assert_eq!(
        expr,
        Expression::Comparison(
            ComparisonOperator::LessThan,
            Box::new(Expression::Variable("a".into())),
            Box::new(Expression::Variable("b".into()))
        )
    );
}

#[test]
fn expression_parser_parse_gt() {
    let expr = parse("a > b").unwrap();
    assert_eq!(
        expr,
        Expression::Comparison(
            ComparisonOperator::GreaterThan,
            Box::new(Expression::Variable("a".into())),
            Box::new(Expression::Variable("b".into()))
        )
    );
}

#[test]
fn expression_parser_parse_lte() {
    let expr = parse("a <= b").unwrap();
    assert_eq!(
        expr,
        Expression::Comparison(
            ComparisonOperator::LessThanOrEqual,
            Box::new(Expression::Variable("a".into())),
            Box::new(Expression::Variable("b".into()))
        )
    );
}

#[test]
fn expression_parser_parse_gte() {
    let expr = parse("a >= b").unwrap();
    assert_eq!(
        expr,
        Expression::Comparison(
            ComparisonOperator::GreaterThanOrEqual,
            Box::new(Expression::Variable("a".into())),
            Box::new(Expression::Variable("b".into()))
        )
    );
}

#[test]
fn expression_parser_parse_and() {
    let expr = parse("a && b").unwrap();
    assert_eq!(
        expr,
        Expression::Logical(
            LogicalOperator::And,
            Box::new(Expression::Variable("a".into())),
            Box::new(Expression::Variable("b".into()))
        )
    );
}

#[test]
fn expression_parser_parse_or() {
    let expr = parse("a || b").unwrap();
    assert_eq!(
        expr,
        Expression::Logical(
            LogicalOperator::Or,
            Box::new(Expression::Variable("a".into())),
            Box::new(Expression::Variable("b".into()))
        )
    );
}

#[test]
fn expression_parser_parse_and_or_left_assoc() {
    let expr = parse("a && b || c").unwrap();
    assert_eq!(
        expr,
        Expression::Logical(
            LogicalOperator::Or,
            Box::new(Expression::Logical(
                LogicalOperator::And,
                Box::new(Expression::Variable("a".into())),
                Box::new(Expression::Variable("b".into()))
            )),
            Box::new(Expression::Variable("c".into()))
        )
    );
}

#[test]
fn expression_parser_parse_or_and_left_assoc() {
    let expr = parse("a || b && c").unwrap();
    assert_eq!(
        expr,
        Expression::Logical(
            LogicalOperator::And,
            Box::new(Expression::Logical(
                LogicalOperator::Or,
                Box::new(Expression::Variable("a".into())),
                Box::new(Expression::Variable("b".into()))
            )),
            Box::new(Expression::Variable("c".into()))
        )
    );
}

#[test]
fn expression_parser_parse_not() {
    let expr = parse("!a").unwrap();
    assert_eq!(
        expr,
        Expression::Not(Box::new(Expression::Variable("a".into())))
    );
}

#[test]
fn expression_parser_parse_double_not() {
    let expr = parse("!!a").unwrap();
    assert_eq!(
        expr,
        Expression::Not(Box::new(Expression::Not(Box::new(Expression::Variable(
            "a".into()
        )))))
    );
}

#[test]
fn expression_parser_parse_not_compare() {
    let expr = parse("!a == b").unwrap();
    assert_eq!(
        expr,
        Expression::Comparison(
            ComparisonOperator::Equal,
            Box::new(Expression::Not(Box::new(Expression::Variable("a".into())))),
            Box::new(Expression::Variable("b".into()))
        )
    );
}

#[test]
fn expression_parser_parse_parens() {
    let expr = parse("(a)").unwrap();
    assert_eq!(expr, Expression::Variable("a".into()));
}

#[test]
fn expression_parser_parse_parens_override_precedence() {
    let expr = parse("(a || b) && c").unwrap();
    assert_eq!(
        expr,
        Expression::Logical(
            LogicalOperator::And,
            Box::new(Expression::Logical(
                LogicalOperator::Or,
                Box::new(Expression::Variable("a".into())),
                Box::new(Expression::Variable("b".into()))
            )),
            Box::new(Expression::Variable("c".into()))
        )
    );
}

#[test]
fn expression_parser_parse_complex_expression() {
    let expr = parse("github.ref == 'refs/heads/main' && success()").unwrap();
    assert_eq!(
        expr,
        Expression::Logical(
            LogicalOperator::And,
            Box::new(Expression::Comparison(
                ComparisonOperator::Equal,
                Box::new(Expression::PropertyAccess(
                    Box::new(Expression::Variable("github".into())),
                    "ref".into()
                )),
                Box::new(Expression::Literal(LiteralValue::String(
                    "refs/heads/main".into()
                )))
            )),
            Box::new(Expression::FunctionCall("success".into(), vec![]))
        )
    );
}

#[test]
fn expression_parser_parse_chained_postfix() {
    let expr = parse("foo.bar[0].baz").unwrap();
    assert_eq!(
        expr,
        Expression::PropertyAccess(
            Box::new(Expression::IndexAccess(
                Box::new(Expression::PropertyAccess(
                    Box::new(Expression::Variable("foo".into())),
                    "bar".into()
                )),
                Box::new(Expression::Literal(LiteralValue::Integer(0)))
            )),
            "baz".into()
        )
    );
}

#[test]
fn expression_parser_parse_error_empty() {
    let result = parse("");
    assert!(result.is_err());
}

#[test]
fn expression_parser_parse_error_trailing_tokens() {
    let result = parse("a b");
    assert!(result.is_err());
}

#[test]
fn expression_parser_parse_error_unclosed_paren() {
    let result = parse("(a");
    assert!(result.is_err());
}

#[test]
fn expression_parser_parse_error_unclosed_bracket() {
    let result = parse("a[0");
    assert!(result.is_err());
}

#[test]
fn expression_parser_parse_error_func_call_on_non_variable() {
    let result = parse("(true)(x)");
    assert!(result.is_err());
}

#[test]
fn expression_parser_parse_error_unexpected_token_in_primary() {
    let result = parse("&&");
    assert!(result.is_err());
}

#[test]
fn expression_parser_parse_error_mismatched_delimiter() {
    let result = parse("a[1 2]");
    assert!(result.is_err());
}

#[test]
fn expression_parser_parse_error_expect_ident_mismatch() {
    let result = parse("a.1");
    assert!(result.is_err());
}

#[test]
fn expression_parser_parse_error_expect_ident_end() {
    let result = parse("a.");
    assert!(result.is_err());
}

#[test]
fn parse_expression_reports_lexer_error() {
    let result = ExpressionParser::parse_text("'");
    assert!(result.is_err());
}

#[test]
fn expression_parsing_again_from_the_end_is_an_error() {
    let tokens = vec![ExpressionToken::Integer(1)];
    let mut parser = ExpressionParser::new(&tokens);
    assert_eq!(parser.parse().unwrap(), Expression::Literal(LiteralValue::Integer(1)));
    let err = parser.parse().unwrap_err();
    assert_eq!(err.message(), "unexpected end of expression");
    assert_eq!(err.position(), 1);
}
