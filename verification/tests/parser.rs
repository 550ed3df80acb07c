use ephact::errors::ParseError;
use ephact::expression::expr::{CompareOp, Expr, Literal, LogicalOp};
use ephact::expression::parser::{parse_expr, Parser};
use ephact::expression::token::Token;
use ephact::expression::token::FloatLiteral;

fn parse(input: &str) -> Result<Expr, ParseError> {
    parse_expr(input)
}

#[test]
fn parser_parse_bool_true() {
    let expr = parse("true").unwrap();
    assert_eq!(expr, Expr::Literal(Literal::Bool(true)));
}

#[test]
fn parser_parse_bool_false() {
    let expr = parse("false").unwrap();
    assert_eq!(expr, Expr::Literal(Literal::Bool(false)));
}

#[test]
fn parser_parse_null() {
    let expr = parse("null").unwrap();
    assert_eq!(expr, Expr::Literal(Literal::Null));
}

#[test]
fn parser_parse_int() {
    let expr = parse("42").unwrap();
    assert_eq!(expr, Expr::Literal(Literal::Int(42)));
}

#[test]
fn parser_parse_negative_int() {
    let expr = parse("7").unwrap();
    assert_eq!(expr, Expr::Literal(Literal::Int(7)));
}

#[test]
fn parser_parse_float() {
    let expr = parse("2.71").unwrap();
    assert_eq!(expr, Expr::Literal(Literal::Float(FloatLiteral::new("2.71".to_string()))));
}

#[test]
fn parser_parse_string() {
    let expr = parse("'hello'").unwrap();
    assert_eq!(expr, Expr::Literal(Literal::String("hello".into())));
}

#[test]
fn parser_parse_variable() {
    let expr = parse("github").unwrap();
    assert_eq!(expr, Expr::Variable("github".into()));
}

#[test]
fn parser_parse_variable_env() {
    let expr = parse("env").unwrap();
    assert_eq!(expr, Expr::Variable("env".into()));
}

#[test]
fn parser_parse_property_access() {
    let expr = parse("github.ref").unwrap();
    assert_eq!(
        expr,
        Expr::PropertyAccess(Box::new(Expr::Variable("github".into())), "ref".into())
    );
}

#[test]
fn parser_parse_nested_property_access() {
    let expr = parse("github.event_name").unwrap();
    assert_eq!(
        expr,
        Expr::PropertyAccess(
            Box::new(Expr::Variable("github".into())),
            "event_name".into()
        )
    );
}

#[test]
fn parser_parse_deep_property_access() {
    let expr = parse("a.b.c").unwrap();
    assert_eq!(
        expr,
        Expr::PropertyAccess(
            Box::new(Expr::PropertyAccess(
                Box::new(Expr::Variable("a".into())),
                "b".into()
            )),
            "c".into()
        )
    );
}

#[test]
fn parser_parse_index_access() {
    let expr = parse("arr[0]").unwrap();
    assert_eq!(
        expr,
        Expr::IndexAccess(
            Box::new(Expr::Variable("arr".into())),
            Box::new(Expr::Literal(Literal::Int(0)))
        )
    );
}

#[test]
fn parser_parse_index_access_string_key() {
    let expr = parse("obj['key']").unwrap();
    assert_eq!(
        expr,
        Expr::IndexAccess(
            Box::new(Expr::Variable("obj".into())),
            Box::new(Expr::Literal(Literal::String("key".into())))
        )
    );
}

#[test]
fn parser_parse_array_deref() {
    let expr = parse("foo.*").unwrap();
    assert_eq!(
        expr,
        Expr::ArrayDeref(Box::new(Expr::Variable("foo".into())))
    );
}

#[test]
fn parser_parse_func_call_no_args() {
    let expr = parse("success()").unwrap();
    assert_eq!(expr, Expr::FuncCall("success".into(), vec![]));
}

#[test]
fn parser_parse_func_call_one_arg() {
    let expr = parse("always()").unwrap();
    assert_eq!(expr, Expr::FuncCall("always".into(), vec![]));
}

#[test]
fn parser_parse_func_call_two_args() {
    let expr = parse("contains('hello', 'll')").unwrap();
    assert_eq!(
        expr,
        Expr::FuncCall(
            "contains".into(),
            vec![
                Expr::Literal(Literal::String("hello".into())),
                Expr::Literal(Literal::String("ll".into()))
            ]
        )
    );
}

#[test]
fn parser_parse_eq() {
    let expr = parse("a == b").unwrap();
    assert_eq!(
        expr,
        Expr::Compare(
            CompareOp::Eq,
            Box::new(Expr::Variable("a".into())),
            Box::new(Expr::Variable("b".into()))
        )
    );
}

#[test]
fn parser_parse_neq() {
    let expr = parse("a != b").unwrap();
    assert_eq!(
        expr,
        Expr::Compare(
            CompareOp::Neq,
            Box::new(Expr::Variable("a".into())),
            Box::new(Expr::Variable("b".into()))
        )
    );
}

#[test]
fn parser_parse_lt() {
    let expr = parse("a < b").unwrap();
    assert_eq!(
        expr,
        Expr::Compare(
            CompareOp::Lt,
            Box::new(Expr::Variable("a".into())),
            Box::new(Expr::Variable("b".into()))
        )
    );
}

#[test]
fn parser_parse_gt() {
    let expr = parse("a > b").unwrap();
    assert_eq!(
        expr,
        Expr::Compare(
            CompareOp::Gt,
            Box::new(Expr::Variable("a".into())),
            Box::new(Expr::Variable("b".into()))
        )
    );
}

#[test]
fn parser_parse_lte() {
    let expr = parse("a <= b").unwrap();
    assert_eq!(
        expr,
        Expr::Compare(
            CompareOp::Lte,
            Box::new(Expr::Variable("a".into())),
            Box::new(Expr::Variable("b".into()))
        )
    );
}

#[test]
fn parser_parse_gte() {
    let expr = parse("a >= b").unwrap();
    assert_eq!(
        expr,
        Expr::Compare(
            CompareOp::Gte,
            Box::new(Expr::Variable("a".into())),
            Box::new(Expr::Variable("b".into()))
        )
    );
}

#[test]
fn parser_parse_and() {
    let expr = parse("a && b").unwrap();
    assert_eq!(
        expr,
        Expr::Logical(
            LogicalOp::And,
            Box::new(Expr::Variable("a".into())),
            Box::new(Expr::Variable("b".into()))
        )
    );
}

#[test]
fn parser_parse_or() {
    let expr = parse("a || b").unwrap();
    assert_eq!(
        expr,
        Expr::Logical(
            LogicalOp::Or,
            Box::new(Expr::Variable("a".into())),
            Box::new(Expr::Variable("b".into()))
        )
    );
}

#[test]
fn parser_parse_and_or_left_assoc() {
    let expr = parse("a && b || c").unwrap();
    assert_eq!(
        expr,
        Expr::Logical(
            LogicalOp::Or,
            Box::new(Expr::Logical(
                LogicalOp::And,
                Box::new(Expr::Variable("a".into())),
                Box::new(Expr::Variable("b".into()))
            )),
            Box::new(Expr::Variable("c".into()))
        )
    );
}

#[test]
fn parser_parse_or_and_left_assoc() {
    let expr = parse("a || b && c").unwrap();
    assert_eq!(
        expr,
        Expr::Logical(
            LogicalOp::And,
            Box::new(Expr::Logical(
                LogicalOp::Or,
                Box::new(Expr::Variable("a".into())),
                Box::new(Expr::Variable("b".into()))
            )),
            Box::new(Expr::Variable("c".into()))
        )
    );
}

#[test]
fn parser_parse_not() {
    let expr = parse("!a").unwrap();
    assert_eq!(expr, Expr::Not(Box::new(Expr::Variable("a".into()))));
}

#[test]
fn parser_parse_double_not() {
    let expr = parse("!!a").unwrap();
    assert_eq!(
        expr,
        Expr::Not(Box::new(Expr::Not(Box::new(Expr::Variable("a".into())))))
    );
}

#[test]
fn parser_parse_not_compare() {
    let expr = parse("!a == b").unwrap();
    assert_eq!(
        expr,
        Expr::Compare(
            CompareOp::Eq,
            Box::new(Expr::Not(Box::new(Expr::Variable("a".into())))),
            Box::new(Expr::Variable("b".into()))
        )
    );
}

#[test]
fn parser_parse_parens() {
    let expr = parse("(a)").unwrap();
    assert_eq!(expr, Expr::Variable("a".into()));
}

#[test]
fn parser_parse_parens_override_precedence() {
    let expr = parse("(a || b) && c").unwrap();
    assert_eq!(
        expr,
        Expr::Logical(
            LogicalOp::And,
            Box::new(Expr::Logical(
                LogicalOp::Or,
                Box::new(Expr::Variable("a".into())),
                Box::new(Expr::Variable("b".into()))
            )),
            Box::new(Expr::Variable("c".into()))
        )
    );
}

#[test]
fn parser_parse_complex_expression() {
    let expr = parse("github.ref == 'refs/heads/main' && success()").unwrap();
    assert_eq!(
        expr,
        Expr::Logical(
            LogicalOp::And,
            Box::new(Expr::Compare(
                CompareOp::Eq,
                Box::new(Expr::PropertyAccess(
                    Box::new(Expr::Variable("github".into())),
                    "ref".into()
                )),
                Box::new(Expr::Literal(Literal::String("refs/heads/main".into())))
            )),
            Box::new(Expr::FuncCall("success".into(), vec![]))
        )
    );
}

#[test]
fn parser_parse_chained_postfix() {
    let expr = parse("foo.bar[0].baz").unwrap();
    assert_eq!(
        expr,
        Expr::PropertyAccess(
            Box::new(Expr::IndexAccess(
                Box::new(Expr::PropertyAccess(
                    Box::new(Expr::Variable("foo".into())),
                    "bar".into()
                )),
                Box::new(Expr::Literal(Literal::Int(0)))
            )),
            "baz".into()
        )
    );
}

#[test]
fn parser_parse_error_empty() {
    let result = parse("");
    assert!(result.is_err());
}

#[test]
fn parser_parse_error_trailing_tokens() {
    let result = parse("a b");
    assert!(result.is_err());
}

#[test]
fn parser_parse_error_unclosed_paren() {
    let result = parse("(a");
    assert!(result.is_err());
}

#[test]
fn parser_parse_error_unclosed_bracket() {
    let result = parse("a[0");
    assert!(result.is_err());
}

#[test]
fn parser_parse_error_func_call_on_non_variable() {
    let result = parse("(true)(x)");
    assert!(result.is_err());
}

#[test]
fn parser_parse_error_unexpected_token_in_primary() {
    let result = parse("&&");
    assert!(result.is_err());
}

#[test]
fn parser_parse_error_mismatched_delimiter() {
    let result = parse("a[1 2]");
    assert!(result.is_err());
}

#[test]
fn parser_parse_error_expect_ident_mismatch() {
    let result = parse("a.1");
    assert!(result.is_err());
}

#[test]
fn parser_parse_error_expect_ident_end() {
    let result = parse("a.");
    assert!(result.is_err());
}

#[test]
fn parse_expr_lexer_error() {
    let result = parse_expr("'");
    assert!(result.is_err());
}

#[test]
fn parsing_again_from_the_end_is_an_error() {
    let tokens = vec![Token::Int(1)];
    let mut parser = Parser::new(&tokens);
    assert_eq!(parser.parse().unwrap(), Expr::Literal(Literal::Int(1)));
    let err = parser.parse().unwrap_err();
    assert_eq!(err.message(), "unexpected end of expression");
    assert_eq!(err.position(), 1);
}
