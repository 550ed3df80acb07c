use ephact::expression::token::FloatLiteral;
use ephact::value_objects::expression_literal::ExpressionLiteral;

#[test]
fn expression_literal_display_bool_true() {
    assert_eq!(ExpressionLiteral::Boolean(true).to_text(), "true");
}

#[test]
fn expression_literal_display_bool_false() {
    assert_eq!(ExpressionLiteral::Boolean(false).to_text(), "false");
}

#[test]
fn expression_literal_display_null() {
    assert_eq!(ExpressionLiteral::Null.to_text(), "null");
}

#[test]
fn expression_literal_display_int() {
    assert_eq!(ExpressionLiteral::Integer(42).to_text(), "42");
}

#[test]
fn expression_literal_display_float() {
    assert_eq!(ExpressionLiteral::Float(FloatLiteral::new("2.71".to_string())).to_text(), "2.71");
}

#[test]
fn expression_literal_display_string() {
    assert_eq!(
        ExpressionLiteral::String("hello".into()).to_text(),
        "'hello'"
    );
}
