use ephact::expression::token::FloatLiteral;
use ephact::value_objects::literal_value::LiteralValue;

#[test]
fn literal_value_display_bool_true() {
    assert_eq!(LiteralValue::Boolean(true).to_text(), "true");
}

#[test]
fn literal_value_display_bool_false() {
    assert_eq!(LiteralValue::Boolean(false).to_text(), "false");
}

#[test]
fn literal_value_display_null() {
    assert_eq!(LiteralValue::Null.to_text(), "null");
}

#[test]
fn literal_value_display_int() {
    assert_eq!(LiteralValue::Integer(42).to_text(), "42");
}

#[test]
fn literal_value_display_float() {
    assert_eq!(LiteralValue::Float(FloatLiteral::new("2.71".to_string())).to_text(), "2.71");
}

#[test]
fn literal_value_display_string() {
    assert_eq!(LiteralValue::String("hello".into()).to_text(), "'hello'");
}
