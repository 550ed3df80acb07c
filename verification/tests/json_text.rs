use ephact::value_objects::job_strategy::matrix_combination_count;
use ephact::value_objects::json_text_reader::{JsonEvent, JsonTextReader};
use ephact::value_objects::json_text_writer::json_string_literal;

fn read(text: &str) -> Result<Vec<JsonEvent>, String> {
    JsonTextReader::new(text)
        .read_document()
        .map_err(|e| e.message().to_owned())
}

fn text(value: &str) -> JsonEvent {
    JsonEvent::Text(value.to_owned())
}

fn key(value: &str) -> JsonEvent {
    JsonEvent::Key(value.to_owned())
}

#[test]
fn nested_values_read_in_document_order() {
    assert_eq!(
        read(r#"{"a":"x","b":[1,2.5,true,null]}"#).unwrap(),
        vec![
            JsonEvent::BeginMapping,
            key("a"),
            text("x"),
            key("b"),
            JsonEvent::BeginList,
            JsonEvent::Integer(1),
            JsonEvent::Decimal("2.5".to_owned()),
            JsonEvent::Boolean(true),
            JsonEvent::Null,
            JsonEvent::EndList,
            JsonEvent::EndMapping,
        ]
    );
}

#[test]
fn repeated_mapping_keys_are_all_reported() {
    assert_eq!(
        read(r#"{"a":1,"a":2}"#).unwrap(),
        vec![JsonEvent::BeginMapping, key("a"), JsonEvent::Integer(1), key("a"), JsonEvent::Integer(2), JsonEvent::EndMapping]
    );
}

#[test]
fn escaped_text_is_decoded() {
    assert_eq!(
        read(r#""a\"b\\c\nd\u0041\ud83d\ude00""#).unwrap(),
        vec![text("a\"b\\c\nd\u{41}\u{1f600}")]
    );
}

#[test]
fn empty_composites_and_white_space() {
    assert_eq!(read("[]").unwrap(), vec![JsonEvent::BeginList, JsonEvent::EndList]);
    assert_eq!(read("{ }").unwrap(), vec![JsonEvent::BeginMapping, JsonEvent::EndMapping]);
    assert_eq!(
        read(" { \"a\" : [ 1 , 2 ] } ").unwrap(),
        vec![
            JsonEvent::BeginMapping,
            key("a"),
            JsonEvent::BeginList,
            JsonEvent::Integer(1),
            JsonEvent::Integer(2),
            JsonEvent::EndList,
            JsonEvent::EndMapping,
        ]
    );
}

#[test]
fn malformed_documents_are_rejected_with_their_reason() {
    assert_eq!(read("{} extra").unwrap_err(), "unexpected trailing character 'e'");
    assert_eq!(read("\"abc").unwrap_err(), "unterminated JSON string");
    assert_eq!(read("tru").unwrap_err(), "invalid JSON literal");
    assert_eq!(read("").unwrap_err(), "unexpected end of JSON text");
    assert_eq!(read("[1 2]").unwrap_err(), "expected ']' in JSON text");
    assert_eq!(read("{\"a\" 1}").unwrap_err(), "expected ':' in JSON text");
    assert_eq!(read("{1:2}").unwrap_err(), "expected '\"' in JSON text");
    assert_eq!(read("{\"a\":1 \"b\"}").unwrap_err(), "expected '}' in JSON text");
    assert_eq!(read("@").unwrap_err(), "unexpected character in JSON text");
    assert_eq!(read("\"\\x\"").unwrap_err(), "invalid escape sequence '\\x'");
    assert_eq!(read("\"\\u12g4\"").unwrap_err(), "invalid unicode escape '12g4'");
    assert_eq!(read("\"\\udc00\"").unwrap_err(), "invalid unicode escape sequence");
    assert_eq!(read("\"\\ud83d\\u0041\"").unwrap_err(), "invalid low surrogate escape sequence");
}

#[test]
fn numbers_follow_the_json_grammar() {
    assert_eq!(read("-7").unwrap(), vec![JsonEvent::Integer(-7)]);
    assert_eq!(read("0").unwrap(), vec![JsonEvent::Integer(0)]);
    assert_eq!(read("-0").unwrap(), vec![JsonEvent::Integer(0)]);
    assert_eq!(read("-9223372036854775808").unwrap(), vec![JsonEvent::Integer(i64::MIN)]);
    assert_eq!(read("9223372036854775807").unwrap(), vec![JsonEvent::Integer(i64::MAX)]);
    assert_eq!(read("9223372036854775808").unwrap_err(), "invalid number '9223372036854775808'");
    assert_eq!(read("1e5").unwrap(), vec![JsonEvent::Decimal("1e5".to_owned())]);
    assert_eq!(read("-0.25E+3").unwrap(), vec![JsonEvent::Decimal("-0.25E+3".to_owned())]);
    assert_eq!(read("0.5").unwrap(), vec![JsonEvent::Decimal("0.5".to_owned())]);
    assert_eq!(read("10e-2").unwrap(), vec![JsonEvent::Decimal("10e-2".to_owned())]);
    for rejected in ["+1", "+5", "01", "-01", "1.", ".5", "-", "1.5e", "1e+", "1.e3", "1-2", "--1"] {
        assert_eq!(read(rejected).unwrap_err(), format!("invalid number '{rejected}'"), "{rejected}");
    }
    assert_eq!(read("[01]").unwrap_err(), "invalid number '01'");
}

#[test]
fn only_json_white_space_separates_tokens() {
    assert_eq!(read("\t[\r\n1 ]\n").unwrap(), vec![JsonEvent::BeginList, JsonEvent::Integer(1), JsonEvent::EndList]);
    assert_eq!(read("\u{a0}1").unwrap_err(), "unexpected character in JSON text");
    assert_eq!(read("1\u{a0}").unwrap_err(), "unexpected trailing character '\u{a0}'");
    assert_eq!(read("[1,\u{0b}2]").unwrap_err(), "unexpected character in JSON text");
    assert_eq!(read("\u{0c}null").unwrap_err(), "unexpected character in JSON text");
}

#[test]
fn raw_control_characters_in_strings_are_rejected() {
    assert_eq!(read("\"a\nb\"").unwrap_err(), "control character in JSON string");
    assert_eq!(read("\"\t\"").unwrap_err(), "control character in JSON string");
    assert_eq!(read("{\"k\u{1f}\":1}").unwrap_err(), "control character in JSON string");
    assert_eq!(read("\"a\\nb\"").unwrap(), vec![text("a\nb")]);
    assert_eq!(read("\"\u{7f}\"").unwrap(), vec![text("\u{7f}")]);
}

#[test]
fn unicode_escapes_take_exactly_four_hex_digits() {
    assert_eq!(read("\"\\u00e9\\u00C9\"").unwrap(), vec![text("\u{e9}\u{c9}")]);
    assert_eq!(read("\"\\ud83d\\ude00\"").unwrap(), vec![text("\u{1f600}")]);
    assert_eq!(read("\"\\u+041\"").unwrap_err(), "invalid unicode escape '+041'");
    assert_eq!(read("\"\\u41\"").unwrap_err(), "invalid unicode escape '41\"'");
}

#[test]
fn text_is_written_with_json_escapes() {
    assert_eq!(json_string_literal("q\"b\\s\nt\tu\u{1}"), r#""q\"b\\s\nt\tu\u0001""#);
    assert_eq!(json_string_literal(""), "\"\"");
    assert_eq!(json_string_literal("\u{8}\u{c}\r\u{1f}é"), "\"\\b\\f\\r\\u001fé\"");
}

#[test]
fn written_text_reads_back() {
    for original in ["plain", "q\"b\\s\nt\tu\u{1}", "", "\u{1f600} and \u{7f}"] {
        assert_eq!(read(&json_string_literal(original)).unwrap(), vec![text(original)]);
    }
}

#[test]
fn matrix_combinations_multiply() {
    assert_eq!(matrix_combination_count(&[2]), 2);
    assert_eq!(matrix_combination_count(&[2, 3]), 6);
    assert_eq!(matrix_combination_count(&[]), 0);
    assert_eq!(matrix_combination_count(&[4, 0, 5]), 0);
}
