use ephact::errors::LexerError;
use ephact::expression::token::FloatLiteral;
use ephact::services::expression_lexer::ExpressionLexer;
use ephact::value_objects::expression_token::ExpressionToken;

/// The token of a float literal written as `text`.
fn float_token(text: &str) -> ExpressionToken {
    ExpressionToken::Float(FloatLiteral::new(text.to_string()))
}

/// Helper: collect all tokens from input into a Vec.
fn lex_all(input: &str) -> Result<Vec<ExpressionToken>, LexerError> {
    let mut lexer = ExpressionLexer::new(input);
    let mut tokens = Vec::new();
    loop {
        let token = lexer.next_token()?;
        let done = matches!(token, ExpressionToken::EndOfInput);
        tokens.push(token);
        if done {
            break;
        }
    }
    Ok(tokens)
}

#[test]
fn expression_lexer_lex_dot() {
    let tokens = lex_all(".").unwrap();
    assert_eq!(
        tokens,
        vec![ExpressionToken::Dot, ExpressionToken::EndOfInput]
    );
}

#[test]
fn expression_lexer_lex_brackets() {
    let tokens = lex_all("[]").unwrap();
    assert_eq!(
        tokens,
        vec![
            ExpressionToken::LeftBracket,
            ExpressionToken::RightBracket,
            ExpressionToken::EndOfInput
        ]
    );
}

#[test]
fn expression_lexer_lex_parens() {
    let tokens = lex_all("()").unwrap();
    assert_eq!(
        tokens,
        vec![
            ExpressionToken::LeftParenthesis,
            ExpressionToken::RightParenthesis,
            ExpressionToken::EndOfInput
        ]
    );
}

#[test]
fn expression_lexer_lex_star() {
    let tokens = lex_all("*").unwrap();
    assert_eq!(
        tokens,
        vec![ExpressionToken::Star, ExpressionToken::EndOfInput]
    );
}

#[test]
fn expression_lexer_lex_comma() {
    let tokens = lex_all(",").unwrap();
    assert_eq!(
        tokens,
        vec![ExpressionToken::Comma, ExpressionToken::EndOfInput]
    );
}

#[test]
fn expression_lexer_lex_not() {
    let tokens = lex_all("!").unwrap();
    assert_eq!(
        tokens,
        vec![ExpressionToken::Not, ExpressionToken::EndOfInput]
    );
}

#[test]
fn expression_lexer_lex_eq() {
    let tokens = lex_all("==").unwrap();
    assert_eq!(
        tokens,
        vec![ExpressionToken::Equal, ExpressionToken::EndOfInput]
    );
}

#[test]
fn expression_lexer_lex_neq() {
    let tokens = lex_all("!=").unwrap();
    assert_eq!(
        tokens,
        vec![ExpressionToken::NotEqual, ExpressionToken::EndOfInput]
    );
}

#[test]
fn expression_lexer_lex_lt() {
    let tokens = lex_all("<").unwrap();
    assert_eq!(
        tokens,
        vec![ExpressionToken::LessThan, ExpressionToken::EndOfInput]
    );
}

#[test]
fn expression_lexer_lex_lte() {
    let tokens = lex_all("<=").unwrap();
    assert_eq!(
        tokens,
        vec![
            ExpressionToken::LessThanOrEqual,
            ExpressionToken::EndOfInput
        ]
    );
}

#[test]
fn expression_lexer_lex_gt() {
    let tokens = lex_all(">").unwrap();
    assert_eq!(
        tokens,
        vec![ExpressionToken::GreaterThan, ExpressionToken::EndOfInput]
    );
}

#[test]
fn expression_lexer_lex_gte() {
    let tokens = lex_all(">=").unwrap();
    assert_eq!(
        tokens,
        vec![
            ExpressionToken::GreaterThanOrEqual,
            ExpressionToken::EndOfInput
        ]
    );
}

#[test]
fn expression_lexer_lex_and() {
    let tokens = lex_all("&&").unwrap();
    assert_eq!(
        tokens,
        vec![ExpressionToken::And, ExpressionToken::EndOfInput]
    );
}

#[test]
fn expression_lexer_lex_or() {
    let tokens = lex_all("||").unwrap();
    assert_eq!(
        tokens,
        vec![ExpressionToken::Or, ExpressionToken::EndOfInput]
    );
}

#[test]
fn expression_lexer_lex_simple_string() {
    let tokens = lex_all("'hello'").unwrap();
    assert_eq!(
        tokens,
        vec![
            ExpressionToken::String("hello".into()),
            ExpressionToken::EndOfInput
        ]
    );
}

#[test]
fn expression_lexer_lex_empty_string() {
    let tokens = lex_all("''").unwrap();
    assert_eq!(
        tokens,
        vec![
            ExpressionToken::String(String::new()),
            ExpressionToken::EndOfInput
        ]
    );
}

#[test]
fn expression_lexer_lex_string_with_escaped_quote() {
    let tokens = lex_all("'it''s'").unwrap();
    assert_eq!(
        tokens,
        vec![
            ExpressionToken::String("it's".into()),
            ExpressionToken::EndOfInput
        ]
    );
}

#[test]
fn expression_lexer_lex_string_with_multiple_escapes() {
    let tokens = lex_all("'a''b''c'").unwrap();
    assert_eq!(
        tokens,
        vec![
            ExpressionToken::String("a'b'c".into()),
            ExpressionToken::EndOfInput
        ]
    );
}

#[test]
fn expression_lexer_lex_unterminated_string_error() {
    let err = lex_all("'no end").unwrap_err();
    assert_eq!(err, LexerError::UnterminatedString(0));
}

#[test]
fn expression_lexer_lex_positive_int() {
    let tokens = lex_all("42").unwrap();
    assert_eq!(
        tokens,
        vec![ExpressionToken::Integer(42), ExpressionToken::EndOfInput]
    );
}

#[test]
fn expression_lexer_lex_negative_int() {
    let tokens = lex_all("-7").unwrap();
    assert_eq!(
        tokens,
        vec![ExpressionToken::Integer(-7), ExpressionToken::EndOfInput]
    );
}

#[test]
fn expression_lexer_lex_zero() {
    let tokens = lex_all("0").unwrap();
    assert_eq!(
        tokens,
        vec![ExpressionToken::Integer(0), ExpressionToken::EndOfInput]
    );
}

#[test]
fn expression_lexer_lex_float() {
    let tokens = lex_all("2.71").unwrap();
    assert_eq!(
        tokens,
        vec![float_token("2.71"), ExpressionToken::EndOfInput]
    );
}

#[test]
fn expression_lexer_lex_negative_float() {
    let tokens = lex_all("-0.5").unwrap();
    assert_eq!(
        tokens,
        vec![float_token("-0.5"), ExpressionToken::EndOfInput]
    );
}

#[test]
fn expression_lexer_lex_float_with_trailing_dot_is_int() {
    let tokens = lex_all("42.").unwrap();
    assert_eq!(
        tokens,
        vec![
            ExpressionToken::Integer(42),
            ExpressionToken::Dot,
            ExpressionToken::EndOfInput
        ]
    );
}

#[test]
fn expression_lexer_lex_true() {
    let tokens = lex_all("true").unwrap();
    assert_eq!(
        tokens,
        vec![ExpressionToken::Boolean(true), ExpressionToken::EndOfInput]
    );
}

#[test]
fn expression_lexer_lex_false() {
    let tokens = lex_all("false").unwrap();
    assert_eq!(
        tokens,
        vec![ExpressionToken::Boolean(false), ExpressionToken::EndOfInput]
    );
}

#[test]
fn expression_lexer_lex_null() {
    let tokens = lex_all("null").unwrap();
    assert_eq!(
        tokens,
        vec![ExpressionToken::Null, ExpressionToken::EndOfInput]
    );
}

#[test]
fn expression_lexer_lex_simple_ident() {
    let tokens = lex_all("github").unwrap();
    assert_eq!(
        tokens,
        vec![
            ExpressionToken::Identifier("github".into()),
            ExpressionToken::EndOfInput
        ]
    );
}

#[test]
fn expression_lexer_lex_ident_with_underscore() {
    let tokens = lex_all("event_name").unwrap();
    assert_eq!(
        tokens,
        vec![
            ExpressionToken::Identifier("event_name".into()),
            ExpressionToken::EndOfInput
        ]
    );
}

#[test]
fn expression_lexer_lex_ident_with_hyphen() {
    let tokens = lex_all("my-job").unwrap();
    assert_eq!(
        tokens,
        vec![
            ExpressionToken::Identifier("my-job".into()),
            ExpressionToken::EndOfInput
        ]
    );
}

#[test]
fn expression_lexer_lex_ident_with_digits() {
    let tokens = lex_all("step1").unwrap();
    assert_eq!(
        tokens,
        vec![
            ExpressionToken::Identifier("step1".into()),
            ExpressionToken::EndOfInput
        ]
    );
}

#[test]
fn expression_lexer_lex_ident_starting_with_underscore() {
    let tokens = lex_all("_private").unwrap();
    assert_eq!(
        tokens,
        vec![
            ExpressionToken::Identifier("_private".into()),
            ExpressionToken::EndOfInput
        ]
    );
}

#[test]
fn expression_lexer_peek_does_not_consume() {
    let mut lexer = ExpressionLexer::new("foo");
    let first = lexer.peek_token().unwrap();
    let second = lexer.peek_token().unwrap();
    assert_eq!(first, ExpressionToken::Identifier("foo".into()));
    assert_eq!(second, ExpressionToken::Identifier("foo".into()));
}

#[test]
fn expression_lexer_peek_then_next_consumes() {
    let mut lexer = ExpressionLexer::new("foo bar");
    assert_eq!(
        lexer.peek_token().unwrap(),
        ExpressionToken::Identifier("foo".into())
    );
    assert_eq!(
        lexer.next_token().unwrap(),
        ExpressionToken::Identifier("foo".into())
    );
    assert_eq!(
        lexer.next_token().unwrap(),
        ExpressionToken::Identifier("bar".into())
    );
    assert_eq!(lexer.next_token().unwrap(), ExpressionToken::EndOfInput);
}

#[test]
fn expression_lexer_peek_after_next_returns_next_token() {
    let mut lexer = ExpressionLexer::new("a b");
    assert_eq!(
        lexer.next_token().unwrap(),
        ExpressionToken::Identifier("a".into())
    );
    assert_eq!(
        lexer.peek_token().unwrap(),
        ExpressionToken::Identifier("b".into())
    );
    assert_eq!(
        lexer.next_token().unwrap(),
        ExpressionToken::Identifier("b".into())
    );
}

#[test]
fn expression_lexer_lex_skips_whitespace() {
    let tokens = lex_all("  \t\n\r  foo  ").unwrap();
    assert_eq!(
        tokens,
        vec![
            ExpressionToken::Identifier("foo".into()),
            ExpressionToken::EndOfInput
        ]
    );
}

#[test]
fn expression_lexer_lex_full_expression() {
    let tokens = lex_all("github.event_name == 'push' && !cancelled()").unwrap();
    assert_eq!(
        tokens,
        vec![
            ExpressionToken::Identifier("github".into()),
            ExpressionToken::Dot,
            ExpressionToken::Identifier("event_name".into()),
            ExpressionToken::Equal,
            ExpressionToken::String("push".into()),
            ExpressionToken::And,
            ExpressionToken::Not,
            ExpressionToken::Identifier("cancelled".into()),
            ExpressionToken::LeftParenthesis,
            ExpressionToken::RightParenthesis,
            ExpressionToken::EndOfInput,
        ]
    );
}

#[test]
fn expression_lexer_lex_function_call_with_args() {
    let tokens = lex_all("contains('hello', 'll')").unwrap();
    assert_eq!(
        tokens,
        vec![
            ExpressionToken::Identifier("contains".into()),
            ExpressionToken::LeftParenthesis,
            ExpressionToken::String("hello".into()),
            ExpressionToken::Comma,
            ExpressionToken::String("ll".into()),
            ExpressionToken::RightParenthesis,
            ExpressionToken::EndOfInput,
        ]
    );
}

#[test]
fn expression_lexer_lex_unexpected_char() {
    let err = lex_all("@").unwrap_err();
    assert_eq!(err, LexerError::UnexpectedChar('@', 0));
}

#[test]
fn expression_lexer_lex_lone_ampersand_error() {
    let err = lex_all("&").unwrap_err();
    assert_eq!(err, LexerError::UnexpectedChar('&', 0));
}

#[test]
fn expression_lexer_lex_lone_pipe_error() {
    let err = lex_all("|").unwrap_err();
    assert_eq!(err, LexerError::UnexpectedChar('|', 0));
}

#[test]
fn expression_lexer_lex_lone_equals_error() {
    let err = lex_all("=").unwrap_err();
    assert_eq!(err, LexerError::UnexpectedChar('=', 0));
}

#[test]
fn expression_lexer_integer_out_of_range_is_an_error() {
    let mut lexer = ExpressionLexer::new("99999999999999999999");
    assert_eq!(lexer.peek_token().unwrap_err(), LexerError::IntegerOutOfRange(0));
    assert_eq!(lex_all("x == 9223372036854775808").unwrap_err(), LexerError::IntegerOutOfRange(5));
    assert_eq!(
        lex_all("-9223372036854775808").unwrap(),
        vec![ExpressionToken::Integer(i64::MIN), ExpressionToken::EndOfInput]
    );
}

#[test]
fn expression_lexer_peek_twice_then_next_then_the_following_token() {
    let mut lexer = ExpressionLexer::new("a.b");
    assert_eq!(lexer.peek_token().unwrap(), ExpressionToken::Identifier("a".into()));
    assert_eq!(lexer.peek_token().unwrap(), ExpressionToken::Identifier("a".into()));
    assert_eq!(lexer.next_token().unwrap(), ExpressionToken::Identifier("a".into()));
    assert_eq!(lexer.next_token().unwrap(), ExpressionToken::Dot);
    assert_eq!(lexer.next_token().unwrap(), ExpressionToken::Identifier("b".into()));
    assert_eq!(lexer.next_token().unwrap(), ExpressionToken::EndOfInput);
}
