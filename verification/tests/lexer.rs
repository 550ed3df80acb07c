use ephact::errors::LexerError;
use ephact::expression::lexer::Lexer;
use ephact::expression::token::{FloatLiteral, Token};

/// The token of a float literal written as `text`.
fn float_token(text: &str) -> Token {
    Token::Float(FloatLiteral::new(text.to_string()))
}

/// Helper: collect all tokens from input into a Vec.
fn lex_all(input: &str) -> Result<Vec<Token>, LexerError> {
    let mut lexer = Lexer::new(input);
    let mut tokens = Vec::new();
    loop {
        let token = lexer.next_token()?;
        let done = matches!(token, Token::Eof);
        tokens.push(token);
        if done {
            break;
        }
    }
    Ok(tokens)
}

#[test]
fn lexer_lex_dot() {
    let tokens = lex_all(".").unwrap();
    assert_eq!(tokens, vec![Token::Dot, Token::Eof]);
}

#[test]
fn lexer_lex_brackets() {
    let tokens = lex_all("[]").unwrap();
    assert_eq!(tokens, vec![Token::LBracket, Token::RBracket, Token::Eof]);
}

#[test]
fn lexer_lex_parens() {
    let tokens = lex_all("()").unwrap();
    assert_eq!(tokens, vec![Token::LParen, Token::RParen, Token::Eof]);
}

#[test]
fn lexer_lex_star() {
    let tokens = lex_all("*").unwrap();
    assert_eq!(tokens, vec![Token::Star, Token::Eof]);
}

#[test]
fn lexer_lex_comma() {
    let tokens = lex_all(",").unwrap();
    assert_eq!(tokens, vec![Token::Comma, Token::Eof]);
}

#[test]
fn lexer_lex_not() {
    let tokens = lex_all("!").unwrap();
    assert_eq!(tokens, vec![Token::Not, Token::Eof]);
}

#[test]
fn lexer_lex_eq() {
    let tokens = lex_all("==").unwrap();
    assert_eq!(tokens, vec![Token::Eq, Token::Eof]);
}

#[test]
fn lexer_lex_neq() {
    let tokens = lex_all("!=").unwrap();
    assert_eq!(tokens, vec![Token::Neq, Token::Eof]);
}

#[test]
fn lexer_lex_lt() {
    let tokens = lex_all("<").unwrap();
    assert_eq!(tokens, vec![Token::Lt, Token::Eof]);
}

#[test]
fn lexer_lex_lte() {
    let tokens = lex_all("<=").unwrap();
    assert_eq!(tokens, vec![Token::Lte, Token::Eof]);
}

#[test]
fn lexer_lex_gt() {
    let tokens = lex_all(">").unwrap();
    assert_eq!(tokens, vec![Token::Gt, Token::Eof]);
}

#[test]
fn lexer_lex_gte() {
    let tokens = lex_all(">=").unwrap();
    assert_eq!(tokens, vec![Token::Gte, Token::Eof]);
}

#[test]
fn lexer_lex_and() {
    let tokens = lex_all("&&").unwrap();
    assert_eq!(tokens, vec![Token::And, Token::Eof]);
}

#[test]
fn lexer_lex_or() {
    let tokens = lex_all("||").unwrap();
    assert_eq!(tokens, vec![Token::Or, Token::Eof]);
}

#[test]
fn lexer_lex_simple_string() {
    let tokens = lex_all("'hello'").unwrap();
    assert_eq!(tokens, vec![Token::String("hello".into()), Token::Eof]);
}

#[test]
fn lexer_lex_empty_string() {
    let tokens = lex_all("''").unwrap();
    assert_eq!(tokens, vec![Token::String(String::new()), Token::Eof]);
}

#[test]
fn lexer_lex_string_with_escaped_quote() {
    let tokens = lex_all("'it''s'").unwrap();
    assert_eq!(tokens, vec![Token::String("it's".into()), Token::Eof]);
}

#[test]
fn lexer_lex_string_with_multiple_escapes() {
    let tokens = lex_all("'a''b''c'").unwrap();
    assert_eq!(tokens, vec![Token::String("a'b'c".into()), Token::Eof]);
}

#[test]
fn lexer_lex_unterminated_string_error() {
    let err = lex_all("'no end").unwrap_err();
    assert_eq!(err, LexerError::UnterminatedString(0));
}

#[test]
fn lexer_lex_positive_int() {
    let tokens = lex_all("42").unwrap();
    assert_eq!(tokens, vec![Token::Int(42), Token::Eof]);
}

#[test]
fn lexer_lex_negative_int() {
    let tokens = lex_all("-7").unwrap();
    assert_eq!(tokens, vec![Token::Int(-7), Token::Eof]);
}

#[test]
fn lexer_lex_zero() {
    let tokens = lex_all("0").unwrap();
    assert_eq!(tokens, vec![Token::Int(0), Token::Eof]);
}

#[test]
fn lexer_lex_float() {
    let tokens = lex_all("2.71").unwrap();
    assert_eq!(tokens, vec![float_token("2.71"), Token::Eof]);
}

#[test]
fn lexer_lex_negative_float() {
    let tokens = lex_all("-0.5").unwrap();
    assert_eq!(tokens, vec![float_token("-0.5"), Token::Eof]);
}

#[test]
fn lexer_lex_float_with_trailing_dot_is_int() {
    let tokens = lex_all("42.").unwrap();
    assert_eq!(tokens, vec![Token::Int(42), Token::Dot, Token::Eof]);
}

#[test]
fn lexer_lex_true() {
    let tokens = lex_all("true").unwrap();
    assert_eq!(tokens, vec![Token::Bool(true), Token::Eof]);
}

#[test]
fn lexer_lex_false() {
    let tokens = lex_all("false").unwrap();
    assert_eq!(tokens, vec![Token::Bool(false), Token::Eof]);
}

#[test]
fn lexer_lex_null() {
    let tokens = lex_all("null").unwrap();
    assert_eq!(tokens, vec![Token::Null, Token::Eof]);
}

#[test]
fn lexer_lex_simple_ident() {
    let tokens = lex_all("github").unwrap();
    assert_eq!(tokens, vec![Token::Ident("github".into()), Token::Eof]);
}

#[test]
fn lexer_lex_ident_with_underscore() {
    let tokens = lex_all("event_name").unwrap();
    assert_eq!(tokens, vec![Token::Ident("event_name".into()), Token::Eof]);
}

#[test]
fn lexer_lex_ident_with_hyphen() {
    let tokens = lex_all("my-job").unwrap();
    assert_eq!(tokens, vec![Token::Ident("my-job".into()), Token::Eof]);
}

#[test]
fn lexer_lex_ident_with_digits() {
    let tokens = lex_all("step1").unwrap();
    assert_eq!(tokens, vec![Token::Ident("step1".into()), Token::Eof]);
}

#[test]
fn lexer_lex_ident_starting_with_underscore() {
    let tokens = lex_all("_private").unwrap();
    assert_eq!(tokens, vec![Token::Ident("_private".into()), Token::Eof]);
}

#[test]
fn lexer_peek_does_not_consume() {
    let mut lexer = Lexer::new("foo");
    let first = lexer.peek_token().unwrap();
    let second = lexer.peek_token().unwrap();
    assert_eq!(first, Token::Ident("foo".into()));
    assert_eq!(second, Token::Ident("foo".into()));
}

#[test]
fn lexer_peek_then_next_consumes() {
    let mut lexer = Lexer::new("foo bar");
    assert_eq!(lexer.peek_token().unwrap(), Token::Ident("foo".into()));
    assert_eq!(lexer.next_token().unwrap(), Token::Ident("foo".into()));
    assert_eq!(lexer.next_token().unwrap(), Token::Ident("bar".into()));
    assert_eq!(lexer.next_token().unwrap(), Token::Eof);
}

#[test]
fn lexer_peek_after_next_returns_next_token() {
    let mut lexer = Lexer::new("a b");
    assert_eq!(lexer.next_token().unwrap(), Token::Ident("a".into()));
    assert_eq!(lexer.peek_token().unwrap(), Token::Ident("b".into()));
    assert_eq!(lexer.next_token().unwrap(), Token::Ident("b".into()));
}

#[test]
fn lexer_lex_skips_whitespace() {
    let tokens = lex_all("  \t\n\r  foo  ").unwrap();
    assert_eq!(tokens, vec![Token::Ident("foo".into()), Token::Eof]);
}

#[test]
fn lexer_lex_full_expression() {
    let tokens = lex_all("github.event_name == 'push' && !cancelled()").unwrap();
    assert_eq!(
        tokens,
        vec![
            Token::Ident("github".into()),
            Token::Dot,
            Token::Ident("event_name".into()),
            Token::Eq,
            Token::String("push".into()),
            Token::And,
            Token::Not,
            Token::Ident("cancelled".into()),
            Token::LParen,
            Token::RParen,
            Token::Eof,
        ]
    );
}

#[test]
fn lexer_lex_function_call_with_args() {
    let tokens = lex_all("contains('hello', 'll')").unwrap();
    assert_eq!(
        tokens,
        vec![
            Token::Ident("contains".into()),
            Token::LParen,
            Token::String("hello".into()),
            Token::Comma,
            Token::String("ll".into()),
            Token::RParen,
            Token::Eof,
        ]
    );
}

#[test]
fn lexer_lex_unexpected_char() {
    let err = lex_all("@").unwrap_err();
    assert_eq!(err, LexerError::UnexpectedChar('@', 0));
}

#[test]
fn lexer_lex_lone_ampersand_error() {
    let err = lex_all("&").unwrap_err();
    assert_eq!(err, LexerError::UnexpectedChar('&', 0));
}

#[test]
fn lexer_lex_lone_pipe_error() {
    let err = lex_all("|").unwrap_err();
    assert_eq!(err, LexerError::UnexpectedChar('|', 0));
}

#[test]
fn lexer_lex_lone_equals_error() {
    let err = lex_all("=").unwrap_err();
    assert_eq!(err, LexerError::UnexpectedChar('=', 0));
}

#[test]
fn lexer_integer_out_of_range_is_an_error() {
    let mut lexer = Lexer::new("99999999999999999999");
    assert_eq!(lexer.peek_token().unwrap_err(), LexerError::IntegerOutOfRange(0));
    assert_eq!(lex_all("x == 9223372036854775808").unwrap_err(), LexerError::IntegerOutOfRange(5));
    assert_eq!(lex_all("'é' < -9223372036854775809").unwrap_err(), LexerError::IntegerOutOfRange(7));
    assert_eq!(
        lex_all("-9223372036854775808").unwrap(),
        vec![Token::Int(i64::MIN), Token::Eof]
    );
    assert_eq!(
        lex_all("1.99999999999999999999").unwrap(),
        vec![Token::Float(FloatLiteral::new("1.99999999999999999999".into())), Token::Eof]
    );
}

#[test]
fn lexer_goes_on_after_an_integer_out_of_range() {
    let mut lexer = Lexer::new("99999999999999999999 x");
    assert_eq!(lexer.next_token().unwrap_err(), LexerError::IntegerOutOfRange(0));
    assert_eq!(lexer.next_token().unwrap(), Token::Ident("x".into()));
    assert_eq!(lexer.next_token().unwrap(), Token::Eof);
}

#[test]
fn lexer_peek_twice_then_next_then_the_following_token() {
    let mut lexer = Lexer::new("a.b");
    assert_eq!(lexer.peek_token().unwrap(), Token::Ident("a".into()));
    assert_eq!(lexer.peek_token().unwrap(), Token::Ident("a".into()));
    assert_eq!(lexer.next_token().unwrap(), Token::Ident("a".into()));
    assert_eq!(lexer.next_token().unwrap(), Token::Dot);
    assert_eq!(lexer.next_token().unwrap(), Token::Ident("b".into()));
    assert_eq!(lexer.next_token().unwrap(), Token::Eof);
}
