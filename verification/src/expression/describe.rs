//! How tokens and lexer errors are named in error messages: the shape of
//! their `Debug` text.
use vstd::prelude::*;

use crate::errors::LexerError;
use crate::expression::expr::{float_debug, float_literal_debug};
use crate::expression::token::{Token, TokenModel};
use crate::text::{append_str, chars_of, i64_text, push_char, signed_decimal, u64_text, decimal_digits};

verus! {

/// A character inside a double-quoted text, with quotes, backslashes and
/// common control characters escaped.
pub open spec fn escape_char(c: char) -> Seq<char> {
    if c == '"' {
        seq!['\\', '"']
    } else if c == '\\' {
        seq!['\\', '\\']
    } else if c == '\n' {
        seq!['\\', 'n']
    } else if c == '\r' {
        seq!['\\', 'r']
    } else if c == '\t' {
        seq!['\\', 't']
    } else if c == '\0' {
        seq!['\\', '0']
    } else {
        seq![c]
    }
}

/// Every character of a text, escaped.
pub open spec fn escape_text(s: Seq<char>) -> Seq<char>
    decreases s.len(),
{
    if s.len() == 0 {
        Seq::empty()
    } else {
        escape_text(s.drop_last()) + escape_char(s.last())
    }
}

/// A text between double quotes.
pub open spec fn quoted(s: Seq<char>) -> Seq<char> {
    seq!['"'] + escape_text(s) + seq!['"']
}

/// A character between single quotes.
pub open spec fn char_debug(c: char) -> Seq<char> {
    let body = if c == '\'' { seq!['\\', '\''] } else if c == '"' { seq![c] } else { escape_char(c) };
    seq!['\''] + body + seq!['\'']
}

/// The name of a token as error messages give it.
pub open spec fn token_debug(t: TokenModel) -> Seq<char> {
    match t {
        TokenModel::Dot => "Dot"@,
        TokenModel::LBracket => "LBracket"@,
        TokenModel::RBracket => "RBracket"@,
        TokenModel::LParen => "LParen"@,
        TokenModel::RParen => "RParen"@,
        TokenModel::Star => "Star"@,
        TokenModel::Comma => "Comma"@,
        TokenModel::Not => "Not"@,
        TokenModel::Eq => "Eq"@,
        TokenModel::Neq => "Neq"@,
        TokenModel::Lt => "Lt"@,
        TokenModel::Lte => "Lte"@,
        TokenModel::Gt => "Gt"@,
        TokenModel::Gte => "Gte"@,
        TokenModel::And => "And"@,
        TokenModel::Or => "Or"@,
        TokenModel::Str(s) => "String("@ + quoted(s) + ")"@,
        TokenModel::Int(n) => "Int("@ + signed_decimal(n) + ")"@,
        TokenModel::Float(f) => "Float("@ + float_debug(f) + ")"@,
        TokenModel::Bool(b) => if b { "Bool(true)"@ } else { "Bool(false)"@ },
        TokenModel::Null => "Null"@,
        TokenModel::Ident(s) => "Ident("@ + quoted(s) + ")"@,
        TokenModel::Eof => "Eof"@,
    }
}

/// The name of a lexer error as error messages give it.
pub open spec fn lexer_error_debug(e: LexerError) -> Seq<char> {
    match e {
        LexerError::UnexpectedChar(c, p) => "UnexpectedChar("@ + char_debug(c) + ", "@ + decimal_digits(p as nat) + ")"@,
        LexerError::UnterminatedString(p) => "UnterminatedString("@ + decimal_digits(p as nat) + ")"@,
        LexerError::IntegerOutOfRange(p) => "IntegerOutOfRange("@ + decimal_digits(p as nat) + ")"@,
    }
}

fn push_escaped(r: &mut String, c: char)
    ensures
        final(r)@ == old(r)@ + escape_char(c),
{
    let ghost before = r@;
    if c == '"' {
        push_char(r, '\\');
        push_char(r, '"');
    } else if c == '\\' {
        push_char(r, '\\');
        push_char(r, '\\');
    } else if c == '\n' {
        push_char(r, '\\');
        push_char(r, 'n');
    } else if c == '\r' {
        push_char(r, '\\');
        push_char(r, 'r');
    } else if c == '\t' {
        push_char(r, '\\');
        push_char(r, 't');
    } else if c == '\0' {
        push_char(r, '\\');
        push_char(r, '0');
    } else {
        push_char(r, c);
    }
    assert(r@ =~= before + escape_char(c));
}

/// Appends a text between double quotes, escaped.
pub fn push_quoted(r: &mut String, s: &str)
    ensures
        final(r)@ == old(r)@ + quoted(s@),
{
    let cs = chars_of(s);
    let ghost start = r@;
    push_char(r, '"');
    let mut i: usize = 0;
    while i < cs.len()
        invariant
            i <= cs.len(),
            cs@ == s@,
            r@ == start + seq!['"'] + escape_text(cs@.take(i as int)),
        decreases cs.len() - i,
    {
        proof {
            assert(cs@.take(i + 1).drop_last() =~= cs@.take(i as int));
        }
        push_escaped(r, cs[i]);
        i = i + 1;
        assert(r@ =~= start + seq!['"'] + escape_text(cs@.take(i as int)));
    }
    push_char(r, '"');
    assert(cs@.take(cs.len() as int) =~= cs@);
    assert(r@ =~= start + quoted(s@));
}

/// The name of a token as error messages give it.
pub fn describe_token(t: &Token) -> (r: String)
    ensures
        r@ == token_debug(t@),
{
    let mut r = String::new();
    match t {
        Token::Dot => append_str(&mut r, "Dot"),
        Token::LBracket => append_str(&mut r, "LBracket"),
        Token::RBracket => append_str(&mut r, "RBracket"),
        Token::LParen => append_str(&mut r, "LParen"),
        Token::RParen => append_str(&mut r, "RParen"),
        Token::Star => append_str(&mut r, "Star"),
        Token::Comma => append_str(&mut r, "Comma"),
        Token::Not => append_str(&mut r, "Not"),
        Token::Eq => append_str(&mut r, "Eq"),
        Token::Neq => append_str(&mut r, "Neq"),
        Token::Lt => append_str(&mut r, "Lt"),
        Token::Lte => append_str(&mut r, "Lte"),
        Token::Gt => append_str(&mut r, "Gt"),
        Token::Gte => append_str(&mut r, "Gte"),
        Token::And => append_str(&mut r, "And"),
        Token::Or => append_str(&mut r, "Or"),
        Token::String(s) => {
            append_str(&mut r, "String(");
            push_quoted(&mut r, s.as_str());
            append_str(&mut r, ")");
        },
        Token::Int(n) => {
            append_str(&mut r, "Int(");
            let d = i64_text(*n);
            append_str(&mut r, d.as_str());
            append_str(&mut r, ")");
        },
        Token::Float(f) => {
            append_str(&mut r, "Float(");
            let d = float_literal_debug(f);
            append_str(&mut r, d.as_str());
            append_str(&mut r, ")");
        },
        Token::Bool(b) => {
            if *b {
                append_str(&mut r, "Bool(true)");
            } else {
                append_str(&mut r, "Bool(false)");
            }
        },
        Token::Null => append_str(&mut r, "Null"),
        Token::Ident(s) => {
            append_str(&mut r, "Ident(");
            push_quoted(&mut r, s.as_str());
            append_str(&mut r, ")");
        },
        Token::Eof => append_str(&mut r, "Eof"),
    }
    proof {
        assert(r@ =~= token_debug(t@));
    }
    r
}

/// The name of a lexer error as error messages give it.
pub fn describe_lexer_error(e: &LexerError) -> (r: String)
    ensures
        r@ == lexer_error_debug(*e),
{
    let mut r = String::new();
    match e {
        LexerError::UnexpectedChar(c, p) => {
            append_str(&mut r, "UnexpectedChar(");
            push_char(&mut r, '\'');
            if *c == '\'' {
                push_char(&mut r, '\\');
                push_char(&mut r, '\'');
            } else if *c == '"' {
                push_char(&mut r, '"');
            } else {
                push_escaped(&mut r, *c);
            }
            push_char(&mut r, '\'');
            append_str(&mut r, ", ");
            let d = u64_text(*p as u64);
            append_str(&mut r, d.as_str());
            append_str(&mut r, ")");
        },
        LexerError::UnterminatedString(p) => {
            append_str(&mut r, "UnterminatedString(");
            let d = u64_text(*p as u64);
            append_str(&mut r, d.as_str());
            append_str(&mut r, ")");
        },
        LexerError::IntegerOutOfRange(p) => {
            append_str(&mut r, "IntegerOutOfRange(");
            let d = u64_text(*p as u64);
            append_str(&mut r, d.as_str());
            append_str(&mut r, ")");
        },
    }
    proof {
        assert(r@ =~= lexer_error_debug(*e));
    }
    r
}

} // verus!
