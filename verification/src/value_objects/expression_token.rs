use vstd::prelude::*;

use crate::expression::describe::{push_quoted, quoted};
use crate::expression::expr::{float_debug, float_literal_debug};
use crate::expression::token::{FloatLiteral, TokenModel};
use crate::text::{append_str, i64_text, signed_decimal};

verus! {

/// A lexical token of the expression language.
#[derive(Debug, Clone, PartialEq)]
pub enum ExpressionToken {
    /// `.`
    Dot,
    /// `[`
    LeftBracket,
    /// `]`
    RightBracket,
    /// `(`
    LeftParenthesis,
    /// `)`
    RightParenthesis,
    /// `*`
    Star,
    /// `,`
    Comma,
    /// `!`
    Not,
    /// `==`
    Equal,
    /// `!=`
    NotEqual,
    /// `<`
    LessThan,
    /// `<=`
    LessThanOrEqual,
    /// `>`
    GreaterThan,
    /// `>=`
    GreaterThanOrEqual,
    /// `&&`
    And,
    /// `||`
    Or,
    /// A single-quoted string literal, with `''` escapes resolved.
    String(String),
    /// An integer literal.
    Integer(i64),
    /// A fractional number literal.
    Float(FloatLiteral),
    /// `true` or `false`.
    Boolean(bool),
    /// `null`.
    Null,
    /// An identifier.
    Identifier(String),
    /// End of input.
    EndOfInput,
}

impl View for ExpressionToken {
    type V = TokenModel;

    open spec fn view(&self) -> TokenModel {
        match self {
            ExpressionToken::Dot => TokenModel::Dot,
            ExpressionToken::LeftBracket => TokenModel::LBracket,
            ExpressionToken::RightBracket => TokenModel::RBracket,
            ExpressionToken::LeftParenthesis => TokenModel::LParen,
            ExpressionToken::RightParenthesis => TokenModel::RParen,
            ExpressionToken::Star => TokenModel::Star,
            ExpressionToken::Comma => TokenModel::Comma,
            ExpressionToken::Not => TokenModel::Not,
            ExpressionToken::Equal => TokenModel::Eq,
            ExpressionToken::NotEqual => TokenModel::Neq,
            ExpressionToken::LessThan => TokenModel::Lt,
            ExpressionToken::LessThanOrEqual => TokenModel::Lte,
            ExpressionToken::GreaterThan => TokenModel::Gt,
            ExpressionToken::GreaterThanOrEqual => TokenModel::Gte,
            ExpressionToken::And => TokenModel::And,
            ExpressionToken::Or => TokenModel::Or,
            ExpressionToken::String(s) => TokenModel::Str(s@),
            ExpressionToken::Integer(n) => TokenModel::Int(*n as int),
            ExpressionToken::Float(f) => TokenModel::Float(f@),
            ExpressionToken::Boolean(b) => TokenModel::Bool(*b),
            ExpressionToken::Null => TokenModel::Null,
            ExpressionToken::Identifier(s) => TokenModel::Ident(s@),
            ExpressionToken::EndOfInput => TokenModel::Eof,
        }
    }
}

impl ExpressionToken {
    /// A copy of this token.
    pub fn duplicate(&self) -> (r: Self)
        ensures
            r@ == self@,
    {
        match self {
            ExpressionToken::Dot => ExpressionToken::Dot,
            ExpressionToken::LeftBracket => ExpressionToken::LeftBracket,
            ExpressionToken::RightBracket => ExpressionToken::RightBracket,
            ExpressionToken::LeftParenthesis => ExpressionToken::LeftParenthesis,
            ExpressionToken::RightParenthesis => ExpressionToken::RightParenthesis,
            ExpressionToken::Star => ExpressionToken::Star,
            ExpressionToken::Comma => ExpressionToken::Comma,
            ExpressionToken::Not => ExpressionToken::Not,
            ExpressionToken::Equal => ExpressionToken::Equal,
            ExpressionToken::NotEqual => ExpressionToken::NotEqual,
            ExpressionToken::LessThan => ExpressionToken::LessThan,
            ExpressionToken::LessThanOrEqual => ExpressionToken::LessThanOrEqual,
            ExpressionToken::GreaterThan => ExpressionToken::GreaterThan,
            ExpressionToken::GreaterThanOrEqual => ExpressionToken::GreaterThanOrEqual,
            ExpressionToken::And => ExpressionToken::And,
            ExpressionToken::Or => ExpressionToken::Or,
            ExpressionToken::String(s) => ExpressionToken::String(s.clone()),
            ExpressionToken::Integer(n) => ExpressionToken::Integer(*n),
            ExpressionToken::Float(f) => ExpressionToken::Float(f.duplicate()),
            ExpressionToken::Boolean(b) => ExpressionToken::Boolean(*b),
            ExpressionToken::Null => ExpressionToken::Null,
            ExpressionToken::Identifier(s) => ExpressionToken::Identifier(s.clone()),
            ExpressionToken::EndOfInput => ExpressionToken::EndOfInput,
        }
    }
}

/// The name of a token as error messages give it.
pub open spec fn expression_token_debug(t: TokenModel) -> Seq<char> {
    match t {
        TokenModel::Dot => "Dot"@,
        TokenModel::LBracket => "LeftBracket"@,
        TokenModel::RBracket => "RightBracket"@,
        TokenModel::LParen => "LeftParenthesis"@,
        TokenModel::RParen => "RightParenthesis"@,
        TokenModel::Star => "Star"@,
        TokenModel::Comma => "Comma"@,
        TokenModel::Not => "Not"@,
        TokenModel::Eq => "Equal"@,
        TokenModel::Neq => "NotEqual"@,
        TokenModel::Lt => "LessThan"@,
        TokenModel::Lte => "LessThanOrEqual"@,
        TokenModel::Gt => "GreaterThan"@,
        TokenModel::Gte => "GreaterThanOrEqual"@,
        TokenModel::And => "And"@,
        TokenModel::Or => "Or"@,
        TokenModel::Str(s) => "String("@ + quoted(s) + ")"@,
        TokenModel::Int(n) => "Integer("@ + signed_decimal(n) + ")"@,
        TokenModel::Float(f) => "Float("@ + float_debug(f) + ")"@,
        TokenModel::Bool(b) => if b { "Boolean(true)"@ } else { "Boolean(false)"@ },
        TokenModel::Null => "Null"@,
        TokenModel::Ident(s) => "Identifier("@ + quoted(s) + ")"@,
        TokenModel::Eof => "EndOfInput"@,
    }
}

/// The name of a token as error messages give it.
pub fn describe_expression_token(t: &ExpressionToken) -> (r: String)
    ensures
        r@ == expression_token_debug(t@),
{
    let mut r = String::new();
    match t {
        ExpressionToken::Dot => append_str(&mut r, "Dot"),
        ExpressionToken::LeftBracket => append_str(&mut r, "LeftBracket"),
        ExpressionToken::RightBracket => append_str(&mut r, "RightBracket"),
        ExpressionToken::LeftParenthesis => append_str(&mut r, "LeftParenthesis"),
        ExpressionToken::RightParenthesis => append_str(&mut r, "RightParenthesis"),
        ExpressionToken::Star => append_str(&mut r, "Star"),
        ExpressionToken::Comma => append_str(&mut r, "Comma"),
        ExpressionToken::Not => append_str(&mut r, "Not"),
        ExpressionToken::Equal => append_str(&mut r, "Equal"),
        ExpressionToken::NotEqual => append_str(&mut r, "NotEqual"),
        ExpressionToken::LessThan => append_str(&mut r, "LessThan"),
        ExpressionToken::LessThanOrEqual => append_str(&mut r, "LessThanOrEqual"),
        ExpressionToken::GreaterThan => append_str(&mut r, "GreaterThan"),
        ExpressionToken::GreaterThanOrEqual => append_str(&mut r, "GreaterThanOrEqual"),
        ExpressionToken::And => append_str(&mut r, "And"),
        ExpressionToken::Or => append_str(&mut r, "Or"),
        ExpressionToken::String(s) => {
            append_str(&mut r, "String(");
            push_quoted(&mut r, s.as_str());
            append_str(&mut r, ")");
        },
        ExpressionToken::Integer(n) => {
            append_str(&mut r, "Integer(");
            let d = i64_text(*n);
            append_str(&mut r, d.as_str());
            append_str(&mut r, ")");
        },
        ExpressionToken::Float(f) => {
            append_str(&mut r, "Float(");
            let d = float_literal_debug(f);
            append_str(&mut r, d.as_str());
            append_str(&mut r, ")");
        },
        ExpressionToken::Boolean(b) => {
            if *b {
                append_str(&mut r, "Boolean(true)");
            } else {
                append_str(&mut r, "Boolean(false)");
            }
        },
        ExpressionToken::Null => append_str(&mut r, "Null"),
        ExpressionToken::Identifier(s) => {
            append_str(&mut r, "Identifier(");
            push_quoted(&mut r, s.as_str());
            append_str(&mut r, ")");
        },
        ExpressionToken::EndOfInput => append_str(&mut r, "EndOfInput"),
    }
    proof {
        assert(r@ =~= expression_token_debug(t@));
    }
    r
}

} // verus!
