use vstd::prelude::*;

verus! {

/// The text of a fractional number literal, exactly as it was written:
/// an optional `-`, one or more digits, a `.` and one or more digits.
///
/// The numeric value is the rational number this decimal text denotes;
/// turning it into a binary floating-point number is left to the caller.
#[derive(Debug, Clone, PartialEq)]
pub struct FloatLiteral {
    text: String,
}

impl View for FloatLiteral {
    type V = Seq<char>;

    closed spec fn view(&self) -> Seq<char> {
        self.text@
    }
}

impl FloatLiteral {
    /// Wraps the decimal text of a fractional literal.
    pub fn new(text: String) -> (r: Self)
        ensures
            r@ == text@,
    {
        FloatLiteral { text }
    }

    /// The decimal text of the literal.
    pub fn text(&self) -> (r: &str)
        ensures
            r@ == self@,
    {
        self.text.as_str()
    }

    /// A copy of this literal.
    pub fn duplicate(&self) -> (r: Self)
        ensures
            r@ == self@,
    {
        FloatLiteral { text: self.text.clone() }
    }
}

/// The abstract content of a token: texts as character sequences, numbers as integers.
pub enum TokenModel {
    Dot,
    LBracket,
    RBracket,
    LParen,
    RParen,
    Star,
    Comma,
    Not,
    Eq,
    Neq,
    Lt,
    Lte,
    Gt,
    Gte,
    And,
    Or,
    Str(Seq<char>),
    Int(int),
    Float(Seq<char>),
    Bool(bool),
    Null,
    Ident(Seq<char>),
    Eof,
}

/// A lexical token of the expression language.
#[derive(Debug, Clone, PartialEq)]
pub enum Token {
    /// `.`
    Dot,
    /// `[`
    LBracket,
    /// `]`
    RBracket,
    /// `(`
    LParen,
    /// `)`
    RParen,
    /// `*`
    Star,
    /// `,`
    Comma,
    /// `!`
    Not,
    /// `==`
    Eq,
    /// `!=`
    Neq,
    /// `<`
    Lt,
    /// `<=`
    Lte,
    /// `>`
    Gt,
    /// `>=`
    Gte,
    /// `&&`
    And,
    /// `||`
    Or,
    /// A single-quoted string literal, with `''` escapes resolved.
    String(String),
    /// An integer literal.
    Int(i64),
    /// A fractional number literal.
    Float(FloatLiteral),
    /// `true` or `false`.
    Bool(bool),
    /// `null`.
    Null,
    /// An identifier.
    Ident(String),
    /// End of input.
    Eof,
}

impl View for Token {
    type V = TokenModel;

    open spec fn view(&self) -> TokenModel {
        match self {
            Token::Dot => TokenModel::Dot,
            Token::LBracket => TokenModel::LBracket,
            Token::RBracket => TokenModel::RBracket,
            Token::LParen => TokenModel::LParen,
            Token::RParen => TokenModel::RParen,
            Token::Star => TokenModel::Star,
            Token::Comma => TokenModel::Comma,
            Token::Not => TokenModel::Not,
            Token::Eq => TokenModel::Eq,
            Token::Neq => TokenModel::Neq,
            Token::Lt => TokenModel::Lt,
            Token::Lte => TokenModel::Lte,
            Token::Gt => TokenModel::Gt,
            Token::Gte => TokenModel::Gte,
            Token::And => TokenModel::And,
            Token::Or => TokenModel::Or,
            Token::String(s) => TokenModel::Str(s@),
            Token::Int(n) => TokenModel::Int(*n as int),
            Token::Float(f) => TokenModel::Float(f@),
            Token::Bool(b) => TokenModel::Bool(*b),
            Token::Null => TokenModel::Null,
            Token::Ident(s) => TokenModel::Ident(s@),
            Token::Eof => TokenModel::Eof,
        }
    }
}

impl Token {
    /// A copy of this token.
    pub fn duplicate(&self) -> (r: Self)
        ensures
            r@ == self@,
    {
        match self {
            Token::Dot => Token::Dot,
            Token::LBracket => Token::LBracket,
            Token::RBracket => Token::RBracket,
            Token::LParen => Token::LParen,
            Token::RParen => Token::RParen,
            Token::Star => Token::Star,
            Token::Comma => Token::Comma,
            Token::Not => Token::Not,
            Token::Eq => Token::Eq,
            Token::Neq => Token::Neq,
            Token::Lt => Token::Lt,
            Token::Lte => Token::Lte,
            Token::Gt => Token::Gt,
            Token::Gte => Token::Gte,
            Token::And => Token::And,
            Token::Or => Token::Or,
            Token::String(s) => Token::String(s.clone()),
            Token::Int(n) => Token::Int(*n),
            Token::Float(f) => Token::Float(f.duplicate()),
            Token::Bool(b) => Token::Bool(*b),
            Token::Null => Token::Null,
            Token::Ident(s) => Token::Ident(s.clone()),
            Token::Eof => Token::Eof,
        }
    }
}

} // verus!
