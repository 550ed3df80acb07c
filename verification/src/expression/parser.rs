use vstd::prelude::*;

use crate::errors::{LexerError, ParseError};
use crate::expression::describe::{describe_lexer_error, describe_token, lexer_error_debug, token_debug};
use crate::expression::expr::{args_model, lemma_args_model_push, CompareOp, Expr, ExprModel, Literal, LogicalOp};
use crate::expression::grammar::{
    advanced, args_rest, call_postfix, dot_postfix, expect_error, index_postfix, is_postfix_at, logical_rest, next_postfix, p_args, p_compare,
    p_expr, p_logical, p_postfix, p_primary, p_unary, parse_tokens, parse_tokens_from, peek_at, postfix_rest,
    Describe, PArgs, PStep,
};
use crate::expression::lexer::{lemma_spec_next_bounds, spec_next, Lexer};
use crate::expression::token::{Token, TokenModel};
use crate::text::{append_str, owned, same_text};

verus! {

/// The abstract content of a token sequence.
pub open spec fn tokens_model(ts: Seq<Token>) -> Seq<TokenModel> {
    ts.map_values(|t: Token| t@)
}

/// Tokens named as [`describe_token`] names them.
pub open spec fn token_names() -> Describe {
    |t: TokenModel| token_debug(t)
}

/// The abstract outcome of a parsing step ending at `pos`.
pub open spec fn pstep(r: Result<Expr, ParseError>, pos: int) -> PStep {
    match r {
        Ok(e) => Ok((e@, pos)),
        Err(err) => Err((err.message_view(), err.position_view())),
    }
}

/// The abstract outcome of parsing an argument list ending at `pos`.
pub open spec fn pargs(r: Result<Vec<Expr>, ParseError>, pos: int) -> PArgs {
    match r {
        Ok(args) => Ok((args_model(args@), pos)),
        Err(err) => Err((err.message_view(), err.position_view())),
    }
}

/// The abstract outcome of a whole parse.
pub open spec fn parse_result(r: Result<Expr, ParseError>) -> Result<ExprModel, (Seq<char>, int)> {
    match r {
        Ok(e) => Ok(e@),
        Err(err) => Err((err.message_view(), err.position_view())),
    }
}

/// Recursive-descent parser over a token slice.
pub struct Parser<'a> {
    tokens: &'a [Token],
    pos: usize,
}

impl<'a> Parser<'a> {
    /// The tokens being parsed.
    pub closed spec fn toks(&self) -> Seq<TokenModel> {
        tokens_model(self.tokens@)
    }

    /// Index of the next token.
    pub closed spec fn pos(&self) -> int {
        self.pos as int
    }

    /// Creates a parser over a token slice, positioned at its first token.
    pub fn new(tokens: &'a [Token]) -> (r: Self)
        ensures
            r.toks() == tokens_model(tokens@),
            r.pos() == 0,
    {
        Self { tokens, pos: 0 }
    }

    /// Parses the whole token stream into an expression.
    ///
    /// Fails when the tokens do not form an expression or when tokens are
    /// left over after it.
    pub fn parse(&mut self) -> (r: Result<Expr, ParseError>)
        requires
            old(self).pos() <= old(self).toks().len(),
        ensures
            final(self).toks() == old(self).toks(),
            parse_result(r) == parse_tokens_from(old(self).toks(), old(self).pos(), token_names()),
    {
        let expr = match self.parse_expr() {
            Ok(e) => e,
            Err(err) => return Err(err),
        };
        if self.pos < self.tokens.len() {
            return Err(self.error("unexpected tokens after expression"));
        }
        Ok(expr)
    }

    fn parse_expr(&mut self) -> (r: Result<Expr, ParseError>)
        requires
            old(self).pos() <= old(self).toks().len(),
        ensures
            final(self).toks() == old(self).toks(),
            final(self).pos() <= final(self).toks().len(),
            r is Ok ==> advanced(old(self).toks(), old(self).pos(), final(self).pos()),
            pstep(r, final(self).pos()) == p_expr(old(self).toks(), old(self).pos(), token_names()),
        decreases old(self).tokens@.len() - old(self).pos, 8nat,
    {
        self.parse_logical()
    }

    fn parse_logical(&mut self) -> (r: Result<Expr, ParseError>)
        requires
            old(self).pos() <= old(self).toks().len(),
        ensures
            final(self).toks() == old(self).toks(),
            final(self).pos() <= final(self).toks().len(),
            r is Ok ==> advanced(old(self).toks(), old(self).pos(), final(self).pos()),
            pstep(r, final(self).pos()) == p_logical(old(self).toks(), old(self).pos(), token_names()),
        decreases old(self).tokens@.len() - old(self).pos, 7nat,
    {
        let ghost p0 = self.pos as int;
        let ghost toks = self.toks();
        let mut left = match self.parse_compare() {
            Ok(e) => e,
            Err(err) => return Err(err),
        };
        loop
            invariant
                self.toks() == toks,
                toks == old(self).toks(),
                p0 == old(self).pos(),
                p0 < self.pos() <= toks.len(),
                p_logical(toks, p0, token_names()) == logical_rest(toks, left@, self.pos(), token_names()),
            ensures
                self.toks() == toks,
                p0 < self.pos() <= toks.len(),
                p_logical(toks, p0, token_names()) == Ok::<(ExprModel, int), (Seq<char>, int)>((left@, self.pos())),
            decreases toks.len() - self.pos(),
        {
            let op = match self.peek() {
                Some(Token::And) => LogicalOp::And,
                Some(Token::Or) => LogicalOp::Or,
                _ => break,
            };
            let ghost p1 = self.pos as int;
            self.advance();
            let right = match self.parse_compare() {
                Ok(e) => e,
                Err(err) => return Err(err),
            };
            left = Expr::Logical(op, Box::new(left), Box::new(right));
            proof {
                assert(advanced(toks, p1, self.pos()));
            }
        }
        Ok(left)
    }

    fn parse_compare(&mut self) -> (r: Result<Expr, ParseError>)
        requires
            old(self).pos() <= old(self).toks().len(),
        ensures
            final(self).toks() == old(self).toks(),
            final(self).pos() <= final(self).toks().len(),
            r is Ok ==> advanced(old(self).toks(), old(self).pos(), final(self).pos()),
            pstep(r, final(self).pos()) == p_compare(old(self).toks(), old(self).pos(), token_names()),
        decreases old(self).tokens@.len() - old(self).pos, 6nat,
    {
        let left = match self.parse_unary() {
            Ok(e) => e,
            Err(err) => return Err(err),
        };
        let op = match self.peek() {
            Some(Token::Eq) => CompareOp::Eq,
            Some(Token::Neq) => CompareOp::Neq,
            Some(Token::Lt) => CompareOp::Lt,
            Some(Token::Lte) => CompareOp::Lte,
            Some(Token::Gt) => CompareOp::Gt,
            Some(Token::Gte) => CompareOp::Gte,
            _ => return Ok(left),
        };
        self.advance();
        let right = match self.parse_unary() {
            Ok(e) => e,
            Err(err) => return Err(err),
        };
        Ok(Expr::Compare(op, Box::new(left), Box::new(right)))
    }

    fn parse_unary(&mut self) -> (r: Result<Expr, ParseError>)
        requires
            old(self).pos() <= old(self).toks().len(),
        ensures
            final(self).toks() == old(self).toks(),
            final(self).pos() <= final(self).toks().len(),
            r is Ok ==> advanced(old(self).toks(), old(self).pos(), final(self).pos()),
            pstep(r, final(self).pos()) == p_unary(old(self).toks(), old(self).pos(), token_names()),
        decreases old(self).tokens@.len() - old(self).pos, 5nat,
    {
        if let Some(Token::Not) = self.peek() {
            self.advance();
            let inner = match self.parse_unary() {
                Ok(e) => e,
                Err(err) => return Err(err),
            };
            return Ok(Expr::Not(Box::new(inner)));
        }
        self.parse_postfix()
    }

    fn parse_postfix(&mut self) -> (r: Result<Expr, ParseError>)
        requires
            old(self).pos() <= old(self).toks().len(),
        ensures
            final(self).toks() == old(self).toks(),
            final(self).pos() <= final(self).toks().len(),
            r is Ok ==> advanced(old(self).toks(), old(self).pos(), final(self).pos()),
            pstep(r, final(self).pos()) == p_postfix(old(self).toks(), old(self).pos(), token_names()),
        decreases old(self).tokens@.len() - old(self).pos, 4nat,
    {
        let ghost p0 = self.pos as int;
        let ghost toks = self.toks();
        let mut expr = match self.parse_primary() {
            Ok(e) => e,
            Err(err) => return Err(err),
        };
        while self.has_postfix_token()
            invariant
                self.toks() == toks,
                toks == old(self).toks(),
                p0 == old(self).pos(),
                p0 < self.pos() <= toks.len(),
                p_postfix(toks, p0, token_names()) == postfix_rest(toks, expr@, self.pos(), token_names()),
            decreases toks.len() - self.pos(),
        {
            let ghost p1 = self.pos as int;
            expr = match self.parse_next_postfix(expr) {
                Ok(e) => e,
                Err(err) => return Err(err),
            };
            proof {
                assert(advanced(toks, p1, self.pos()));
            }
        }
        Ok(expr)
    }

    fn has_postfix_token(&self) -> (r: bool)
        ensures
            r == is_postfix_at(self.toks(), self.pos()),
    {
        match self.peek() {
            Some(Token::Dot) => true,
            Some(Token::LBracket) => true,
            Some(Token::LParen) => true,
            _ => false,
        }
    }

    fn parse_next_postfix(&mut self, expr: Expr) -> (r: Result<Expr, ParseError>)
        requires
            old(self).pos() <= old(self).toks().len(),
            is_postfix_at(old(self).toks(), old(self).pos()),
        ensures
            final(self).toks() == old(self).toks(),
            final(self).pos() <= final(self).toks().len(),
            r is Ok ==> advanced(old(self).toks(), old(self).pos(), final(self).pos()),
            pstep(r, final(self).pos()) == next_postfix(old(self).toks(), expr@, old(self).pos(), token_names()),
        decreases old(self).tokens@.len() - old(self).pos, 2nat,
    {
        match self.peek() {
            Some(Token::Dot) => self.parse_dot_postfix(expr),
            Some(Token::LBracket) => self.parse_index_postfix(expr),
            Some(Token::LParen) => self.parse_call_postfix(expr),
            _ => Ok(expr),
        }
    }

    fn parse_dot_postfix(&mut self, expr: Expr) -> (r: Result<Expr, ParseError>)
        requires
            old(self).pos() < old(self).toks().len(),
        ensures
            final(self).toks() == old(self).toks(),
            final(self).pos() <= final(self).toks().len(),
            r is Ok ==> advanced(old(self).toks(), old(self).pos(), final(self).pos()),
            pstep(r, final(self).pos()) == dot_postfix(old(self).toks(), expr@, old(self).pos(), token_names()),
    {
        self.advance();
        if let Some(Token::Star) = self.peek() {
            self.advance();
            Ok(Expr::ArrayDeref(Box::new(expr)))
        } else {
            let ident = match self.expect_ident("property name after '.'") {
                Ok(name) => name,
                Err(err) => return Err(err),
            };
            Ok(Expr::PropertyAccess(Box::new(expr), ident))
        }
    }

    fn parse_index_postfix(&mut self, expr: Expr) -> (r: Result<Expr, ParseError>)
        requires
            old(self).pos() < old(self).toks().len(),
        ensures
            final(self).toks() == old(self).toks(),
            final(self).pos() <= final(self).toks().len(),
            r is Ok ==> advanced(old(self).toks(), old(self).pos(), final(self).pos()),
            pstep(r, final(self).pos()) == index_postfix(old(self).toks(), expr@, old(self).pos(), token_names()),
        decreases old(self).tokens@.len() - old(self).pos, 1nat,
    {
        self.advance();
        let idx = match self.parse_expr() {
            Ok(e) => e,
            Err(err) => return Err(err),
        };
        match self.expect(Token::RBracket, "expected ']'") {
            Ok(()) => {},
            Err(err) => return Err(err),
        }
        Ok(Expr::IndexAccess(Box::new(expr), Box::new(idx)))
    }

    fn parse_call_postfix(&mut self, expr: Expr) -> (r: Result<Expr, ParseError>)
        requires
            old(self).pos() < old(self).toks().len(),
        ensures
            final(self).toks() == old(self).toks(),
            final(self).pos() <= final(self).toks().len(),
            r is Ok ==> advanced(old(self).toks(), old(self).pos(), final(self).pos()),
            pstep(r, final(self).pos()) == call_postfix(old(self).toks(), expr@, old(self).pos(), token_names()),
        decreases old(self).tokens@.len() - old(self).pos, 1nat,
    {
        self.advance();
        let args = match self.parse_args() {
            Ok(a) => a,
            Err(err) => return Err(err),
        };
        match self.expect(Token::RParen, "expected ')'") {
            Ok(()) => {},
            Err(err) => return Err(err),
        }
        let name = match &expr {
            Expr::Variable(n) => n.clone(),
            _ => return Err(self.error("function call requires a function name before '('")),
        };
        Ok(Expr::FuncCall(name, args))
    }

    fn parse_primary(&mut self) -> (r: Result<Expr, ParseError>)
        requires
            old(self).pos() <= old(self).toks().len(),
        ensures
            final(self).toks() == old(self).toks(),
            final(self).pos() <= final(self).toks().len(),
            r is Ok ==> advanced(old(self).toks(), old(self).pos(), final(self).pos()),
            pstep(r, final(self).pos()) == p_primary(old(self).toks(), old(self).pos(), token_names()),
        decreases old(self).tokens@.len() - old(self).pos, 0nat,
    {
        if self.pos >= self.tokens.len() {
            return Err(self.error("unexpected end of expression"));
        }
        let tokens = self.tokens;
        match &tokens[self.pos] {
            Token::Ident(name) => {
                self.advance();
                proof {
                    reveal_strlit("true");
                    reveal_strlit("false");
                    reveal_strlit("null");
                }
                if same_text(name.as_str(), "true") {
                    return Ok(Expr::Literal(Literal::Bool(true)));
                }
                if same_text(name.as_str(), "false") {
                    return Ok(Expr::Literal(Literal::Bool(false)));
                }
                if same_text(name.as_str(), "null") {
                    return Ok(Expr::Literal(Literal::Null));
                }
                Ok(Expr::Variable(name.clone()))
            },
            Token::String(s) => {
                self.advance();
                Ok(Expr::Literal(Literal::String(s.clone())))
            },
            Token::Int(n) => {
                self.advance();
                Ok(Expr::Literal(Literal::Int(*n)))
            },
            Token::Float(f) => {
                self.advance();
                Ok(Expr::Literal(Literal::Float(f.duplicate())))
            },
            Token::Bool(b) => {
                self.advance();
                Ok(Expr::Literal(Literal::Bool(*b)))
            },
            Token::Null => {
                self.advance();
                Ok(Expr::Literal(Literal::Null))
            },
            Token::LParen => {
                self.advance();
                let expr = match self.parse_expr() {
                    Ok(e) => e,
                    Err(err) => return Err(err),
                };
                match self.expect(Token::RParen, "expected ')'") {
                    Ok(()) => {},
                    Err(err) => return Err(err),
                }
                Ok(expr)
            },
            other => {
                let mut msg = owned("unexpected token: ");
                let name = describe_token(other);
                append_str(&mut msg, name.as_str());
                Err(ParseError::new(msg, self.pos))
            },
        }
    }

    fn parse_args(&mut self) -> (r: Result<Vec<Expr>, ParseError>)
        requires
            old(self).pos() <= old(self).toks().len(),
        ensures
            final(self).toks() == old(self).toks(),
            final(self).pos() <= final(self).toks().len(),
            r is Ok ==> old(self).pos() <= final(self).pos(),
            pargs(r, final(self).pos()) == p_args(old(self).toks(), old(self).pos(), token_names()),
        decreases old(self).tokens@.len() - old(self).pos, 10nat,
    {
        let ghost p0 = self.pos as int;
        let ghost toks = self.toks();
        let mut args: Vec<Expr> = Vec::new();
        if let Some(Token::RParen) = self.peek() {
            return Ok(args);
        }
        proof {
            assert(args_model(args@) =~= Seq::<ExprModel>::empty());
        }
        loop
            invariant_except_break
                p_args(toks, p0, token_names()) == args_rest(toks, args_model(args@), self.pos(), token_names()),
            invariant
                self.toks() == toks,
                toks == old(self).toks(),
                p0 == old(self).pos(),
                p0 <= self.pos() <= toks.len(),
            ensures
                self.toks() == toks,
                p0 <= self.pos() <= toks.len(),
                p_args(toks, p0, token_names()) == Ok::<(Seq<ExprModel>, int), (Seq<char>, int)>((args_model(args@), self.pos())),
            decreases toks.len() - self.pos(),
        {
            let ghost before = args@;
            let e = match self.parse_expr() {
                Ok(e) => e,
                Err(err) => return Err(err),
            };
            let ghost em = e@;
            args.push(e);
            proof {
                lemma_args_model_push(before, args@.last());
                assert(args@ =~= before.push(args@.last()));
            }
            if let Some(Token::Comma) = self.peek() {
                self.advance();
            } else {
                break;
            }
        }
        Ok(args)
    }

    fn peek(&self) -> (r: Option<&Token>)
        ensures
            match r {
                Some(t) => peek_at(self.toks(), self.pos()) == Some(t@),
                None => peek_at(self.toks(), self.pos()) is None,
            },
    {
        if self.pos < self.tokens.len() {
            Some(&self.tokens[self.pos])
        } else {
            None
        }
    }

    fn advance(&mut self)
        ensures
            final(self).toks() == old(self).toks(),
            final(self).pos() == if old(self).pos() < old(self).toks().len() { old(self).pos() + 1 } else { old(self).pos() },
    {
        if self.pos < self.tokens.len() {
            self.pos += 1;
        }
    }

    fn expect(&mut self, expected: Token, msg: &str) -> (r: Result<(), ParseError>)
        ensures
            final(self).toks() == old(self).toks(),
            peek_at(old(self).toks(), old(self).pos()) == Some(expected@) ==> r is Ok && final(self).pos() == old(self).pos() + 1,
            r is Err ==> final(self).pos() == old(self).pos(),
            peek_at(old(self).toks(), old(self).pos()) != Some(expected@) ==> (r matches Err(err) && (err.message_view(), err.position_view()) == expect_error(msg@, old(self).toks(), old(self).pos(), token_names())),
    {
        match self.peek() {
            Some(t) => {
                if same_token(t, &expected) {
                    self.advance();
                    Ok(())
                } else {
                    let mut m = owned(msg);
                    append_str(&mut m, ", found ");
                    let name = describe_token(t);
                    append_str(&mut m, name.as_str());
                    Err(ParseError::new(m, self.pos))
                }
            },
            None => {
                let mut m = owned(msg);
                append_str(&mut m, ", found end of input");
                proof {
                    assert(", found end of input"@ =~= ", found "@ + "end of input"@) by {
                        reveal_strlit(", found end of input");
                        reveal_strlit(", found ");
                        reveal_strlit("end of input");
                    }
                }
                Err(ParseError::new(m, self.pos))
            },
        }
    }

    fn expect_ident(&mut self, msg: &str) -> (r: Result<String, ParseError>)
        ensures
            final(self).toks() == old(self).toks(),
            r is Err ==> final(self).pos() == old(self).pos(),
            match peek_at(old(self).toks(), old(self).pos()) {
                Some(TokenModel::Ident(name)) => r matches Ok(s) && s@ == name && final(self).pos() == old(self).pos() + 1,
                _ => r matches Err(err) && (err.message_view(), err.position_view()) == expect_error(msg@, old(self).toks(), old(self).pos(), token_names()),
            },
    {
        match self.peek() {
            Some(Token::Ident(name)) => {
                let name = name.clone();
                self.advance();
                Ok(name)
            },
            Some(t) => {
                let mut m = owned(msg);
                append_str(&mut m, ", found ");
                let name = describe_token(t);
                append_str(&mut m, name.as_str());
                Err(ParseError::new(m, self.pos))
            },
            None => {
                let mut m = owned(msg);
                append_str(&mut m, ", found end of input");
                proof {
                    assert(", found end of input"@ =~= ", found "@ + "end of input"@) by {
                        reveal_strlit(", found end of input");
                        reveal_strlit(", found ");
                        reveal_strlit("end of input");
                    }
                }
                Err(ParseError::new(m, self.pos))
            },
        }
    }

    fn error(&self, msg: &str) -> (r: ParseError)
        ensures
            r.message_view() == msg@,
            r.position_view() == self.pos(),
    {
        ParseError::new(owned(msg), self.pos)
    }
}

/// Token equality: same kind, same contents.
pub fn same_token(a: &Token, b: &Token) -> (r: bool)
    ensures
        r == (a@ == b@),
{
    match (a, b) {
        (Token::Dot, Token::Dot) => true,
        (Token::LBracket, Token::LBracket) => true,
        (Token::RBracket, Token::RBracket) => true,
        (Token::LParen, Token::LParen) => true,
        (Token::RParen, Token::RParen) => true,
        (Token::Star, Token::Star) => true,
        (Token::Comma, Token::Comma) => true,
        (Token::Not, Token::Not) => true,
        (Token::Eq, Token::Eq) => true,
        (Token::Neq, Token::Neq) => true,
        (Token::Lt, Token::Lt) => true,
        (Token::Lte, Token::Lte) => true,
        (Token::Gt, Token::Gt) => true,
        (Token::Gte, Token::Gte) => true,
        (Token::And, Token::And) => true,
        (Token::Or, Token::Or) => true,
        (Token::String(x), Token::String(y)) => same_text(x.as_str(), y.as_str()),
        (Token::Int(x), Token::Int(y)) => *x == *y,
        (Token::Float(x), Token::Float(y)) => same_text(x.text(), y.text()),
        (Token::Bool(x), Token::Bool(y)) => *x == *y,
        (Token::Null, Token::Null) => true,
        (Token::Ident(x), Token::Ident(y)) => same_text(x.as_str(), y.as_str()),
        (Token::Eof, Token::Eof) => true,
        _ => false,
    }
}

/// The tokens of `s` from index `i` up to the end of input, or the first
/// lexer error.
pub open spec fn lex_from(s: Seq<char>, i: int) -> Result<Seq<TokenModel>, LexerError>
    decreases s.len() - i,
{
    if i < 0 || i > s.len() {
        Ok(Seq::empty())
    } else {
        match spec_next(s, i) {
            (Ok(TokenModel::Eof), _) => Ok(Seq::empty()),
            (Ok(t), j) => if i < j <= s.len() {
                match lex_from(s, j) {
                    Ok(ts) => Ok(seq![t] + ts),
                    Err(e) => Err(e),
                }
            } else {
                Ok(seq![t])
            },
            (Err(e), _) => Err(e),
        }
    }
}

/// Lexing then parsing an expression text.
pub open spec fn parse_text_spec(s: Seq<char>) -> Result<ExprModel, (Seq<char>, int)> {
    match lex_from(s, 0) {
        Err(e) => Err(("lexer error: "@ + lexer_error_debug(e), 0)),
        Ok(toks) => parse_tokens(toks, token_names()),
    }
}

/// Prepends known tokens to a lexing outcome.
pub open spec fn prepend_tokens(ts: Seq<TokenModel>, r: Result<Seq<TokenModel>, LexerError>) -> Result<Seq<TokenModel>, LexerError> {
    match r {
        Ok(rest) => Ok(ts + rest),
        Err(e) => Err(e),
    }
}

/// Lexes and parses an expression text.
///
/// A lexer error becomes a parse error at position 0 whose message names
/// the lexer error.
pub fn parse_expr(input: &str) -> (r: Result<Expr, ParseError>)
    ensures
        parse_result(r) == parse_text_spec(input@),
{
    let ghost s = input@;
    let mut lexer = Lexer::new(input);
    let mut tokens: Vec<Token> = Vec::new();
    proof {
        assert(tokens_model(tokens@) =~= Seq::<TokenModel>::empty());
        assert(prepend_tokens(Seq::empty(), lex_from(s, 0)) == lex_from(s, 0)) by {
            match lex_from(s, 0) {
                Ok(rest) => { assert(Seq::<TokenModel>::empty() + rest =~= rest); },
                Err(_) => {},
            }
        }
    }
    loop
        invariant_except_break
            lex_from(s, 0) == prepend_tokens(tokens_model(tokens@), lex_from(s, lexer.index())),
        invariant
            lexer.wf(),
            lexer.text() == s,
            s == input@,
            lexer.peeked() is None,
            0 <= lexer.index() <= s.len(),
        ensures
            lex_from(s, 0) == Ok::<Seq<TokenModel>, LexerError>(tokens_model(tokens@)),
        decreases s.len() - lexer.index(),
    {
        let ghost i = lexer.index();
        let ghost before = tokens@;
        proof {
            lemma_spec_next_bounds(s, i);
        }
        match lexer.next_token() {
            Ok(Token::Eof) => {
                proof {
                    assert(tokens_model(tokens@) + Seq::<TokenModel>::empty() =~= tokens_model(tokens@));
                }
                break;
            },
            Ok(tok) => {
                tokens.push(tok);
                proof {
                    let t = tokens@.last()@;
                    assert(tokens_model(tokens@) =~= tokens_model(before).push(t));
                    match lex_from(s, lexer.index()) {
                        Ok(rest) => {
                            assert(tokens_model(before) + (seq![t] + rest) =~= tokens_model(tokens@) + rest);
                        },
                        Err(_) => {},
                    }
                }
            },
            Err(e) => {
                proof {
                    assert(lex_from(s, i) == Err::<Seq<TokenModel>, LexerError>(e));
                }
                let mut msg = owned("lexer error: ");
                let name = describe_lexer_error(&e);
                append_str(&mut msg, name.as_str());
                return Err(ParseError::new(msg, 0));
            },
        }
    }
    let mut parser = Parser::new(tokens.as_slice());
    parser.parse()
}

} // verus!
