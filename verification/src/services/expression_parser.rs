//! Recursive-descent parser for workflow expressions, over the tokens that
//! [`ExpressionLexer`] produces.
use vstd::prelude::*;

use crate::errors::{LexerError, ParseError};
use crate::expression::describe::{describe_lexer_error, lexer_error_debug};
use crate::expression::expr::ExprModel;
use crate::expression::grammar::{
    lemma_parse_ignores_names,
    advanced, args_rest, call_postfix, dot_postfix, expect_error, index_postfix, is_postfix_at, logical_rest, next_postfix, p_args, p_compare,
    p_expr, p_logical, p_postfix, p_primary, p_unary, parse_tokens, parse_tokens_from, peek_at, postfix_rest,
    Describe, PArgs, PStep,
};
use crate::expression::lexer::lemma_spec_next_bounds;
use crate::expression::parser::{lex_from, parse_text_spec, prepend_tokens, token_names};
use crate::expression::token::TokenModel;
use crate::services::expression_lexer::ExpressionLexer;
use crate::text::{append_str, owned, same_text};
use crate::value_objects::comparison_operator::ComparisonOperator;
use crate::value_objects::expression::{arguments_model, lemma_arguments_model_push, Expression};
use crate::value_objects::expression_token::{describe_expression_token, expression_token_debug, ExpressionToken};
use crate::value_objects::literal_value::LiteralValue;
use crate::value_objects::logical_operator::LogicalOperator;

verus! {

/// The abstract content of a token sequence.
pub open spec fn expression_tokens_model(ts: Seq<ExpressionToken>) -> Seq<TokenModel> {
    ts.map_values(|t: ExpressionToken| t@)
}

/// Tokens named as [`describe_expression_token`] names them.
pub open spec fn expression_token_names() -> Describe {
    |t: TokenModel| expression_token_debug(t)
}

/// The abstract outcome of a parsing step ending at `pos`.
pub open spec fn expression_step(r: Result<Expression, ParseError>, pos: int) -> PStep {
    match r {
        Ok(e) => Ok((e@, pos)),
        Err(err) => Err((err.message_view(), err.position_view())),
    }
}

/// The abstract outcome of parsing an argument list ending at `pos`.
pub open spec fn expression_args(r: Result<Vec<Expression>, ParseError>, pos: int) -> PArgs {
    match r {
        Ok(args) => Ok((arguments_model(args@), pos)),
        Err(err) => Err((err.message_view(), err.position_view())),
    }
}

/// The abstract outcome of a whole parse.
pub open spec fn expression_parse_result(r: Result<Expression, ParseError>) -> Result<ExprModel, (Seq<char>, int)> {
    match r {
        Ok(e) => Ok(e@),
        Err(err) => Err((err.message_view(), err.position_view())),
    }
}

/// Recursive-descent parser over a sequence of expression tokens.
pub struct ExpressionParser {
    tokens: Vec<ExpressionToken>,
    pos: usize,
}

impl ExpressionParser {
    /// The tokens being parsed.
    pub closed spec fn toks(&self) -> Seq<TokenModel> {
        expression_tokens_model(self.tokens@)
    }

    /// Index of the next token.
    pub closed spec fn pos(&self) -> int {
        self.pos as int
    }

    /// Creates a parser over a copy of the tokens, positioned at the first.
    pub fn new(tokens: &[ExpressionToken]) -> (r: Self)
        ensures
            r.toks() == expression_tokens_model(tokens@),
            r.pos() == 0,
    {
        let mut own: Vec<ExpressionToken> = Vec::new();
        let mut i: usize = 0;
        while i < tokens.len()
            invariant
                i <= tokens.len(),
                own@.len() == i,
                forall|j: int| 0 <= j < i ==> #[trigger] own@[j]@ == tokens@[j]@,
            decreases tokens.len() - i,
        {
            own.push(tokens[i].duplicate());
            i = i + 1;
        }
        proof {
            assert(expression_tokens_model(own@) =~= expression_tokens_model(tokens@));
        }
        ExpressionParser { tokens: own, pos: 0 }
    }

    /// Parses the whole token stream into an expression.
    ///
    /// Fails when the tokens do not form an expression or when tokens are
    /// left over after it.
    pub fn parse(&mut self) -> (r: Result<Expression, ParseError>)
        requires
            old(self).pos() <= old(self).toks().len(),
        ensures
            final(self).toks() == old(self).toks(),
            expression_parse_result(r) == parse_tokens_from(old(self).toks(), old(self).pos(), expression_token_names()),
    {
        let expr = match self.parse_expr() {
            Ok(e) => e,
            Err(err) => return Err(err),
        };
        if self.pos < self.tokens.len() {
            return Err(self.error("unexpected tokens after expression"));
        }
        Ok(expr)
    }

    fn parse_expr(&mut self) -> (r: Result<Expression, ParseError>)
        requires
            old(self).pos() <= old(self).toks().len(),
        ensures
            final(self).toks() == old(self).toks(),
            final(self).pos() <= final(self).toks().len(),
            r is Ok ==> advanced(old(self).toks(), old(self).pos(), final(self).pos()),
            expression_step(r, final(self).pos()) == p_expr(old(self).toks(), old(self).pos(), expression_token_names()),
        decreases old(self).tokens@.len() - old(self).pos, 8nat,
    {
        self.parse_logical()
    }

    fn parse_logical(&mut self) -> (r: Result<Expression, ParseError>)
        requires
            old(self).pos() <= old(self).toks().len(),
        ensures
            final(self).toks() == old(self).toks(),
            final(self).pos() <= final(self).toks().len(),
            r is Ok ==> advanced(old(self).toks(), old(self).pos(), final(self).pos()),
            expression_step(r, final(self).pos()) == p_logical(old(self).toks(), old(self).pos(), expression_token_names()),
        decreases old(self).tokens@.len() - old(self).pos, 7nat,
    {
        let ghost p0 = self.pos as int;
        let ghost toks = self.toks();
        let mut left = match self.parse_compare() {
            Ok(e) => e,
            Err(err) => return Err(err),
        };
        loop
            invariant
                self.toks() == toks,
                toks == old(self).toks(),
                p0 == old(self).pos(),
                p0 < self.pos() <= toks.len(),
                p_logical(toks, p0, expression_token_names()) == logical_rest(toks, left@, self.pos(), expression_token_names()),
            ensures
                self.toks() == toks,
                p0 < self.pos() <= toks.len(),
                p_logical(toks, p0, expression_token_names()) == Ok::<(ExprModel, int), (Seq<char>, int)>((left@, self.pos())),
            decreases toks.len() - self.pos(),
        {
            let op = match self.peek() {
                Some(ExpressionToken::And) => LogicalOperator::And,
                Some(ExpressionToken::Or) => LogicalOperator::Or,
                _ => break,
            };
            let ghost p1 = self.pos as int;
            self.advance();
            let right = match self.parse_compare() {
                Ok(e) => e,
                Err(err) => return Err(err),
            };
            left = Expression::Logical(op, Box::new(left), Box::new(right));
            proof {
                assert(advanced(toks, p1, self.pos()));
            }
        }
        Ok(left)
    }

    fn parse_compare(&mut self) -> (r: Result<Expression, ParseError>)
        requires
            old(self).pos() <= old(self).toks().len(),
        ensures
            final(self).toks() == old(self).toks(),
            final(self).pos() <= final(self).toks().len(),
            r is Ok ==> advanced(old(self).toks(), old(self).pos(), final(self).pos()),
            expression_step(r, final(self).pos()) == p_compare(old(self).toks(), old(self).pos(), expression_token_names()),
        decreases old(self).tokens@.len() - old(self).pos, 6nat,
    {
        let left = match self.parse_unary() {
            Ok(e) => e,
            Err(err) => return Err(err),
        };
        let op = match self.peek() {
            Some(ExpressionToken::Equal) => ComparisonOperator::Equal,
            Some(ExpressionToken::NotEqual) => ComparisonOperator::NotEqual,
            Some(ExpressionToken::LessThan) => ComparisonOperator::LessThan,
            Some(ExpressionToken::LessThanOrEqual) => ComparisonOperator::LessThanOrEqual,
            Some(ExpressionToken::GreaterThan) => ComparisonOperator::GreaterThan,
            Some(ExpressionToken::GreaterThanOrEqual) => ComparisonOperator::GreaterThanOrEqual,
            _ => return Ok(left),
        };
        self.advance();
        let right = match self.parse_unary() {
            Ok(e) => e,
            Err(err) => return Err(err),
        };
        Ok(Expression::Comparison(op, Box::new(left), Box::new(right)))
    }

    fn parse_unary(&mut self) -> (r: Result<Expression, ParseError>)
        requires
            old(self).pos() <= old(self).toks().len(),
        ensures
            final(self).toks() == old(self).toks(),
            final(self).pos() <= final(self).toks().len(),
            r is Ok ==> advanced(old(self).toks(), old(self).pos(), final(self).pos()),
            expression_step(r, final(self).pos()) == p_unary(old(self).toks(), old(self).pos(), expression_token_names()),
        decreases old(self).tokens@.len() - old(self).pos, 5nat,
    {
        if let Some(ExpressionToken::Not) = self.peek() {
            self.advance();
            let inner = match self.parse_unary() {
                Ok(e) => e,
                Err(err) => return Err(err),
            };
            return Ok(Expression::Not(Box::new(inner)));
        }
        self.parse_postfix()
    }

    fn parse_postfix(&mut self) -> (r: Result<Expression, ParseError>)
        requires
            old(self).pos() <= old(self).toks().len(),
        ensures
            final(self).toks() == old(self).toks(),
            final(self).pos() <= final(self).toks().len(),
            r is Ok ==> advanced(old(self).toks(), old(self).pos(), final(self).pos()),
            expression_step(r, final(self).pos()) == p_postfix(old(self).toks(), old(self).pos(), expression_token_names()),
        decreases old(self).tokens@.len() - old(self).pos, 4nat,
    {
        let ghost p0 = self.pos as int;
        let ghost toks = self.toks();
        let mut expr = match self.parse_primary() {
            Ok(e) => e,
            Err(err) => return Err(err),
        };
        while self.has_postfix_token()
            invariant
                self.toks() == toks,
                toks == old(self).toks(),
                p0 == old(self).pos(),
                p0 < self.pos() <= toks.len(),
                p_postfix(toks, p0, expression_token_names()) == postfix_rest(toks, expr@, self.pos(), expression_token_names()),
            decreases toks.len() - self.pos(),
        {
            let ghost p1 = self.pos as int;
            expr = match self.parse_next_postfix(expr) {
                Ok(e) => e,
                Err(err) => return Err(err),
            };
            proof {
                assert(advanced(toks, p1, self.pos()));
            }
        }
        Ok(expr)
    }

    fn has_postfix_token(&self) -> (r: bool)
        ensures
            r == is_postfix_at(self.toks(), self.pos()),
    {
        match self.peek() {
            Some(ExpressionToken::Dot) => true,
            Some(ExpressionToken::LeftBracket) => true,
            Some(ExpressionToken::LeftParenthesis) => true,
            _ => false,
        }
    }

    fn parse_next_postfix(&mut self, expr: Expression) -> (r: Result<Expression, ParseError>)
        requires
            old(self).pos() <= old(self).toks().len(),
            is_postfix_at(old(self).toks(), old(self).pos()),
        ensures
            final(self).toks() == old(self).toks(),
            final(self).pos() <= final(self).toks().len(),
            r is Ok ==> advanced(old(self).toks(), old(self).pos(), final(self).pos()),
            expression_step(r, final(self).pos()) == next_postfix(old(self).toks(), expr@, old(self).pos(), expression_token_names()),
        decreases old(self).tokens@.len() - old(self).pos, 2nat,
    {
        match self.peek() {
            Some(ExpressionToken::Dot) => self.parse_dot_postfix(expr),
            Some(ExpressionToken::LeftBracket) => self.parse_index_postfix(expr),
            Some(ExpressionToken::LeftParenthesis) => self.parse_call_postfix(expr),
            _ => Ok(expr),
        }
    }

    fn parse_dot_postfix(&mut self, expr: Expression) -> (r: Result<Expression, ParseError>)
        requires
            old(self).pos() < old(self).toks().len(),
        ensures
            final(self).toks() == old(self).toks(),
            final(self).pos() <= final(self).toks().len(),
            r is Ok ==> advanced(old(self).toks(), old(self).pos(), final(self).pos()),
            expression_step(r, final(self).pos()) == dot_postfix(old(self).toks(), expr@, old(self).pos(), expression_token_names()),
    {
        self.advance();
        if let Some(ExpressionToken::Star) = self.peek() {
            self.advance();
            Ok(Expression::ArrayDereference(Box::new(expr)))
        } else {
            let ident = match self.expect_ident("property name after '.'") {
                Ok(name) => name,
                Err(err) => return Err(err),
            };
            Ok(Expression::PropertyAccess(Box::new(expr), ident))
        }
    }

    fn parse_index_postfix(&mut self, expr: Expression) -> (r: Result<Expression, ParseError>)
        requires
            old(self).pos() < old(self).toks().len(),
        ensures
            final(self).toks() == old(self).toks(),
            final(self).pos() <= final(self).toks().len(),
            r is Ok ==> advanced(old(self).toks(), old(self).pos(), final(self).pos()),
            expression_step(r, final(self).pos()) == index_postfix(old(self).toks(), expr@, old(self).pos(), expression_token_names()),
        decreases old(self).tokens@.len() - old(self).pos, 1nat,
    {
        self.advance();
        let idx = match self.parse_expr() {
            Ok(e) => e,
            Err(err) => return Err(err),
        };
        match self.expect(ExpressionToken::RightBracket, "expected ']'") {
            Ok(()) => {},
            Err(err) => return Err(err),
        }
        Ok(Expression::IndexAccess(Box::new(expr), Box::new(idx)))
    }

    fn parse_call_postfix(&mut self, expr: Expression) -> (r: Result<Expression, ParseError>)
        requires
            old(self).pos() < old(self).toks().len(),
        ensures
            final(self).toks() == old(self).toks(),
            final(self).pos() <= final(self).toks().len(),
            r is Ok ==> advanced(old(self).toks(), old(self).pos(), final(self).pos()),
            expression_step(r, final(self).pos()) == call_postfix(old(self).toks(), expr@, old(self).pos(), expression_token_names()),
        decreases old(self).tokens@.len() - old(self).pos, 1nat,
    {
        self.advance();
        let args = match self.parse_args() {
            Ok(a) => a,
            Err(err) => return Err(err),
        };
        match self.expect(ExpressionToken::RightParenthesis, "expected ')'") {
            Ok(()) => {},
            Err(err) => return Err(err),
        }
        let name = match &expr {
            Expression::Variable(n) => n.clone(),
            _ => return Err(self.error("function call requires a function name before '('")),
        };
        Ok(Expression::FunctionCall(name, args))
    }

    fn parse_primary(&mut self) -> (r: Result<Expression, ParseError>)
        requires
            old(self).pos() <= old(self).toks().len(),
        ensures
            final(self).toks() == old(self).toks(),
            final(self).pos() <= final(self).toks().len(),
            r is Ok ==> advanced(old(self).toks(), old(self).pos(), final(self).pos()),
            expression_step(r, final(self).pos()) == p_primary(old(self).toks(), old(self).pos(), expression_token_names()),
        decreases old(self).tokens@.len() - old(self).pos, 0nat,
    {
        if self.pos >= self.tokens.len() {
            return Err(self.error("unexpected end of expression"));
        }
        let token = self.tokens[self.pos].duplicate();
        match token {
            ExpressionToken::Identifier(name) => {
                self.advance();
                proof {
                    reveal_strlit("true");
                    reveal_strlit("false");
                    reveal_strlit("null");
                }
                if same_text(name.as_str(), "true") {
                    return Ok(Expression::Literal(LiteralValue::Boolean(true)));
                }
                if same_text(name.as_str(), "false") {
                    return Ok(Expression::Literal(LiteralValue::Boolean(false)));
                }
                if same_text(name.as_str(), "null") {
                    return Ok(Expression::Literal(LiteralValue::Null));
                }
                Ok(Expression::Variable(name))
            },
            ExpressionToken::String(s) => {
                self.advance();
                Ok(Expression::Literal(LiteralValue::String(s)))
            },
            ExpressionToken::Integer(n) => {
                self.advance();
                Ok(Expression::Literal(LiteralValue::Integer(n)))
            },
            ExpressionToken::Float(f) => {
                self.advance();
                Ok(Expression::Literal(LiteralValue::Float(f)))
            },
            ExpressionToken::Boolean(b) => {
                self.advance();
                Ok(Expression::Literal(LiteralValue::Boolean(b)))
            },
            ExpressionToken::Null => {
                self.advance();
                Ok(Expression::Literal(LiteralValue::Null))
            },
            ExpressionToken::LeftParenthesis => {
                self.advance();
                let expr = match self.parse_expr() {
                    Ok(e) => e,
                    Err(err) => return Err(err),
                };
                match self.expect(ExpressionToken::RightParenthesis, "expected ')'") {
                    Ok(()) => {},
                    Err(err) => return Err(err),
                }
                Ok(expr)
            },
            other => {
                let mut msg = owned("unexpected token: ");
                let name = describe_expression_token(&other);
                append_str(&mut msg, name.as_str());
                Err(ParseError::new(msg, self.pos))
            },
        }
    }

    fn parse_args(&mut self) -> (r: Result<Vec<Expression>, ParseError>)
        requires
            old(self).pos() <= old(self).toks().len(),
        ensures
            final(self).toks() == old(self).toks(),
            final(self).pos() <= final(self).toks().len(),
            r is Ok ==> old(self).pos() <= final(self).pos(),
            expression_args(r, final(self).pos()) == p_args(old(self).toks(), old(self).pos(), expression_token_names()),
        decreases old(self).tokens@.len() - old(self).pos, 10nat,
    {
        let ghost p0 = self.pos as int;
        let ghost toks = self.toks();
        let mut args: Vec<Expression> = Vec::new();
        if let Some(ExpressionToken::RightParenthesis) = self.peek() {
            return Ok(args);
        }
        proof {
            assert(arguments_model(args@) =~= Seq::<ExprModel>::empty());
        }
        loop
            invariant_except_break
                p_args(toks, p0, expression_token_names()) == args_rest(toks, arguments_model(args@), self.pos(), expression_token_names()),
            invariant
                self.toks() == toks,
                toks == old(self).toks(),
                p0 == old(self).pos(),
                p0 <= self.pos() <= toks.len(),
            ensures
                self.toks() == toks,
                p0 <= self.pos() <= toks.len(),
                p_args(toks, p0, expression_token_names()) == Ok::<(Seq<ExprModel>, int), (Seq<char>, int)>((arguments_model(args@), self.pos())),
            decreases toks.len() - self.pos(),
        {
            let ghost before = args@;
            let e = match self.parse_expr() {
                Ok(e) => e,
                Err(err) => return Err(err),
            };
            let ghost em = e@;
            args.push(e);
            proof {
                lemma_arguments_model_push(before, args@.last());
                assert(args@ =~= before.push(args@.last()));
            }
            if let Some(ExpressionToken::Comma) = self.peek() {
                self.advance();
            } else {
                break;
            }
        }
        Ok(args)
    }

    fn peek(&self) -> (r: Option<&ExpressionToken>)
        ensures
            match r {
                Some(t) => peek_at(self.toks(), self.pos()) == Some(t@),
                None => peek_at(self.toks(), self.pos()) is None,
            },
    {
        if self.pos < self.tokens.len() {
            Some(&self.tokens[self.pos])
        } else {
            None
        }
    }

    fn advance(&mut self)
        ensures
            final(self).toks() == old(self).toks(),
            final(self).pos() == if old(self).pos() < old(self).toks().len() { old(self).pos() + 1 } else { old(self).pos() },
    {
        if self.pos < self.tokens.len() {
            self.pos += 1;
        }
    }

    fn expect(&mut self, expected: ExpressionToken, msg: &str) -> (r: Result<(), ParseError>)
        ensures
            final(self).toks() == old(self).toks(),
            peek_at(old(self).toks(), old(self).pos()) == Some(expected@) ==> r is Ok && final(self).pos() == old(self).pos() + 1,
            r is Err ==> final(self).pos() == old(self).pos(),
            peek_at(old(self).toks(), old(self).pos()) != Some(expected@) ==> (r matches Err(err) && (err.message_view(), err.position_view()) == expect_error(msg@, old(self).toks(), old(self).pos(), expression_token_names())),
    {
        match self.peek() {
            Some(t) => {
                if same_expression_token(t, &expected) {
                    self.advance();
                    Ok(())
                } else {
                    let mut m = owned(msg);
                    append_str(&mut m, ", found ");
                    let name = describe_expression_token(t);
                    append_str(&mut m, name.as_str());
                    Err(ParseError::new(m, self.pos))
                }
            },
            None => {
                let mut m = owned(msg);
                append_str(&mut m, ", found end of input");
                proof {
                    assert(", found end of input"@ =~= ", found "@ + "end of input"@) by {
                        reveal_strlit(", found end of input");
                        reveal_strlit(", found ");
                        reveal_strlit("end of input");
                    }
                }
                Err(ParseError::new(m, self.pos))
            },
        }
    }

    fn expect_ident(&mut self, msg: &str) -> (r: Result<String, ParseError>)
        ensures
            final(self).toks() == old(self).toks(),
            r is Err ==> final(self).pos() == old(self).pos(),
            match peek_at(old(self).toks(), old(self).pos()) {
                Some(TokenModel::Ident(name)) => r matches Ok(s) && s@ == name && final(self).pos() == old(self).pos() + 1,
                _ => r matches Err(err) && (err.message_view(), err.position_view()) == expect_error(msg@, old(self).toks(), old(self).pos(), expression_token_names()),
            },
    {
        match self.peek() {
            Some(ExpressionToken::Identifier(name)) => {
                let name = name.clone();
                self.advance();
                Ok(name)
            },
            Some(t) => {
                let mut m = owned(msg);
                append_str(&mut m, ", found ");
                let name = describe_expression_token(t);
                append_str(&mut m, name.as_str());
                Err(ParseError::new(m, self.pos))
            },
            None => {
                let mut m = owned(msg);
                append_str(&mut m, ", found end of input");
                proof {
                    assert(", found end of input"@ =~= ", found "@ + "end of input"@) by {
                        reveal_strlit(", found end of input");
                        reveal_strlit(", found ");
                        reveal_strlit("end of input");
                    }
                }
                Err(ParseError::new(m, self.pos))
            },
        }
    }

    fn error(&self, msg: &str) -> (r: ParseError)
        ensures
            r.message_view() == msg@,
            r.position_view() == self.pos(),
    {
        ParseError::new(owned(msg), self.pos)
    }
}

/// ExpressionToken equality: same kind, same contents.
pub fn same_expression_token(a: &ExpressionToken, b: &ExpressionToken) -> (r: bool)
    ensures
        r == (a@ == b@),
{
    match (a, b) {
        (ExpressionToken::Dot, ExpressionToken::Dot) => true,
        (ExpressionToken::LeftBracket, ExpressionToken::LeftBracket) => true,
        (ExpressionToken::RightBracket, ExpressionToken::RightBracket) => true,
        (ExpressionToken::LeftParenthesis, ExpressionToken::LeftParenthesis) => true,
        (ExpressionToken::RightParenthesis, ExpressionToken::RightParenthesis) => true,
        (ExpressionToken::Star, ExpressionToken::Star) => true,
        (ExpressionToken::Comma, ExpressionToken::Comma) => true,
        (ExpressionToken::Not, ExpressionToken::Not) => true,
        (ExpressionToken::Equal, ExpressionToken::Equal) => true,
        (ExpressionToken::NotEqual, ExpressionToken::NotEqual) => true,
        (ExpressionToken::LessThan, ExpressionToken::LessThan) => true,
        (ExpressionToken::LessThanOrEqual, ExpressionToken::LessThanOrEqual) => true,
        (ExpressionToken::GreaterThan, ExpressionToken::GreaterThan) => true,
        (ExpressionToken::GreaterThanOrEqual, ExpressionToken::GreaterThanOrEqual) => true,
        (ExpressionToken::And, ExpressionToken::And) => true,
        (ExpressionToken::Or, ExpressionToken::Or) => true,
        (ExpressionToken::String(x), ExpressionToken::String(y)) => same_text(x.as_str(), y.as_str()),
        (ExpressionToken::Integer(x), ExpressionToken::Integer(y)) => *x == *y,
        (ExpressionToken::Float(x), ExpressionToken::Float(y)) => same_text(x.text(), y.text()),
        (ExpressionToken::Boolean(x), ExpressionToken::Boolean(y)) => *x == *y,
        (ExpressionToken::Null, ExpressionToken::Null) => true,
        (ExpressionToken::Identifier(x), ExpressionToken::Identifier(y)) => same_text(x.as_str(), y.as_str()),
        (ExpressionToken::EndOfInput, ExpressionToken::EndOfInput) => true,
        _ => false,
    }
}

/// Lexing then parsing an expression text.
pub open spec fn expression_text_spec(s: Seq<char>) -> Result<ExprModel, (Seq<char>, int)> {
    match lex_from(s, 0) {
        Err(e) => Err(("lexer error: "@ + lexer_error_debug(e), 0)),
        Ok(toks) => parse_tokens(toks, expression_token_names()),
    }
}

impl ExpressionParser {
    /// Lexes and parses an expression text.
    ///
    /// A lexer error becomes a parse error at position 0 whose message names
    /// the lexer error.
    pub fn parse_text(input: &str) -> (r: Result<Expression, ParseError>)
        ensures
            expression_parse_result(r) == expression_text_spec(input@),
    {
        let ghost s = input@;
        let mut lexer = ExpressionLexer::new(input);
        let mut tokens: Vec<ExpressionToken> = Vec::new();
        proof {
            assert(expression_tokens_model(tokens@) =~= Seq::<TokenModel>::empty());
            assert(prepend_tokens(Seq::empty(), lex_from(s, 0)) == lex_from(s, 0)) by {
                match lex_from(s, 0) {
                    Ok(rest) => { assert(Seq::<TokenModel>::empty() + rest =~= rest); },
                    Err(_) => {},
                }
            }
        }
        loop
            invariant_except_break
                lex_from(s, 0) == prepend_tokens(expression_tokens_model(tokens@), lex_from(s, lexer.index())),
            invariant
                lexer.wf(),
                lexer.text() == s,
                s == input@,
                lexer.peeked() is None,
                0 <= lexer.index() <= s.len(),
            ensures
                lex_from(s, 0) == Ok::<Seq<TokenModel>, LexerError>(expression_tokens_model(tokens@)),
            decreases s.len() - lexer.index(),
        {
            let ghost i = lexer.index();
            let ghost before = tokens@;
            proof {
                lemma_spec_next_bounds(s, i);
            }
            match lexer.next_token() {
                Ok(ExpressionToken::EndOfInput) => {
                    proof {
                        assert(expression_tokens_model(tokens@) + Seq::<TokenModel>::empty() =~= expression_tokens_model(tokens@));
                    }
                    break;
                },
                Ok(tok) => {
                    tokens.push(tok);
                    proof {
                        let t = tokens@.last()@;
                        assert(expression_tokens_model(tokens@) =~= expression_tokens_model(before).push(t));
                        match lex_from(s, lexer.index()) {
                            Ok(rest) => {
                                assert(expression_tokens_model(before) + (seq![t] + rest) =~= expression_tokens_model(tokens@) + rest);
                            },
                            Err(_) => {},
                        }
                    }
                },
                Err(e) => {
                    proof {
                        assert(lex_from(s, i) == Err::<Seq<TokenModel>, LexerError>(e));
                    }
                    let mut msg = owned("lexer error: ");
                    let name = describe_lexer_error(&e);
                    append_str(&mut msg, name.as_str());
                    return Err(ParseError::new(msg, 0));
                },
            }
        }
        let mut parser = Self::new(tokens.as_slice());
        parser.parse()
    }
}

/// The two parsers of expression text agree: [`parse_expr`] and
/// [`ExpressionParser::parse_text`] accept the same texts and read each
/// into the same expression; they differ only in how their error messages
/// name tokens.
///
/// [`parse_expr`]: crate::expression::parser::parse_expr
pub proof fn lemma_parsers_agree(s: Seq<char>)
    ensures
        parse_text_spec(s) is Ok <==> expression_text_spec(s) is Ok,
        parse_text_spec(s) is Ok ==> parse_text_spec(s) == expression_text_spec(s),
{
    if let Ok(toks) = lex_from(s, 0) {
        lemma_parse_ignores_names(toks, token_names(), expression_token_names());
    }
}

} // verus!
