//! What parsing a token sequence yields: a recursive-descent reading of
//!
//! ```text
//! expr     := logical
//! logical  := compare (("&&" | "||") compare)*        left-associative
//! compare  := unary (("==" | "!=" | "<" | "<=" | ">" | ">=") unary)?
//! unary    := "!" unary | postfix
//! postfix  := primary ("." "*" | "." ident | "[" expr "]" | "(" args ")")*
//! primary  := ident | string | int | float | bool | null | "(" expr ")"
//! args     := empty | expr ("," expr)*
//! ```
//!
//! with `true`, `false` and `null` identifiers read as literals, and a call
//! allowed only on a bare variable. Positions are token indices; an error
//! carries its message and the index at which it was found.
use vstd::prelude::*;

use crate::expression::expr::{CompareOp, ExprModel, LiteralModel, LogicalOp};
use crate::expression::token::TokenModel;

verus! {

/// Outcome of parsing one construct: the expression and the next index,
/// or an error message and its index.
pub type PStep = Result<(ExprModel, int), (Seq<char>, int)>;

/// Outcome of parsing an argument list.
pub type PArgs = Result<(Seq<ExprModel>, int), (Seq<char>, int)>;

/// How tokens are named in error messages.
pub type Describe = spec_fn(TokenModel) -> Seq<char>;

pub open spec fn peek_at(toks: Seq<TokenModel>, p: int) -> Option<TokenModel> {
    if 0 <= p < toks.len() {
        Some(toks[p])
    } else {
        None
    }
}

/// What was found at index `p`, for an error message.
pub open spec fn found_text(toks: Seq<TokenModel>, p: int, d: Describe) -> Seq<char> {
    match peek_at(toks, p) {
        Some(t) => d(t),
        None => "end of input"@,
    }
}

/// The error of a failed expectation at index `p`.
pub open spec fn expect_error(msg: Seq<char>, toks: Seq<TokenModel>, p: int, d: Describe) -> (Seq<char>, int) {
    (msg + ", found "@ + found_text(toks, p, d), p)
}

pub open spec fn compare_op_of(t: TokenModel) -> Option<CompareOp> {
    match t {
        TokenModel::Eq => Some(CompareOp::Eq),
        TokenModel::Neq => Some(CompareOp::Neq),
        TokenModel::Lt => Some(CompareOp::Lt),
        TokenModel::Lte => Some(CompareOp::Lte),
        TokenModel::Gt => Some(CompareOp::Gt),
        TokenModel::Gte => Some(CompareOp::Gte),
        _ => None,
    }
}

pub open spec fn logical_op_of(t: TokenModel) -> Option<LogicalOp> {
    match t {
        TokenModel::And => Some(LogicalOp::And),
        TokenModel::Or => Some(LogicalOp::Or),
        _ => None,
    }
}

/// A result position within the tokens and past `p`.
pub open spec fn advanced(toks: Seq<TokenModel>, p: int, q: int) -> bool {
    p < q <= toks.len()
}

pub open spec fn p_expr(toks: Seq<TokenModel>, p: int, d: Describe) -> PStep
    decreases toks.len() - p, 8nat,
{
    if p < 0 || p > toks.len() {
        Err(("unexpected end of expression"@, p))
    } else {
        p_logical(toks, p, d)
    }
}

pub open spec fn p_logical(toks: Seq<TokenModel>, p: int, d: Describe) -> PStep
    decreases toks.len() - p, 7nat,
{
    if p < 0 || p > toks.len() {
        Err(("unexpected end of expression"@, p))
    } else {
        match p_compare(toks, p, d) {
            Ok((l, p1)) => if advanced(toks, p, p1) {
                logical_rest(toks, l, p1, d)
            } else {
                Err(("unexpected end of expression"@, p1))
            },
            Err(e) => Err(e),
        }
    }
}

pub open spec fn logical_rest(toks: Seq<TokenModel>, left: ExprModel, p: int, d: Describe) -> PStep
    decreases toks.len() - p, 7nat,
{
    if p < 0 || p > toks.len() {
        Err(("unexpected end of expression"@, p))
    } else {
        match peek_at(toks, p) {
            Some(t) => match logical_op_of(t) {
                Some(op) => match p_compare(toks, p + 1, d) {
                    Ok((r, p2)) => if advanced(toks, p, p2) {
                        logical_rest(toks, ExprModel::Logical(op, Box::new(left), Box::new(r)), p2, d)
                    } else {
                        Err(("unexpected end of expression"@, p2))
                    },
                    Err(e) => Err(e),
                },
                None => Ok((left, p)),
            },
            None => Ok((left, p)),
        }
    }
}

pub open spec fn p_compare(toks: Seq<TokenModel>, p: int, d: Describe) -> PStep
    decreases toks.len() - p, 6nat,
{
    if p < 0 || p > toks.len() {
        Err(("unexpected end of expression"@, p))
    } else {
        match p_unary(toks, p, d) {
            Ok((l, p1)) => match peek_at(toks, p1) {
                Some(t) => match compare_op_of(t) {
                    Some(op) => if p <= p1 < toks.len() {
                        match p_unary(toks, p1 + 1, d) {
                            Ok((r, p2)) => Ok((ExprModel::Compare(op, Box::new(l), Box::new(r)), p2)),
                            Err(e) => Err(e),
                        }
                    } else {
                        Err(("unexpected end of expression"@, p1))
                    },
                    None => Ok((l, p1)),
                },
                None => Ok((l, p1)),
            },
            Err(e) => Err(e),
        }
    }
}

pub open spec fn p_unary(toks: Seq<TokenModel>, p: int, d: Describe) -> PStep
    decreases toks.len() - p, 5nat,
{
    if p < 0 || p > toks.len() {
        Err(("unexpected end of expression"@, p))
    } else if peek_at(toks, p) == Some(TokenModel::Not) {
        match p_unary(toks, p + 1, d) {
            Ok((i, p1)) => Ok((ExprModel::Not(Box::new(i)), p1)),
            Err(e) => Err(e),
        }
    } else {
        p_postfix(toks, p, d)
    }
}

pub open spec fn p_postfix(toks: Seq<TokenModel>, p: int, d: Describe) -> PStep
    decreases toks.len() - p, 4nat,
{
    if p < 0 || p > toks.len() {
        Err(("unexpected end of expression"@, p))
    } else {
        match p_primary(toks, p, d) {
            Ok((e, p1)) => if advanced(toks, p, p1) {
                postfix_rest(toks, e, p1, d)
            } else {
                Err(("unexpected end of expression"@, p1))
            },
            Err(e) => Err(e),
        }
    }
}

/// Does index `p` hold `.`, `[` or `(`?
pub open spec fn is_postfix_at(toks: Seq<TokenModel>, p: int) -> bool {
    match peek_at(toks, p) {
        Some(TokenModel::Dot) => true,
        Some(TokenModel::LBracket) => true,
        Some(TokenModel::LParen) => true,
        _ => false,
    }
}

pub open spec fn postfix_rest(toks: Seq<TokenModel>, e: ExprModel, p: int, d: Describe) -> PStep
    decreases toks.len() - p, 3nat,
{
    if p < 0 || p > toks.len() {
        Err(("unexpected end of expression"@, p))
    } else if is_postfix_at(toks, p) {
        match next_postfix(toks, e, p, d) {
            Ok((e2, p2)) => if advanced(toks, p, p2) {
                postfix_rest(toks, e2, p2, d)
            } else {
                Err(("unexpected end of expression"@, p2))
            },
            Err(err) => Err(err),
        }
    } else {
        Ok((e, p))
    }
}

pub open spec fn next_postfix(toks: Seq<TokenModel>, e: ExprModel, p: int, d: Describe) -> PStep
    decreases toks.len() - p, 2nat,
{
    if p < 0 || p > toks.len() {
        Err(("unexpected end of expression"@, p))
    } else {
        match peek_at(toks, p) {
            Some(TokenModel::Dot) => dot_postfix(toks, e, p, d),
            Some(TokenModel::LBracket) => index_postfix(toks, e, p, d),
            Some(TokenModel::LParen) => call_postfix(toks, e, p, d),
            _ => Ok((e, p)),
        }
    }
}

pub open spec fn dot_postfix(toks: Seq<TokenModel>, e: ExprModel, p: int, d: Describe) -> PStep
    decreases toks.len() - p, 1nat,
{
    let q = if p < toks.len() { p + 1 } else { p };
    if peek_at(toks, q) == Some(TokenModel::Star) {
        Ok((ExprModel::Deref(Box::new(e)), q + 1))
    } else {
        match peek_at(toks, q) {
            Some(TokenModel::Ident(name)) => Ok((ExprModel::Property(Box::new(e), name), q + 1)),
            _ => Err(expect_error("property name after '.'"@, toks, q, d)),
        }
    }
}

pub open spec fn index_postfix(toks: Seq<TokenModel>, e: ExprModel, p: int, d: Describe) -> PStep
    decreases toks.len() - p, 1nat,
{
    if 0 <= p < toks.len() {
        match p_expr(toks, p + 1, d) {
            Ok((idx, p1)) => if peek_at(toks, p1) == Some(TokenModel::RBracket) {
                Ok((ExprModel::Index(Box::new(e), Box::new(idx)), p1 + 1))
            } else {
                Err(expect_error("expected ']'"@, toks, p1, d))
            },
            Err(err) => Err(err),
        }
    } else {
        Err(("unexpected end of expression"@, p))
    }
}

pub open spec fn call_postfix(toks: Seq<TokenModel>, e: ExprModel, p: int, d: Describe) -> PStep
    decreases toks.len() - p, 1nat,
{
    if 0 <= p < toks.len() {
        match p_args(toks, p + 1, d) {
            Ok((args, p1)) => if peek_at(toks, p1) == Some(TokenModel::RParen) {
                match e {
                    ExprModel::Variable(name) => Ok((ExprModel::Call(name, args), p1 + 1)),
                    _ => Err(("function call requires a function name before '('"@, p1 + 1)),
                }
            } else {
                Err(expect_error("expected ')'"@, toks, p1, d))
            },
            Err(err) => Err(err),
        }
    } else {
        Err(("unexpected end of expression"@, p))
    }
}

pub open spec fn p_primary(toks: Seq<TokenModel>, p: int, d: Describe) -> PStep
    decreases toks.len() - p, 0nat,
{
    match peek_at(toks, p) {
        Some(TokenModel::Ident(name)) => if name == "true"@ {
            Ok((ExprModel::Literal(LiteralModel::Bool(true)), p + 1))
        } else if name == "false"@ {
            Ok((ExprModel::Literal(LiteralModel::Bool(false)), p + 1))
        } else if name == "null"@ {
            Ok((ExprModel::Literal(LiteralModel::Null), p + 1))
        } else {
            Ok((ExprModel::Variable(name), p + 1))
        },
        Some(TokenModel::Str(s)) => Ok((ExprModel::Literal(LiteralModel::Str(s)), p + 1)),
        Some(TokenModel::Int(n)) => Ok((ExprModel::Literal(LiteralModel::Int(n)), p + 1)),
        Some(TokenModel::Float(f)) => Ok((ExprModel::Literal(LiteralModel::Float(f)), p + 1)),
        Some(TokenModel::Bool(b)) => Ok((ExprModel::Literal(LiteralModel::Bool(b)), p + 1)),
        Some(TokenModel::Null) => Ok((ExprModel::Literal(LiteralModel::Null), p + 1)),
        Some(TokenModel::LParen) => match p_expr(toks, p + 1, d) {
            Ok((e, p1)) => if peek_at(toks, p1) == Some(TokenModel::RParen) {
                Ok((e, p1 + 1))
            } else {
                Err(expect_error("expected ')'"@, toks, p1, d))
            },
            Err(err) => Err(err),
        },
        Some(other) => Err(("unexpected token: "@ + d(other), p)),
        None => Err(("unexpected end of expression"@, p)),
    }
}

pub open spec fn p_args(toks: Seq<TokenModel>, p: int, d: Describe) -> PArgs
    decreases toks.len() - p, 10nat,
{
    if p < 0 || p > toks.len() {
        Err(("unexpected end of expression"@, p))
    } else if peek_at(toks, p) == Some(TokenModel::RParen) {
        Ok((Seq::empty(), p))
    } else {
        args_rest(toks, Seq::empty(), p, d)
    }
}

pub open spec fn args_rest(toks: Seq<TokenModel>, args: Seq<ExprModel>, p: int, d: Describe) -> PArgs
    decreases toks.len() - p, 9nat,
{
    if p < 0 || p > toks.len() {
        Err(("unexpected end of expression"@, p))
    } else {
        match p_expr(toks, p, d) {
            Ok((e, p1)) => if peek_at(toks, p1) == Some(TokenModel::Comma) && p <= p1 {
                args_rest(toks, args.push(e), p1 + 1, d)
            } else {
                Ok((args.push(e), p1))
            },
            Err(err) => Err(err),
        }
    }
}

/// Parsing a whole token sequence: an expression that uses every token.
pub open spec fn parse_tokens(toks: Seq<TokenModel>, d: Describe) -> Result<ExprModel, (Seq<char>, int)> {
    parse_tokens_from(toks, 0, d)
}

/// Parsing from token `pos`: an expression that uses every token from
/// there on.
pub open spec fn parse_tokens_from(toks: Seq<TokenModel>, pos: int, d: Describe) -> Result<ExprModel, (Seq<char>, int)> {
    match p_expr(toks, pos, d) {
        Ok((e, p)) => if p < toks.len() {
            Err(("unexpected tokens after expression"@, p))
        } else {
            Ok(e)
        },
        Err(err) => Err(err),
    }
}

// ---------------------------------------------------------------------------
// How tokens are named in error messages changes no successful parse.
// ---------------------------------------------------------------------------

/// Both outcomes succeed with the same result, or both fail.
pub open spec fn same_step(a: PStep, b: PStep) -> bool {
    match (a, b) {
        (Ok(x), Ok(y)) => x == y,
        (Err(_), Err(_)) => true,
        _ => false,
    }
}

/// Both argument lists succeed with the same result, or both fail.
pub open spec fn same_args(a: PArgs, b: PArgs) -> bool {
    match (a, b) {
        (Ok(x), Ok(y)) => x == y,
        (Err(_), Err(_)) => true,
        _ => false,
    }
}

proof fn lemma_expr_names(toks: Seq<TokenModel>, p: int, d1: Describe, d2: Describe)
    ensures
        same_step(p_expr(toks, p, d1), p_expr(toks, p, d2)),
    decreases toks.len() - p, 8nat,
{
    if 0 <= p <= toks.len() {
        lemma_logical_names(toks, p, d1, d2);
    }
}

proof fn lemma_logical_names(toks: Seq<TokenModel>, p: int, d1: Describe, d2: Describe)
    ensures
        same_step(p_logical(toks, p, d1), p_logical(toks, p, d2)),
    decreases toks.len() - p, 7nat,
{
    if 0 <= p <= toks.len() {
        lemma_compare_names(toks, p, d1, d2);
        if let Ok((l, p1)) = p_compare(toks, p, d1) {
            if advanced(toks, p, p1) {
                lemma_logical_rest_names(toks, l, p1, d1, d2);
            }
        }
    }
}

proof fn lemma_logical_rest_names(toks: Seq<TokenModel>, left: ExprModel, p: int, d1: Describe, d2: Describe)
    ensures
        same_step(logical_rest(toks, left, p, d1), logical_rest(toks, left, p, d2)),
    decreases toks.len() - p, 7nat,
{
    if 0 <= p <= toks.len() {
        if let Some(t) = peek_at(toks, p) {
            if let Some(op) = logical_op_of(t) {
                lemma_compare_names(toks, p + 1, d1, d2);
                if let Ok((r, p2)) = p_compare(toks, p + 1, d1) {
                    if advanced(toks, p, p2) {
                        lemma_logical_rest_names(toks, ExprModel::Logical(op, Box::new(left), Box::new(r)), p2, d1, d2);
                    }
                }
            }
        }
    }
}

proof fn lemma_compare_names(toks: Seq<TokenModel>, p: int, d1: Describe, d2: Describe)
    ensures
        same_step(p_compare(toks, p, d1), p_compare(toks, p, d2)),
    decreases toks.len() - p, 6nat,
{
    if 0 <= p <= toks.len() {
        lemma_unary_names(toks, p, d1, d2);
        if let Ok((l, p1)) = p_unary(toks, p, d1) {
            if p <= p1 < toks.len() {
                lemma_unary_names(toks, p1 + 1, d1, d2);
            }
        }
    }
}

proof fn lemma_unary_names(toks: Seq<TokenModel>, p: int, d1: Describe, d2: Describe)
    ensures
        same_step(p_unary(toks, p, d1), p_unary(toks, p, d2)),
    decreases toks.len() - p, 5nat,
{
    if 0 <= p <= toks.len() {
        if peek_at(toks, p) == Some(TokenModel::Not) {
            lemma_unary_names(toks, p + 1, d1, d2);
        } else {
            lemma_postfix_names(toks, p, d1, d2);
        }
    }
}

proof fn lemma_postfix_names(toks: Seq<TokenModel>, p: int, d1: Describe, d2: Describe)
    ensures
        same_step(p_postfix(toks, p, d1), p_postfix(toks, p, d2)),
    decreases toks.len() - p, 4nat,
{
    if 0 <= p <= toks.len() {
        lemma_primary_names(toks, p, d1, d2);
        if let Ok((e, p1)) = p_primary(toks, p, d1) {
            if advanced(toks, p, p1) {
                lemma_postfix_rest_names(toks, e, p1, d1, d2);
            }
        }
    }
}

proof fn lemma_postfix_rest_names(toks: Seq<TokenModel>, e: ExprModel, p: int, d1: Describe, d2: Describe)
    ensures
        same_step(postfix_rest(toks, e, p, d1), postfix_rest(toks, e, p, d2)),
    decreases toks.len() - p, 3nat,
{
    if 0 <= p <= toks.len() && is_postfix_at(toks, p) {
        lemma_next_postfix_names(toks, e, p, d1, d2);
        if let Ok((e2, p2)) = next_postfix(toks, e, p, d1) {
            if advanced(toks, p, p2) {
                lemma_postfix_rest_names(toks, e2, p2, d1, d2);
            }
        }
    }
}

proof fn lemma_next_postfix_names(toks: Seq<TokenModel>, e: ExprModel, p: int, d1: Describe, d2: Describe)
    ensures
        same_step(next_postfix(toks, e, p, d1), next_postfix(toks, e, p, d2)),
    decreases toks.len() - p, 2nat,
{
    if 0 <= p <= toks.len() {
        match peek_at(toks, p) {
            Some(TokenModel::LBracket) => lemma_index_postfix_names(toks, e, p, d1, d2),
            Some(TokenModel::LParen) => lemma_call_postfix_names(toks, e, p, d1, d2),
            _ => {},
        }
    }
}

proof fn lemma_index_postfix_names(toks: Seq<TokenModel>, e: ExprModel, p: int, d1: Describe, d2: Describe)
    ensures
        same_step(index_postfix(toks, e, p, d1), index_postfix(toks, e, p, d2)),
    decreases toks.len() - p, 1nat,
{
    if 0 <= p < toks.len() {
        lemma_expr_names(toks, p + 1, d1, d2);
    }
}

proof fn lemma_call_postfix_names(toks: Seq<TokenModel>, e: ExprModel, p: int, d1: Describe, d2: Describe)
    ensures
        same_step(call_postfix(toks, e, p, d1), call_postfix(toks, e, p, d2)),
    decreases toks.len() - p, 1nat,
{
    if 0 <= p < toks.len() {
        lemma_args_names(toks, p + 1, d1, d2);
    }
}

proof fn lemma_primary_names(toks: Seq<TokenModel>, p: int, d1: Describe, d2: Describe)
    ensures
        same_step(p_primary(toks, p, d1), p_primary(toks, p, d2)),
    decreases toks.len() - p, 0nat,
{
    if peek_at(toks, p) == Some(TokenModel::LParen) {
        lemma_expr_names(toks, p + 1, d1, d2);
    }
}

proof fn lemma_args_names(toks: Seq<TokenModel>, p: int, d1: Describe, d2: Describe)
    ensures
        same_args(p_args(toks, p, d1), p_args(toks, p, d2)),
    decreases toks.len() - p, 10nat,
{
    if 0 <= p <= toks.len() && peek_at(toks, p) != Some(TokenModel::RParen) {
        lemma_args_rest_names(toks, Seq::empty(), p, d1, d2);
    }
}

proof fn lemma_args_rest_names(toks: Seq<TokenModel>, args: Seq<ExprModel>, p: int, d1: Describe, d2: Describe)
    ensures
        same_args(args_rest(toks, args, p, d1), args_rest(toks, args, p, d2)),
    decreases toks.len() - p, 9nat,
{
    if 0 <= p <= toks.len() {
        lemma_expr_names(toks, p, d1, d2);
        if let Ok((e, p1)) = p_expr(toks, p, d1) {
            if peek_at(toks, p1) == Some(TokenModel::Comma) && p <= p1 {
                lemma_args_rest_names(toks, args.push(e), p1 + 1, d1, d2);
            }
        }
    }
}

/// How tokens are named in error messages changes no successful parse:
/// a token sequence parses under one naming exactly when it parses under
/// another, and to the same expression.
pub proof fn lemma_parse_ignores_names(toks: Seq<TokenModel>, d1: Describe, d2: Describe)
    ensures
        parse_tokens(toks, d1) is Ok <==> parse_tokens(toks, d2) is Ok,
        parse_tokens(toks, d1) is Ok ==> parse_tokens(toks, d1) == parse_tokens(toks, d2),
{
    lemma_expr_names(toks, 0, d1, d2);
}

} // verus!
