//! Splitting a template into literal text and `${{ ... }}` expressions, and
//! reading one expression body.
use vstd::prelude::*;

use crate::errors::{EvalError, EvalErrorModel};
use crate::expression::expr::ExprModel;
use crate::services::expression_parser::{expression_text_spec, ExpressionParser};
use crate::text::{append_str, chars_of, decimal_digits, string_of_range, trim, trimmed, usize_text};
use crate::value_objects::expression::Expression;

verus! {

/// The marker that opens an expression: `${{`.
pub open spec fn open_marker() -> Seq<char> {
    seq!['$', '{', '{']
}

/// The marker that closes an expression: `}}`.
pub open spec fn close_marker() -> Seq<char> {
    seq!['}', '}']
}

/// `pat` occurs in `s` at `i`.
pub open spec fn found_at(s: Seq<char>, pat: Seq<char>, i: int) -> bool {
    0 <= i && i + pat.len() <= s.len() && s.subrange(i, i + pat.len()) == pat
}

/// The first index at or after `i` where `pat` occurs in `s`, or `-1`.
pub open spec fn find_from(s: Seq<char>, pat: Seq<char>, i: int) -> int
    decreases s.len() + 1 - i,
{
    if i < 0 || i > s.len() || i + pat.len() > s.len() {
        -1
    } else if found_at(s, pat, i) {
        i
    } else {
        find_from(s, pat, i + 1)
    }
}

pub proof fn lemma_find_from(s: Seq<char>, pat: Seq<char>, i: int)
    requires
        0 <= i,
    ensures
        find_from(s, pat, i) == -1 || (i <= find_from(s, pat, i) && find_from(s, pat, i) + pat.len() <= s.len()
            && found_at(s, pat, find_from(s, pat, i))),
        forall|j: int| i <= j && (find_from(s, pat, i) == -1 || j < find_from(s, pat, i)) ==> !#[trigger] found_at(s, pat, j),
    decreases s.len() + 1 - i,
{
    if i + pat.len() <= s.len() && !found_at(s, pat, i) {
        lemma_find_from(s, pat, i + 1);
    }
}

/// A piece of a template: text kept as it is, or the body of an expression
/// with surrounding white space removed.
#[derive(Debug, Clone, PartialEq, Eq)]
pub enum TemplatePiece {
    Literal(String),
    Expression(String),
}

/// The abstract content of a [`TemplatePiece`].
pub enum PieceModel {
    Literal(Seq<char>),
    Expression(Seq<char>),
}

impl View for TemplatePiece {
    type V = PieceModel;

    open spec fn view(&self) -> PieceModel {
        match self {
            TemplatePiece::Literal(s) => PieceModel::Literal(s@),
            TemplatePiece::Expression(s) => PieceModel::Expression(s@),
        }
    }
}

/// The abstract content of a list of pieces.
pub open spec fn pieces_model(ps: Seq<TemplatePiece>) -> Seq<PieceModel> {
    ps.map_values(|p: TemplatePiece| p@)
}

/// The pieces of `s[p..]`: each `${{ body }}` that is closed by `}}`
/// becomes the literal text before it and its trimmed body; the rest, from
/// the first `${{` that is never closed or that is not there, is one literal.
pub open spec fn pieces_from(s: Seq<char>, p: int) -> Seq<PieceModel>
    decreases s.len() - p,
{
    if p < 0 || p > s.len() {
        Seq::empty()
    } else {
        let o = find_from(s, open_marker(), p);
        let c = if o >= 0 { find_from(s, close_marker(), o + 3) } else { -1 };
        if o < 0 || c < 0 {
            seq![PieceModel::Literal(s.subrange(p, s.len() as int))]
        } else {
            proof {
                lemma_find_from(s, open_marker(), p);
                lemma_find_from(s, close_marker(), o + 3);
            }
            seq![
                PieceModel::Literal(s.subrange(p, o)),
                PieceModel::Expression(trimmed(s.subrange(o + 3, c))),
            ] + pieces_from(s, c + 2)
        }
    }
}

/// The pieces of a whole template.
pub open spec fn template_pieces(s: Seq<char>) -> Seq<PieceModel> {
    pieces_from(s, 0)
}

/// Text in which `${{` does not occur is one literal piece, kept as it is.
pub proof fn lemma_plain_text_is_one_piece(s: Seq<char>)
    requires
        forall|j: int| !#[trigger] found_at(s, open_marker(), j),
    ensures
        template_pieces(s) == seq![PieceModel::Literal(s)],
{
    lemma_find_from(s, open_marker(), 0);
    assert(s.subrange(0, s.len() as int) =~= s);
}

/// Text whose first `${{` is never closed by a later `}}` is one literal
/// piece, kept as it is.
pub proof fn lemma_unclosed_expression_is_kept(s: Seq<char>, o: int)
    requires
        found_at(s, open_marker(), o),
        forall|j: int| 0 <= j < o ==> !#[trigger] found_at(s, open_marker(), j),
        forall|j: int| o + 3 <= j ==> !#[trigger] found_at(s, close_marker(), j),
    ensures
        template_pieces(s) == seq![PieceModel::Literal(s)],
{
    lemma_find_from(s, open_marker(), 0);
    lemma_find_from(s, close_marker(), o + 3);
    assert(s.subrange(0, s.len() as int) =~= s);
}

/// The message of an expression body that cannot be read.
pub open spec fn invalid_expression_message(body: Seq<char>, message: Seq<char>, position: int) -> Seq<char> {
    "invalid expression '"@ + body + "': "@ + message + " at position "@ + decimal_digits(position as nat)
}

/// What reading an expression body gives: its expression, or a type error
/// naming the body, the parser's message and its position.
pub open spec fn body_outcome(body: Seq<char>) -> Result<ExprModel, EvalErrorModel> {
    match expression_text_spec(body) {
        Ok(e) => Ok(e),
        Err((m, p)) => Err(EvalErrorModel::TypeError(invalid_expression_message(body, m, p))),
    }
}

/// The first index at or after `from` where `pat` occurs in `cs`.
fn find_at(cs: &Vec<char>, pat: &Vec<char>, from: usize) -> (r: Option<usize>)
    ensures
        match r {
            Some(i) => i == find_from(cs@, pat@, from as int),
            None => find_from(cs@, pat@, from as int) == -1,
        },
{
    let mut i = from;
    while i <= cs.len() && pat.len() <= cs.len() - i
        invariant
            from <= i,
            find_from(cs@, pat@, from as int) == find_from(cs@, pat@, i as int),
        decreases cs.len() + 1 - i,
    {
        let mut k: usize = 0;
        let mut same = true;
        while k < pat.len()
            invariant
                i + pat.len() <= cs.len(),
                k <= pat.len(),
                same <==> forall|j: int| 0 <= j < k ==> cs@[i + j] == pat@[j],
            decreases pat.len() - k,
        {
            if cs[i + k] != pat[k] {
                same = false;
            }
            k = k + 1;
        }
        if same {
            assert(cs@.subrange(i as int, i + pat.len()) =~= pat@);
            return Some(i);
        }
        proof {
            let j = choose|j: int| 0 <= j < pat.len() && cs@[i + j] != pat@[j];
            assert(cs@.subrange(i as int, i + pat.len())[j] != pat@[j]);
        }
        i = i + 1;
    }
    None
}

/// Resolves `${{ ... }}` expressions in template text.
pub struct ExpressionResolver;

impl ExpressionResolver {
    /// Splits `template` into literal text and expression bodies, in order.
    /// Text outside `${{ ... }}` is kept as it is, and an expression that is
    /// never closed is kept, with the rest, as literal text.
    pub fn split_template(template: &str) -> (r: Vec<TemplatePiece>)
        ensures
            pieces_model(r@) == template_pieces(template@),
    {
        let cs = chars_of(template);
        let ghost s = cs@;
        let mut open: Vec<char> = Vec::new();
        open.push('$');
        open.push('{');
        open.push('{');
        let mut close: Vec<char> = Vec::new();
        close.push('}');
        close.push('}');
        assert(open@ =~= open_marker());
        assert(close@ =~= close_marker());
        let mut out: Vec<TemplatePiece> = Vec::new();
        let mut p: usize = 0;
        assert(pieces_model(out@) + pieces_from(s, 0) =~= pieces_from(s, 0));
        loop
            invariant
                s == cs@,
                s == template@,
                open@ == open_marker(),
                close@ == close_marker(),
                p <= s.len(),
                pieces_model(out@) + pieces_from(s, p as int) == template_pieces(s),
            decreases s.len() - p,
        {
            proof {
                lemma_find_from(s, open_marker(), p as int);
            }
            let o = match find_at(&cs, &open, p) {
                Some(o) => o,
                None => {
                    let lit = string_of_range(&cs, p, cs.len());
                    let ghost before = out@;
                    out.push(TemplatePiece::Literal(lit));
                    proof {
                        assert(pieces_model(out@) =~= pieces_model(before).push(PieceModel::Literal(s.subrange(p as int, s.len() as int))));
                        assert(pieces_model(out@) =~= pieces_model(before) + pieces_from(s, p as int));
                    }
                    return out;
                },
            };
            proof {
                lemma_find_from(s, close_marker(), o + 3);
            }
            let c = match find_at(&cs, &close, o + 3) {
                Some(c) => c,
                None => {
                    let lit = string_of_range(&cs, p, cs.len());
                    let ghost before = out@;
                    out.push(TemplatePiece::Literal(lit));
                    proof {
                        assert(pieces_model(out@) =~= pieces_model(before).push(PieceModel::Literal(s.subrange(p as int, s.len() as int))));
                        assert(pieces_model(out@) =~= pieces_model(before) + pieces_from(s, p as int));
                    }
                    return out;
                },
            };
            let lit = string_of_range(&cs, p, o);
            let raw = string_of_range(&cs, o + 3, c);
            let body = trim(raw.as_str());
            let ghost before = out@;
            out.push(TemplatePiece::Literal(lit));
            out.push(TemplatePiece::Expression(body));
            proof {
                let two = seq![
                    PieceModel::Literal(s.subrange(p as int, o as int)),
                    PieceModel::Expression(trimmed(s.subrange(o + 3, c as int))),
                ];
                assert(pieces_from(s, p as int) == two + pieces_from(s, c + 2));
                assert(pieces_model(out@) =~= pieces_model(before) + two);
                assert(pieces_model(out@) + pieces_from(s, c + 2) =~= pieces_model(before) + (two + pieces_from(s, c + 2)));
            }
            p = c + 2;
        }
    }

    /// Reads one expression body. A body that cannot be read gives a type
    /// error naming the body, the parser's message and its position.
    pub fn parse_body(body: &str) -> (r: Result<Expression, EvalError>)
        ensures
            match r {
                Ok(e) => body_outcome(body@) == Ok::<ExprModel, EvalErrorModel>(e@),
                Err(err) => body_outcome(body@) == Err::<ExprModel, EvalErrorModel>(err@),
            },
    {
        match ExpressionParser::parse_text(body) {
            Ok(e) => Ok(e),
            Err(err) => {
                let mut m = String::new();
                let a = "invalid expression '";
                let b = "': ";
                let c = " at position ";
                proof {
                    reveal_strlit("invalid expression '");
                    reveal_strlit("': ");
                    reveal_strlit(" at position ");
                }
                append_str(&mut m, a);
                append_str(&mut m, body);
                append_str(&mut m, b);
                append_str(&mut m, err.message());
                append_str(&mut m, c);
                let pos = usize_text(err.position());
                append_str(&mut m, pos.as_str());
                proof {
                    assert(m@ =~= invalid_expression_message(body@, err.message_view(), err.position_view()));
                }
                Err(EvalError::TypeError(m))
            },
        }
    }
}

} // verus!
