//! Syntax tree of `${{ }}` expressions: literals, context access,
//! property and index dereferencing, comparisons, logical operators and
//! function calls.
use vstd::prelude::*;

use crate::expression::token::FloatLiteral;
use crate::text::{append_str, i64_text, push_char, signed_decimal};

verus! {

/// A comparison operator.
#[derive(Debug, Clone, Copy, PartialEq, Eq, Structural)]
pub enum CompareOp {
    /// `==`
    Eq,
    /// `!=`
    Neq,
    /// `<`
    Lt,
    /// `<=`
    Lte,
    /// `>`
    Gt,
    /// `>=`
    Gte,
}

/// A logical operator.
#[derive(Debug, Clone, Copy, PartialEq, Eq, Structural)]
pub enum LogicalOp {
    /// `&&`
    And,
    /// `||`
    Or,
}

/// A literal value: string, number, boolean or null.
#[derive(Debug, Clone, PartialEq)]
pub enum Literal {
    Bool(bool),
    Null,
    Int(i64),
    Float(FloatLiteral),
    String(String),
}

/// A complete expression.
#[derive(Debug, PartialEq)]
pub enum Expr {
    /// A literal value.
    Literal(Literal),
    /// A top-level context variable: `github`, `env`, `job`, `steps`, ...
    Variable(String),
    /// Property access: `foo.bar`.
    PropertyAccess(Box<Expr>, String),
    /// Index access: `foo[bar]`, with a string key or a numeric index.
    IndexAccess(Box<Expr>, Box<Expr>),
    /// Array dereference: `foo.*`.
    ArrayDeref(Box<Expr>),
    /// Logical not: `!expr`.
    Not(Box<Expr>),
    /// Comparison: `a == b`, `a != b`, `a < b`, ...
    Compare(CompareOp, Box<Expr>, Box<Expr>),
    /// Logical and/or: `a && b`, `a || b`.
    Logical(LogicalOp, Box<Expr>, Box<Expr>),
    /// Function call: `contains(search, item)`.
    FuncCall(String, Vec<Expr>),
}

/// The abstract content of a literal.
pub enum LiteralModel {
    Bool(bool),
    Null,
    Int(int),
    Float(Seq<char>),
    Str(Seq<char>),
}

/// The abstract content of an expression: names as character sequences,
/// numbers as integers.
pub enum ExprModel {
    Literal(LiteralModel),
    Variable(Seq<char>),
    Property(Box<ExprModel>, Seq<char>),
    Index(Box<ExprModel>, Box<ExprModel>),
    Deref(Box<ExprModel>),
    Not(Box<ExprModel>),
    Compare(CompareOp, Box<ExprModel>, Box<ExprModel>),
    Logical(LogicalOp, Box<ExprModel>, Box<ExprModel>),
    Call(Seq<char>, Seq<ExprModel>),
}

impl View for Literal {
    type V = LiteralModel;

    open spec fn view(&self) -> LiteralModel {
        match self {
            Literal::Bool(b) => LiteralModel::Bool(*b),
            Literal::Null => LiteralModel::Null,
            Literal::Int(n) => LiteralModel::Int(*n as int),
            Literal::Float(f) => LiteralModel::Float(f@),
            Literal::String(s) => LiteralModel::Str(s@),
        }
    }
}

/// The abstract content of an expression.
pub open spec fn expr_model(e: Expr) -> ExprModel
    decreases e,
{
    match e {
        Expr::Literal(l) => ExprModel::Literal(l@),
        Expr::Variable(n) => ExprModel::Variable(n@),
        Expr::PropertyAccess(o, p) => ExprModel::Property(Box::new(expr_model(*o)), p@),
        Expr::IndexAccess(o, i) => ExprModel::Index(Box::new(expr_model(*o)), Box::new(expr_model(*i))),
        Expr::ArrayDeref(o) => ExprModel::Deref(Box::new(expr_model(*o))),
        Expr::Not(i) => ExprModel::Not(Box::new(expr_model(*i))),
        Expr::Compare(op, l, r) => ExprModel::Compare(op, Box::new(expr_model(*l)), Box::new(expr_model(*r))),
        Expr::Logical(op, l, r) => ExprModel::Logical(op, Box::new(expr_model(*l)), Box::new(expr_model(*r))),
        Expr::FuncCall(n, args) => ExprModel::Call(n@, args_model(args@)),
    }
}

/// The abstract content of a list of expressions.
pub open spec fn args_model(args: Seq<Expr>) -> Seq<ExprModel>
    decreases args,
{
    if args.len() == 0 {
        Seq::empty()
    } else {
        args_model(args.drop_last()).push(expr_model(args[args.len() - 1]))
    }
}

impl View for Expr {
    type V = ExprModel;

    open spec fn view(&self) -> ExprModel {
        expr_model(*self)
    }
}

pub proof fn lemma_args_model_len(args: Seq<Expr>)
    ensures
        args_model(args).len() == args.len(),
        forall|i: int| 0 <= i < args.len() ==> #[trigger] args_model(args)[i] == expr_model(args[i]),
    decreases args.len(),
{
    if args.len() > 0 {
        lemma_args_model_len(args.drop_last());
    }
}

pub proof fn lemma_args_model_push(args: Seq<Expr>, e: Expr)
    ensures
        args_model(args.push(e)) == args_model(args).push(expr_model(e)),
{
    assert(args.push(e).drop_last() =~= args);
}

// ---------------------------------------------------------------------------
// Rendering.
// ---------------------------------------------------------------------------

/// Text of a comparison operator.
pub open spec fn compare_op_text(op: CompareOp) -> Seq<char> {
    match op {
        CompareOp::Eq => seq!['=', '='],
        CompareOp::Neq => seq!['!', '='],
        CompareOp::Lt => seq!['<'],
        CompareOp::Lte => seq!['<', '='],
        CompareOp::Gt => seq!['>'],
        CompareOp::Gte => seq!['>', '='],
    }
}

/// Text of a logical operator.
pub open spec fn logical_op_text(op: LogicalOp) -> Seq<char> {
    match op {
        LogicalOp::And => seq!['&', '&'],
        LogicalOp::Or => seq!['|', '|'],
    }
}

/// Drops leading `0`s while at least one digit stays.
pub open spec fn strip_leading_zeros(d: Seq<char>) -> Seq<char>
    decreases d.len(),
{
    if d.len() > 1 && d[0] == '0' {
        strip_leading_zeros(d.drop_first())
    } else {
        d
    }
}

/// Drops trailing `0`s.
pub open spec fn strip_trailing_zeros(d: Seq<char>) -> Seq<char>
    decreases d.len(),
{
    if d.len() > 0 && d.last() == '0' {
        strip_trailing_zeros(d.drop_last())
    } else {
        d
    }
}

/// Index of the first `.` at or after `i`, or the length.
pub open spec fn dot_index(t: Seq<char>, i: int) -> int
    decreases t.len() - i,
{
    if 0 <= i < t.len() && t[i] != '.' {
        dot_index(t, i + 1)
    } else {
        i
    }
}

/// Shortest decimal text of a fractional literal: the sign, the integer
/// digits without leading zeros, and the fraction digits without trailing
/// zeros, the point dropped when no fraction digit stays.
pub open spec fn float_text(t: Seq<char>) -> Seq<char> {
    let negative = t.len() > 0 && t[0] == '-';
    let body = if negative { t.drop_first() } else { t };
    let dot = dot_index(body, 0);
    let whole = strip_leading_zeros(body.take(dot));
    let fraction = if dot < body.len() { strip_trailing_zeros(body.skip(dot + 1)) } else { Seq::empty() };
    let sign = if negative { seq!['-'] } else { Seq::empty() };
    if fraction.len() == 0 {
        sign + whole
    } else {
        sign + whole + seq!['.'] + fraction
    }
}

/// Text of a literal.
pub open spec fn literal_text(l: LiteralModel) -> Seq<char> {
    match l {
        LiteralModel::Bool(b) => if b { seq!['t', 'r', 'u', 'e'] } else { seq!['f', 'a', 'l', 's', 'e'] },
        LiteralModel::Null => seq!['n', 'u', 'l', 'l'],
        LiteralModel::Int(n) => signed_decimal(n),
        LiteralModel::Float(t) => float_text(t),
        LiteralModel::Str(s) => seq!['\''] + s + seq!['\''],
    }
}

/// Text of an expression.
pub open spec fn render(e: ExprModel) -> Seq<char>
    decreases e,
{
    match e {
        ExprModel::Literal(l) => literal_text(l),
        ExprModel::Variable(n) => n,
        ExprModel::Property(o, p) => render(*o) + seq!['.'] + p,
        ExprModel::Index(o, i) => render(*o) + seq!['['] + render(*i) + seq![']'],
        ExprModel::Deref(o) => render(*o) + seq!['.', '*'],
        ExprModel::Not(i) => seq!['!'] + render(*i),
        ExprModel::Compare(op, l, r) => render(*l) + seq![' '] + compare_op_text(op) + seq![' '] + render(*r),
        ExprModel::Logical(op, l, r) => render(*l) + seq![' '] + logical_op_text(op) + seq![' '] + render(*r),
        ExprModel::Call(n, args) => n + seq!['('] + render_args(args) + seq![')'],
    }
}

/// Texts of a list of expressions, separated by `, `.
pub open spec fn render_args(args: Seq<ExprModel>) -> Seq<char>
    decreases args,
{
    if args.len() == 0 {
        Seq::empty()
    } else if args.len() == 1 {
        render(args[0])
    } else {
        render_args(args.drop_last()) + seq![',', ' '] + render(args[args.len() - 1])
    }
}

impl CompareOp {
    /// The operator's text.
    pub fn to_text(&self) -> (r: String)
        ensures
            r@ == compare_op_text(*self),
    {
        let mut r = String::new();
        match self {
            CompareOp::Eq => { push_char(&mut r, '='); push_char(&mut r, '='); },
            CompareOp::Neq => { push_char(&mut r, '!'); push_char(&mut r, '='); },
            CompareOp::Lt => { push_char(&mut r, '<'); },
            CompareOp::Lte => { push_char(&mut r, '<'); push_char(&mut r, '='); },
            CompareOp::Gt => { push_char(&mut r, '>'); },
            CompareOp::Gte => { push_char(&mut r, '>'); push_char(&mut r, '='); },
        }
        proof {
            assert(r@ =~= compare_op_text(*self));
        }
        r
    }
}

impl LogicalOp {
    /// The operator's text.
    pub fn to_text(&self) -> (r: String)
        ensures
            r@ == logical_op_text(*self),
    {
        let mut r = String::new();
        match self {
            LogicalOp::And => { push_char(&mut r, '&'); push_char(&mut r, '&'); },
            LogicalOp::Or => { push_char(&mut r, '|'); push_char(&mut r, '|'); },
        }
        proof {
            assert(r@ =~= logical_op_text(*self));
        }
        r
    }
}

/// Decimal text of a fractional literal as debug output gives it: as
/// [`float_text`], with `.0` kept when no fraction digit stays.
pub open spec fn float_debug(t: Seq<char>) -> Seq<char> {
    let negative = t.len() > 0 && t[0] == '-';
    let body = if negative { t.drop_first() } else { t };
    let dot = dot_index(body, 0);
    let fraction = if dot < body.len() { strip_trailing_zeros(body.skip(dot + 1)) } else { Seq::empty() };
    if fraction.len() == 0 {
        float_text(t) + seq!['.', '0']
    } else {
        float_text(t)
    }
}

/// Shortest decimal text of a fractional literal, as [`float_text`] describes it.
pub fn float_literal_text(f: &FloatLiteral) -> (r: String)
    ensures
        r@ == float_text(f@),
{
    float_literal_render(f, false)
}

/// Decimal text of a fractional literal, as [`float_debug`] describes it.
pub fn float_literal_debug(f: &FloatLiteral) -> (r: String)
    ensures
        r@ == float_debug(f@),
{
    float_literal_render(f, true)
}

fn float_literal_render(f: &FloatLiteral, debug: bool) -> (r: String)
    ensures
        r@ == (if debug { float_debug(f@) } else { float_text(f@) }),
{
    let t = crate::text::chars_of(f.text());
    let ghost tv = t@;
    let negative = t.len() > 0 && t[0] == '-';
    let start: usize = if negative { 1 } else { 0 };
    let ghost body = if negative { tv.drop_first() } else { tv };
    // Position of the point.
    let mut dot: usize = start;
    while dot < t.len() && t[dot] != '.'
        invariant
            tv == t@,
            start <= 1,
            start <= t.len(),
            start <= dot <= t.len(),
            body =~= tv.skip(start as int),
            dot_index(body, 0) == dot_index(body, dot - start),
        decreases t.len() - dot,
    {
        dot = dot + 1;
    }
    proof {
        assert(dot_index(body, dot - start) == dot - start);
    }
    // Integer digits without leading zeros.
    proof {
        assert(body.take(dot - start) =~= tv.subrange(start as int, dot as int));
    }
    let mut w: usize = start;
    while w < dot && dot - w > 1 && t[w] == '0'
        invariant
            tv == t@,
            dot <= t.len(),
            start <= w <= dot,
            strip_leading_zeros(body.take(dot - start)) == strip_leading_zeros(tv.subrange(w as int, dot as int)),
        decreases dot - w,
    {
        proof {
            assert(tv.subrange(w as int, dot as int).drop_first() =~= tv.subrange(w + 1, dot as int));
        }
        w = w + 1;
    }
    proof {
        assert(body.take(dot - start) =~= tv.subrange(start as int, dot as int));
    }
    // Fraction digits without trailing zeros.
    let mut e: usize = t.len();
    let frac_start: usize = if dot < t.len() { dot + 1 } else { t.len() };
    proof {
        if dot < t.len() {
            assert(body.skip(dot - start + 1) =~= tv.subrange(frac_start as int, t.len() as int));
        }
    }
    while e > frac_start && t[e - 1] == '0'
        invariant
            tv == t@,
            start <= dot <= t.len(),
            body =~= tv.skip(start as int),
            frac_start == (if dot < t.len() { dot + 1 } else { t.len() as int }),
            frac_start <= e <= t.len(),
            dot < t.len() ==> strip_trailing_zeros(body.skip(dot - start + 1)) == strip_trailing_zeros(tv.subrange(frac_start as int, e as int)),
        decreases e,
    {
        proof {
            assert(tv.subrange(frac_start as int, e as int).drop_last() =~= tv.subrange(frac_start as int, e - 1));
        }
        e = e - 1;
    }
    proof {
        if dot < t.len() {
            assert(body.skip(dot - start + 1) =~= tv.subrange(frac_start as int, t.len() as int));
        }
        if w + 1 < dot {
            assert(t@[w as int] != '0');
        }
        assert(strip_leading_zeros(tv.subrange(w as int, dot as int)) == tv.subrange(w as int, dot as int));
        assert(e > frac_start ==> t@[e - 1] != '0');
        assert(strip_trailing_zeros(tv.subrange(frac_start as int, e as int)) == tv.subrange(frac_start as int, e as int));
    }
    let mut r = String::new();
    if negative {
        push_char(&mut r, '-');
    }
    let whole = crate::text::string_of_range(&t, w, dot);
    append_str(&mut r, whole.as_str());
    if e > frac_start {
        push_char(&mut r, '.');
        let fraction = crate::text::string_of_range(&t, frac_start, e);
        append_str(&mut r, fraction.as_str());
    }
    proof {
        let sign = if negative { seq!['-'] } else { Seq::<char>::empty() };
        if e > frac_start {
            assert(r@ =~= sign + tv.subrange(w as int, dot as int) + seq!['.'] + tv.subrange(frac_start as int, e as int));
        } else {
            assert(r@ =~= sign + tv.subrange(w as int, dot as int));
        }
    }
    if debug && e <= frac_start {
        append_str(&mut r, ".0");
        proof {
            reveal_strlit(".0");
        }
    }
    r
}

impl Literal {
    /// The literal's text: keywords and numbers as written, strings between
    /// single quotes.
    pub fn to_text(&self) -> (r: String)
        ensures
            r@ == literal_text(self@),
    {
        match self {
            Literal::Bool(b) => {
                let mut r = String::new();
                if *b {
                    append_str(&mut r, "true");
                } else {
                    append_str(&mut r, "false");
                }
                proof {
                    reveal_strlit("true");
                    reveal_strlit("false");
                    assert(r@ =~= literal_text(self@));
                }
                r
            },
            Literal::Null => {
                let mut r = String::new();
                append_str(&mut r, "null");
                proof {
                    reveal_strlit("null");
                    assert(r@ =~= literal_text(self@));
                }
                r
            },
            Literal::Int(n) => i64_text(*n),
            Literal::Float(f) => float_literal_text(f),
            Literal::String(s) => {
                let mut r = String::new();
                push_char(&mut r, '\'');
                append_str(&mut r, s.as_str());
                push_char(&mut r, '\'');
                proof {
                    assert(r@ =~= literal_text(self@));
                }
                r
            },
        }
    }
}

impl Expr {
    /// The expression's text: operators between single spaces, function
    /// arguments separated by `, `, no parentheses added.
    pub fn to_text(&self) -> (r: String)
        ensures
            r@ == render(self@),
        decreases self,
    {
        match self {
            Expr::Literal(lit) => lit.to_text(),
            Expr::Variable(name) => name.clone(),
            Expr::PropertyAccess(obj, prop) => {
                let mut r = obj.to_text();
                push_char(&mut r, '.');
                append_str(&mut r, prop.as_str());
                proof {
                    assert(r@ =~= render(self@));
                }
                r
            },
            Expr::IndexAccess(obj, idx) => {
                let mut r = obj.to_text();
                push_char(&mut r, '[');
                let i = idx.to_text();
                append_str(&mut r, i.as_str());
                push_char(&mut r, ']');
                proof {
                    assert(r@ =~= render(self@));
                }
                r
            },
            Expr::ArrayDeref(obj) => {
                let mut r = obj.to_text();
                push_char(&mut r, '.');
                push_char(&mut r, '*');
                proof {
                    assert(r@ =~= render(self@));
                }
                r
            },
            Expr::Not(expr) => {
                let mut r = String::new();
                push_char(&mut r, '!');
                let inner = expr.to_text();
                append_str(&mut r, inner.as_str());
                proof {
                    assert(r@ =~= render(self@));
                }
                r
            },
            Expr::Compare(op, lhs, rhs) => {
                let mut r = lhs.to_text();
                push_char(&mut r, ' ');
                let o = op.to_text();
                append_str(&mut r, o.as_str());
                push_char(&mut r, ' ');
                let rt = rhs.to_text();
                append_str(&mut r, rt.as_str());
                proof {
                    assert(r@ =~= render(self@));
                }
                r
            },
            Expr::Logical(op, lhs, rhs) => {
                let mut r = lhs.to_text();
                push_char(&mut r, ' ');
                let o = op.to_text();
                append_str(&mut r, o.as_str());
                push_char(&mut r, ' ');
                let rt = rhs.to_text();
                append_str(&mut r, rt.as_str());
                proof {
                    assert(r@ =~= render(self@));
                }
                r
            },
            Expr::FuncCall(name, args) => Self::format_func_call(name, args),
        }
    }

    fn format_func_call(name: &String, args: &Vec<Expr>) -> (r: String)
        ensures
            r@ == name@ + seq!['('] + render_args(args_model(args@)) + seq![')'],
        decreases args@, 0nat,
    {
        let mut r = name.clone();
        push_char(&mut r, '(');
        let mut i: usize = 0;
        let mut rendered = String::new();
        while i < args.len()
            invariant
                i <= args.len(),
                rendered@ == render_args(args_model(args@.take(i as int))),
            decreases args.len() - i,
        {
            let piece = args[i].to_text();
            proof {
                lemma_args_model_push(args@.take(i as int), args@[i as int]);
                assert(args@.take(i + 1) =~= args@.take(i as int).push(args@[i as int]));
                lemma_args_model_len(args@.take(i as int));
            }
            if i > 0 {
                push_char(&mut rendered, ',');
                push_char(&mut rendered, ' ');
            }
            append_str(&mut rendered, piece.as_str());
            i = i + 1;
            proof {
                let prev = args_model(args@.take(i - 1));
                let now = args_model(args@.take(i as int));
                assert(now == prev.push(expr_model(args@[i - 1])));
                assert(now.drop_last() =~= prev);
                if i - 1 == 0 {
                    assert(prev.len() == 0);
                    assert(rendered@ =~= render_args(now));
                } else {
                    assert(rendered@ =~= render_args(now));
                }
            }
        }
        proof {
            assert(args@.take(args.len() as int) =~= args@);
        }
        append_str(&mut r, rendered.as_str());
        push_char(&mut r, ')');
        proof {
            assert(r@ =~= name@ + seq!['('] + render_args(args_model(args@)) + seq![')']);
        }
        r
    }
}

} // verus!
