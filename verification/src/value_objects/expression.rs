use vstd::prelude::*;

use crate::expression::expr::{render, render_args, ExprModel};
use crate::text::{append_str, push_char};
use crate::value_objects::comparison_operator::ComparisonOperator;
use crate::value_objects::literal_value::LiteralValue;
use crate::value_objects::logical_operator::LogicalOperator;

verus! {

/// A complete workflow expression: literals, context access, property and
/// index dereferencing, comparisons, logical operators and function calls.
#[derive(Debug, PartialEq)]
pub enum Expression {
    /// A literal value: string, number, boolean or null.
    Literal(LiteralValue),
    /// A top-level context variable: `github`, `env`, `job`, `steps`, ...
    Variable(String),
    /// Property access: `foo.bar`.
    PropertyAccess(Box<Expression>, String),
    /// Index access: `foo[bar]`, with a string key or a numeric index.
    IndexAccess(Box<Expression>, Box<Expression>),
    /// Array dereference: `foo.*`.
    ArrayDereference(Box<Expression>),
    /// Logical not: `!expr`.
    Not(Box<Expression>),
    /// Comparison: `a == b`, `a != b`, `a < b`, ...
    Comparison(ComparisonOperator, Box<Expression>, Box<Expression>),
    /// Logical and/or: `a && b`, `a || b`.
    Logical(LogicalOperator, Box<Expression>, Box<Expression>),
    /// Function call: `contains(search, item)`.
    FunctionCall(String, Vec<Expression>),
}

/// The abstract content of an expression.
pub open spec fn expression_model(e: Expression) -> ExprModel
    decreases e,
{
    match e {
        Expression::Literal(l) => ExprModel::Literal(l@),
        Expression::Variable(n) => ExprModel::Variable(n@),
        Expression::PropertyAccess(o, p) => ExprModel::Property(Box::new(expression_model(*o)), p@),
        Expression::IndexAccess(o, i) => ExprModel::Index(Box::new(expression_model(*o)), Box::new(expression_model(*i))),
        Expression::ArrayDereference(o) => ExprModel::Deref(Box::new(expression_model(*o))),
        Expression::Not(i) => ExprModel::Not(Box::new(expression_model(*i))),
        Expression::Comparison(op, l, r) => ExprModel::Compare(op.kind(), Box::new(expression_model(*l)), Box::new(expression_model(*r))),
        Expression::Logical(op, l, r) => ExprModel::Logical(op.kind(), Box::new(expression_model(*l)), Box::new(expression_model(*r))),
        Expression::FunctionCall(n, args) => ExprModel::Call(n@, arguments_model(args@)),
    }
}

/// The abstract content of a list of expressions.
pub open spec fn arguments_model(args: Seq<Expression>) -> Seq<ExprModel>
    decreases args,
{
    if args.len() == 0 {
        Seq::empty()
    } else {
        arguments_model(args.drop_last()).push(expression_model(args[args.len() - 1]))
    }
}

impl View for Expression {
    type V = ExprModel;

    open spec fn view(&self) -> ExprModel {
        expression_model(*self)
    }
}

pub proof fn lemma_arguments_model_len(args: Seq<Expression>)
    ensures
        arguments_model(args).len() == args.len(),
        forall|i: int| 0 <= i < args.len() ==> #[trigger] arguments_model(args)[i] == expression_model(args[i]),
    decreases args.len(),
{
    if args.len() > 0 {
        lemma_arguments_model_len(args.drop_last());
    }
}

pub proof fn lemma_arguments_model_push(args: Seq<Expression>, e: Expression)
    ensures
        arguments_model(args.push(e)) == arguments_model(args).push(expression_model(e)),
{
    assert(args.push(e).drop_last() =~= args);
}

impl Expression {
    /// The expression's text: operators between single spaces, function
    /// arguments separated by `, `, no parentheses added.
    pub fn to_text(&self) -> (r: String)
        ensures
            r@ == render(self@),
        decreases self,
    {
        match self {
            Expression::Literal(lit) => lit.to_text(),
            Expression::Variable(name) => name.clone(),
            Expression::PropertyAccess(obj, prop) => {
                let mut r = obj.to_text();
                push_char(&mut r, '.');
                append_str(&mut r, prop.as_str());
                proof {
                    assert(r@ =~= render(self@));
                }
                r
            },
            Expression::IndexAccess(obj, idx) => {
                let mut r = obj.to_text();
                push_char(&mut r, '[');
                let i = idx.to_text();
                append_str(&mut r, i.as_str());
                push_char(&mut r, ']');
                proof {
                    assert(r@ =~= render(self@));
                }
                r
            },
            Expression::ArrayDereference(obj) => {
                let mut r = obj.to_text();
                push_char(&mut r, '.');
                push_char(&mut r, '*');
                proof {
                    assert(r@ =~= render(self@));
                }
                r
            },
            Expression::Not(expr) => {
                let mut r = String::new();
                push_char(&mut r, '!');
                let inner = expr.to_text();
                append_str(&mut r, inner.as_str());
                proof {
                    assert(r@ =~= render(self@));
                }
                r
            },
            Expression::Comparison(op, lhs, rhs) => {
                let mut r = lhs.to_text();
                push_char(&mut r, ' ');
                let o = op.to_text();
                append_str(&mut r, o.as_str());
                push_char(&mut r, ' ');
                let rt = rhs.to_text();
                append_str(&mut r, rt.as_str());
                proof {
                    assert(r@ =~= render(self@));
                }
                r
            },
            Expression::Logical(op, lhs, rhs) => {
                let mut r = lhs.to_text();
                push_char(&mut r, ' ');
                let o = op.to_text();
                append_str(&mut r, o.as_str());
                push_char(&mut r, ' ');
                let rt = rhs.to_text();
                append_str(&mut r, rt.as_str());
                proof {
                    assert(r@ =~= render(self@));
                }
                r
            },
            Expression::FunctionCall(name, args) => Self::format_func_call(name, args),
        }
    }

    fn format_func_call(name: &String, args: &Vec<Expression>) -> (r: String)
        ensures
            r@ == name@ + seq!['('] + render_args(arguments_model(args@)) + seq![')'],
        decreases args@, 0nat,
    {
        let mut r = name.clone();
        push_char(&mut r, '(');
        let mut i: usize = 0;
        let mut rendered = String::new();
        while i < args.len()
            invariant
                i <= args.len(),
                rendered@ == render_args(arguments_model(args@.take(i as int))),
            decreases args.len() - i,
        {
            let piece = args[i].to_text();
            proof {
                lemma_arguments_model_push(args@.take(i as int), args@[i as int]);
                assert(args@.take(i + 1) =~= args@.take(i as int).push(args@[i as int]));
                lemma_arguments_model_len(args@.take(i as int));
            }
            if i > 0 {
                push_char(&mut rendered, ',');
                push_char(&mut rendered, ' ');
            }
            append_str(&mut rendered, piece.as_str());
            i = i + 1;
            proof {
                let prev = arguments_model(args@.take(i - 1));
                let now = arguments_model(args@.take(i as int));
                assert(now == prev.push(expression_model(args@[i - 1])));
                assert(now.drop_last() =~= prev);
                if i - 1 == 0 {
                    assert(prev.len() == 0);
                    assert(rendered@ =~= render_args(now));
                } else {
                    assert(rendered@ =~= render_args(now));
                }
            }
        }
        proof {
            assert(args@.take(args.len() as int) =~= args@);
        }
        append_str(&mut r, rendered.as_str());
        push_char(&mut r, ')');
        proof {
            assert(r@ =~= name@ + seq!['('] + render_args(arguments_model(args@)) + seq![')']);
        }
        r
    }
}

} // verus!
