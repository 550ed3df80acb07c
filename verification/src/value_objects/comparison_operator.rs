use vstd::prelude::*;

use crate::expression::expr::{compare_op_text, CompareOp};
use crate::text::push_char;

verus! {

/// A comparison operator of the expression language.
#[derive(Debug, Clone, Copy, PartialEq, Eq, Structural)]
pub enum ComparisonOperator {
    /// `==`
    Equal,
    /// `!=`
    NotEqual,
    /// `<`
    LessThan,
    /// `<=`
    LessThanOrEqual,
    /// `>`
    GreaterThan,
    /// `>=`
    GreaterThanOrEqual,
}

impl ComparisonOperator {
    /// The comparison this operator performs.
    pub open spec fn kind(self) -> CompareOp {
        match self {
            ComparisonOperator::Equal => CompareOp::Eq,
            ComparisonOperator::NotEqual => CompareOp::Neq,
            ComparisonOperator::LessThan => CompareOp::Lt,
            ComparisonOperator::LessThanOrEqual => CompareOp::Lte,
            ComparisonOperator::GreaterThan => CompareOp::Gt,
            ComparisonOperator::GreaterThanOrEqual => CompareOp::Gte,
        }
    }

    /// The operator's text.
    pub fn to_text(&self) -> (r: String)
        ensures
            r@ == compare_op_text(self.kind()),
    {
        let mut r = String::new();
        match self {
            ComparisonOperator::Equal => { push_char(&mut r, '='); push_char(&mut r, '='); },
            ComparisonOperator::NotEqual => { push_char(&mut r, '!'); push_char(&mut r, '='); },
            ComparisonOperator::LessThan => { push_char(&mut r, '<'); },
            ComparisonOperator::LessThanOrEqual => { push_char(&mut r, '<'); push_char(&mut r, '='); },
            ComparisonOperator::GreaterThan => { push_char(&mut r, '>'); },
            ComparisonOperator::GreaterThanOrEqual => { push_char(&mut r, '>'); push_char(&mut r, '='); },
        }
        proof {
            assert(r@ =~= compare_op_text(self.kind()));
        }
        r
    }
}

} // verus!
