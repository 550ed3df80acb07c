use vstd::prelude::*;

use crate::expression::expr::{logical_op_text, LogicalOp};
use crate::text::push_char;

verus! {

/// A logical operator of the expression language.
#[derive(Debug, Clone, Copy, PartialEq, Eq, Structural)]
pub enum LogicalOperator {
    /// `&&`
    And,
    /// `||`
    Or,
}

impl LogicalOperator {
    /// The connective this operator performs.
    pub open spec fn kind(self) -> LogicalOp {
        match self {
            LogicalOperator::And => LogicalOp::And,
            LogicalOperator::Or => LogicalOp::Or,
        }
    }

    /// The operator's text.
    pub fn to_text(&self) -> (r: String)
        ensures
            r@ == logical_op_text(self.kind()),
    {
        let mut r = String::new();
        match self {
            LogicalOperator::And => { push_char(&mut r, '&'); push_char(&mut r, '&'); },
            LogicalOperator::Or => { push_char(&mut r, '|'); push_char(&mut r, '|'); },
        }
        proof {
            assert(r@ =~= logical_op_text(self.kind()));
        }
        r
    }
}

} // verus!
