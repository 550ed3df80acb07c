use vstd::prelude::*;

use crate::expression::expr::{float_literal_text, literal_text, LiteralModel};
use crate::expression::token::FloatLiteral;
use crate::text::{append_str, i64_text, push_char};

verus! {

/// A literal value of a workflow expression.
#[derive(Debug, Clone, PartialEq)]
pub enum LiteralValue {
    Boolean(bool),
    Null,
    Integer(i64),
    Float(FloatLiteral),
    String(String),
}

impl View for LiteralValue {
    type V = LiteralModel;

    open spec fn view(&self) -> LiteralModel {
        match self {
            LiteralValue::Boolean(b) => LiteralModel::Bool(*b),
            LiteralValue::Null => LiteralModel::Null,
            LiteralValue::Integer(n) => LiteralModel::Int(*n as int),
            LiteralValue::Float(f) => LiteralModel::Float(f@),
            LiteralValue::String(s) => LiteralModel::Str(s@),
        }
    }
}

impl LiteralValue {
    /// The literal's text: keywords and numbers as written, strings between
    /// single quotes.
    pub fn to_text(&self) -> (r: String)
        ensures
            r@ == literal_text(self@),
    {
        match self {
            LiteralValue::Boolean(b) => {
                let mut r = String::new();
                if *b {
                    append_str(&mut r, "true");
                } else {
                    append_str(&mut r, "false");
                }
                proof {
                    reveal_strlit("true");
                    reveal_strlit("false");
                    assert(r@ =~= literal_text(self@));
                }
                r
            },
            LiteralValue::Null => {
                let mut r = String::new();
                append_str(&mut r, "null");
                proof {
                    reveal_strlit("null");
                    assert(r@ =~= literal_text(self@));
                }
                r
            },
            LiteralValue::Integer(n) => i64_text(*n),
            LiteralValue::Float(f) => float_literal_text(f),
            LiteralValue::String(s) => {
                let mut r = String::new();
                push_char(&mut r, '\'');
                append_str(&mut r, s.as_str());
                push_char(&mut r, '\'');
                proof {
                    assert(r@ =~= literal_text(self@));
                }
                r
            },
        }
    }
}


} // verus!
