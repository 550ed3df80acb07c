//! Built-in functions of the expression language, as the services layer
//! exposes them.
use vstd::prelude::*;

use crate::errors::EvalError;
use crate::expression::functions::{
    arg_count_spec, check_view, choice_view, dispatch_lowercased, dispatch_spec, expect_arg_count,
    Builtin,
};
use crate::expression::template::{format_outcome, format_spec, format_template, texts_of};
use crate::text::{
    begins_with, chars_of, finishes_with, join_texts, joined, lowercase, lowercase_of, occurs_in,
    text_begins_with, text_ends_with, text_occurs,
};

verus! {

/// The message `format` gives for a `}` outside a placeholder.
pub open spec fn single_brace_message() -> Seq<char> {
    "format: single '}' encountered in template"@
}

/// Built-in function dispatcher for workflow expressions.
///
/// Function names are matched without regard to case; string predicates
/// compare the lowercase forms of their arguments.
#[derive(Debug, Default)]
pub struct ExpressionFunctions;

impl ExpressionFunctions {
    /// Creates a dispatcher.
    pub fn new() -> (r: Self) {
        ExpressionFunctions
    }

    /// Whether `search` contains `item`, ignoring case.
    pub fn contains_text(&self, search: &str, item: &str) -> (r: bool)
        ensures
            r == occurs_in(lowercase_of(search@), lowercase_of(item@)),
    {
        let s = lowercase(search);
        let i = lowercase(item);
        text_occurs(&chars_of(s.as_str()), &chars_of(i.as_str()))
    }

    /// Whether `search` starts with `prefix`, ignoring case.
    pub fn starts_with_text(&self, search: &str, prefix: &str) -> (r: bool)
        ensures
            r == begins_with(lowercase_of(search@), lowercase_of(prefix@)),
    {
        let s = lowercase(search);
        let p = lowercase(prefix);
        text_begins_with(&chars_of(s.as_str()), &chars_of(p.as_str()))
    }

    /// Whether `search` ends with `suffix`, ignoring case.
    pub fn ends_with_text(&self, search: &str, suffix: &str) -> (r: bool)
        ensures
            r == finishes_with(lowercase_of(search@), lowercase_of(suffix@)),
    {
        let s = lowercase(search);
        let x = lowercase(suffix);
        text_ends_with(&chars_of(s.as_str()), &chars_of(x.as_str()))
    }

    /// Replaces `{0}`, `{1}`, ... in `template` with the texts of the
    /// arguments that follow it.
    pub fn format_text(&self, template: &str, args: &[String]) -> (r: Result<String, EvalError>)
        ensures
            r is Ok || r matches Err(EvalError::FormatError(_)),
            format_outcome(r) == format_spec(template@, texts_of(args@), single_brace_message()),
    {
        format_template(template, args, "format: single '}' encountered in template")
    }

    /// The texts joined with `separator` between each two neighbours.
    pub fn join_texts(&self, parts: &[String], separator: &str) -> (r: String)
        ensures
            r@ == joined(texts_of(parts@), separator@),
    {
        join_texts(parts, separator)
    }

    /// Checks that `actual` lies within `[min, max]`.
    pub fn expect_arg_count(func: &str, actual: usize, min: usize, max: usize) -> (r: Result<(), EvalError>)
        ensures
            check_view(r) == arg_count_spec(func@, actual as nat, min as nat, max as nat),
    {
        expect_arg_count(func, actual, min, max)
    }

    /// Job status check; always succeeds.
    pub fn success(&self) -> (r: bool)
        ensures
            r,
    {
        true
    }

    /// Unconditional execution check; always true.
    pub fn always(&self) -> (r: bool)
        ensures
            r,
    {
        true
    }

    /// Cancellation check; never cancelled.
    pub fn cancelled(&self) -> (r: bool)
        ensures
            !r,
    {
        false
    }

    /// Failure check; never failed.
    pub fn failure(&self) -> (r: bool)
        ensures
            !r,
    {
        false
    }

    /// Chooses the built-in that a call of `name` with `arg_count`
    /// arguments runs, matching the name without regard to case.
    ///
    /// Fails with a [`EvalError::TypeError`] for an unknown name and with
    /// a [`EvalError::ArgCount`] for a wrong number of arguments.
    pub fn dispatch(&self, name: &str, arg_count: usize) -> (r: Result<Builtin, EvalError>)
        ensures
            choice_view(r) == dispatch_spec(name@, lowercase_of(name@), arg_count as nat),
    {
        let lower = lowercase(name);
        dispatch_lowercased(name, lower.as_str(), arg_count)
    }
}

} // verus!
