//! Built-in functions of the expression language, on the plain texts and
//! counts their values reduce to: the case-insensitive string predicates,
//! `format`, `join`, the job status stubs, and the choice of the built-in
//! a call names.
use vstd::prelude::*;

use crate::errors::{EvalError, EvalErrorModel};
use crate::expression::template::{format_outcome, format_spec, format_template, texts_of};
use crate::text::{
    append_str, begins_with, chars_of, decimal_digits, finishes_with, join_texts, joined,
    lowercase, lowercase_of, occurs_in, owned, push_char, same_text, text_begins_with,
    text_ends_with, text_occurs, usize_text,
};

verus! {

/// A built-in function of the expression language.
#[derive(Debug, Clone, Copy, PartialEq, Eq, Structural)]
pub enum Builtin {
    Contains,
    StartsWith,
    EndsWith,
    Format,
    Join,
    ToJson,
    FromJson,
    Success,
    Always,
    Cancelled,
    Failure,
}

/// The built-in a lowercased function name denotes.
pub open spec fn builtin_named(lower: Seq<char>) -> Option<Builtin> {
    if lower == "contains"@ {
        Some(Builtin::Contains)
    } else if lower == "startswith"@ {
        Some(Builtin::StartsWith)
    } else if lower == "endswith"@ {
        Some(Builtin::EndsWith)
    } else if lower == "format"@ {
        Some(Builtin::Format)
    } else if lower == "join"@ {
        Some(Builtin::Join)
    } else if lower == "tojson"@ {
        Some(Builtin::ToJson)
    } else if lower == "fromjson"@ {
        Some(Builtin::FromJson)
    } else if lower == "success"@ {
        Some(Builtin::Success)
    } else if lower == "always"@ {
        Some(Builtin::Always)
    } else if lower == "cancelled"@ {
        Some(Builtin::Cancelled)
    } else if lower == "failure"@ {
        Some(Builtin::Failure)
    } else {
        None
    }
}

/// How many arguments a built-in other than `format` takes.
pub open spec fn arity(b: Builtin) -> nat {
    match b {
        Builtin::Contains | Builtin::StartsWith | Builtin::EndsWith | Builtin::Join => 2,
        Builtin::ToJson | Builtin::FromJson => 1,
        _ => 0,
    }
}

/// The expected count as the arity message gives it: `N`, or `MIN..MAX`.
pub open spec fn expected_count_text(min: nat, max: nat) -> Seq<char> {
    if min == max {
        decimal_digits(min)
    } else {
        decimal_digits(min) + seq!['.', '.'] + decimal_digits(max)
    }
}

/// What checking `actual` arguments against the range `[min, max]` gives.
pub open spec fn arg_count_spec(func: Seq<char>, actual: nat, min: nat, max: nat) -> Result<(), EvalErrorModel> {
    if actual < min || actual > max {
        Err(EvalErrorModel::ArgCount(
            func + ": expected "@ + expected_count_text(min, max) + " argument(s), got "@ + decimal_digits(actual),
        ))
    } else {
        Ok(())
    }
}

/// The outcome of a check, by its abstract content.
pub open spec fn check_view(r: Result<(), EvalError>) -> Result<(), EvalErrorModel> {
    match r {
        Ok(()) => Ok(()),
        Err(e) => Err(e@),
    }
}

/// The outcome of choosing a built-in, by its abstract content.
pub open spec fn choice_view(r: Result<Builtin, EvalError>) -> Result<Builtin, EvalErrorModel> {
    match r {
        Ok(b) => Ok(b),
        Err(e) => Err(e@),
    }
}

/// Which built-in a call of `name` (given as written and lowercased) with
/// `arg_count` arguments runs, or why the call is refused.
pub open spec fn dispatch_spec(name: Seq<char>, lower: Seq<char>, arg_count: nat) -> Result<Builtin, EvalErrorModel> {
    match builtin_named(lower) {
        None => Err(EvalErrorModel::TypeError("unknown function: "@ + lower)),
        Some(Builtin::Format) => if arg_count == 0 {
            Err(EvalErrorModel::ArgCount(name + ": expected at least 1 argument, got 0"@))
        } else {
            Ok(Builtin::Format)
        },
        Some(b) => match arg_count_spec(name, arg_count, arity(b), arity(b)) {
            Ok(()) => Ok(b),
            Err(e) => Err(e),
        },
    }
}

/// The message `format` gives for a `}` outside a placeholder.
pub open spec fn stray_brace_message() -> Seq<char> {
    "format: unexpected '}' without opening '{'"@
}

/// Checks that `actual` lies within `[min, max]`.
///
/// The error names the function and the expected count: `N` when the range
/// holds one count, `MIN..MAX` otherwise.
pub fn expect_arg_count(func: &str, actual: usize, min: usize, max: usize) -> (r: Result<(), EvalError>)
    ensures
        check_view(r) == arg_count_spec(func@, actual as nat, min as nat, max as nat),
{
    if actual < min || actual > max {
        let mut m = owned(func);
        append_str(&mut m, ": expected ");
        let lo = usize_text(min);
        append_str(&mut m, lo.as_str());
        if min != max {
            push_char(&mut m, '.');
            push_char(&mut m, '.');
            let hi = usize_text(max);
            append_str(&mut m, hi.as_str());
        }
        append_str(&mut m, " argument(s), got ");
        let got = usize_text(actual);
        append_str(&mut m, got.as_str());
        proof {
            assert(m@ =~= func@ + ": expected "@ + expected_count_text(min as nat, max as nat)
                + " argument(s), got "@ + decimal_digits(actual as nat));
        }
        return Err(EvalError::ArgCount(m));
    }
    Ok(())
}

/// The built-in that a lowercased name denotes.
pub fn builtin_of(lower: &str) -> (r: Option<Builtin>)
    ensures
        r == builtin_named(lower@),
{
    if same_text(lower, "contains") {
        Some(Builtin::Contains)
    } else if same_text(lower, "startswith") {
        Some(Builtin::StartsWith)
    } else if same_text(lower, "endswith") {
        Some(Builtin::EndsWith)
    } else if same_text(lower, "format") {
        Some(Builtin::Format)
    } else if same_text(lower, "join") {
        Some(Builtin::Join)
    } else if same_text(lower, "tojson") {
        Some(Builtin::ToJson)
    } else if same_text(lower, "fromjson") {
        Some(Builtin::FromJson)
    } else if same_text(lower, "success") {
        Some(Builtin::Success)
    } else if same_text(lower, "always") {
        Some(Builtin::Always)
    } else if same_text(lower, "cancelled") {
        Some(Builtin::Cancelled)
    } else if same_text(lower, "failure") {
        Some(Builtin::Failure)
    } else {
        None
    }
}

/// Chooses the built-in for a call of `name` whose lowercase form is
/// `lower`, and checks the number of arguments against it.
pub fn dispatch_lowercased(name: &str, lower: &str, arg_count: usize) -> (r: Result<Builtin, EvalError>)
    ensures
        choice_view(r) == dispatch_spec(name@, lower@, arg_count as nat),
{
    match builtin_of(lower) {
        None => {
            let mut m = owned("unknown function: ");
            append_str(&mut m, lower);
            Err(EvalError::TypeError(m))
        },
        Some(Builtin::Format) => {
            if arg_count == 0 {
                let mut m = owned(name);
                append_str(&mut m, ": expected at least 1 argument, got 0");
                Err(EvalError::ArgCount(m))
            } else {
                Ok(Builtin::Format)
            }
        },
        Some(b) => {
            let n: usize = match b {
                Builtin::Contains | Builtin::StartsWith | Builtin::EndsWith | Builtin::Join => 2,
                Builtin::ToJson | Builtin::FromJson => 1,
                _ => 0,
            };
            match expect_arg_count(name, arg_count, n, n) {
                Ok(()) => Ok(b),
                Err(e) => Err(e),
            }
        },
    }
}

/// Built-in function dispatcher for workflow expressions.
///
/// Function names are matched without regard to case; string predicates
/// compare the lowercase forms of their arguments.
#[derive(Debug, Default)]
pub struct Functions;

impl Functions {
    /// Creates a dispatcher.
    pub fn new() -> (r: Self) {
        Functions
    }

    /// Whether `search` contains `item`, ignoring case.
    pub fn contains_text(&self, search: &str, item: &str) -> (r: bool)
        ensures
            r == occurs_in(lowercase_of(search@), lowercase_of(item@)),
    {
        let s = lowercase(search);
        let i = lowercase(item);
        text_occurs(&chars_of(s.as_str()), &chars_of(i.as_str()))
    }

    /// Whether `search` starts with `prefix`, ignoring case.
    pub fn starts_with_text(&self, search: &str, prefix: &str) -> (r: bool)
        ensures
            r == begins_with(lowercase_of(search@), lowercase_of(prefix@)),
    {
        let s = lowercase(search);
        let p = lowercase(prefix);
        text_begins_with(&chars_of(s.as_str()), &chars_of(p.as_str()))
    }

    /// Whether `search` ends with `suffix`, ignoring case.
    pub fn ends_with_text(&self, search: &str, suffix: &str) -> (r: bool)
        ensures
            r == finishes_with(lowercase_of(search@), lowercase_of(suffix@)),
    {
        let s = lowercase(search);
        let x = lowercase(suffix);
        text_ends_with(&chars_of(s.as_str()), &chars_of(x.as_str()))
    }

    /// Replaces `{0}`, `{1}`, ... in `template` with the texts of the
    /// arguments that follow it.
    pub fn format_text(&self, template: &str, args: &[String]) -> (r: Result<String, EvalError>)
        ensures
            r is Ok || r matches Err(EvalError::FormatError(_)),
            format_outcome(r) == format_spec(template@, texts_of(args@), stray_brace_message()),
    {
        format_template(template, args, "format: unexpected '}' without opening '{'")
    }

    /// The texts joined with `separator` between each two neighbours.
    pub fn join_texts(&self, parts: &[String], separator: &str) -> (r: String)
        ensures
            r@ == joined(texts_of(parts@), separator@),
    {
        join_texts(parts, separator)
    }

    /// Job status check; always succeeds.
    pub fn success(&self) -> (r: bool)
        ensures
            r,
    {
        true
    }

    /// Unconditional execution check; always true.
    pub fn always(&self) -> (r: bool)
        ensures
            r,
    {
        true
    }

    /// Cancellation check; never cancelled.
    pub fn cancelled(&self) -> (r: bool)
        ensures
            !r,
    {
        false
    }

    /// Failure check; never failed.
    pub fn failure(&self) -> (r: bool)
        ensures
            !r,
    {
        false
    }

    /// Chooses the built-in that a call of `name` with `arg_count`
    /// arguments runs, matching the name without regard to case.
    ///
    /// Fails with a [`EvalError::TypeError`] for an unknown name and with
    /// a [`EvalError::ArgCount`] for a wrong number of arguments.
    pub fn dispatch(&self, name: &str, arg_count: usize) -> (r: Result<Builtin, EvalError>)
        ensures
            choice_view(r) == dispatch_spec(name@, lowercase_of(name@), arg_count as nat),
    {
        let lower = lowercase(name);
        dispatch_lowercased(name, lower.as_str(), arg_count)
    }
}

} // verus!
