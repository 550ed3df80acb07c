//! The `format` template language: `{N}` placeholders, each replaced by the
//! text of the `N`-th argument after the template.
//!
//! A placeholder is `{`, decimal digits and `}`. Every other character is
//! copied as it is; a `}` outside a placeholder is an error. Byte positions
//! in error messages count from the start of the template, or from just
//! after the last placeholder read.
use vstd::prelude::*;

use crate::errors::EvalError;
use crate::expression::lexer::{digits_end, digits_value, lemma_digits_end_bounds, lemma_digits_value_prefix};
use crate::text::{
    append_str, char_width, chars_of, decimal_digits, is_digit, lemma_encode_utf8_len,
    lemma_utf8_len_subrange, lemma_utf8_len_subrange_step, owned, push_char, string_of_range,
    usize_text, utf8_len,
};

verus! {

/// The texts of a list of strings.
pub open spec fn texts_of(args: Seq<String>) -> Seq<Seq<char>> {
    args.map_values(|a: String| a@)
}

pub open spec fn unclosed_message() -> Seq<char> {
    "format: unclosed placeholder"@
}

pub open spec fn bad_char_message(c: char, at: nat) -> Seq<char> {
    "format: invalid placeholder character '"@ + seq![c] + "' at position "@ + decimal_digits(at)
}

pub open spec fn bad_index_message(digits: Seq<char>) -> Seq<char> {
    "format: invalid placeholder index '"@ + digits + "'"@
}

pub open spec fn out_of_range_message(index: nat, count: nat) -> Seq<char> {
    "format: placeholder index "@ + decimal_digits(index) + " out of range (have "@
        + decimal_digits(count) + " args)"@
}

/// The outcome of the placeholder opened by the `{` just before index
/// `start`, where the text being read began at index `base`: the index of
/// its closing `}` and the argument it names, or an error message.
pub open spec fn placeholder(t: Seq<char>, start: int, base: int, count: nat) -> Result<(int, nat), Seq<char>> {
    let e = digits_end(t, start);
    if e >= t.len() {
        Err(unclosed_message())
    } else if t[e] != '}' {
        Err(bad_char_message(t[e], utf8_len(t.subrange(base, e))))
    } else {
        let d = t.subrange(start, e);
        if d.len() == 0 || digits_value(d) > usize::MAX {
            Err(bad_index_message(d))
        } else if digits_value(d) >= count {
            Err(out_of_range_message(digits_value(d) as nat, count))
        } else {
            Ok((e, digits_value(d) as nat))
        }
    }
}

/// What formatting `t` from index `i` gives, where the text being read
/// began at index `base`; `stray` is the message for a lone `}`.
pub open spec fn format_from(t: Seq<char>, i: int, base: int, args: Seq<Seq<char>>, stray: Seq<char>) -> Result<Seq<char>, Seq<char>>
    decreases t.len() - i,
{
    if i < 0 || i >= t.len() {
        Ok(Seq::empty())
    } else if t[i] == '{' {
        match placeholder(t, i + 1, base, args.len()) {
            Err(m) => Err(m),
            Ok((e, idx)) => {
                proof {
                    lemma_digits_end_bounds(t, i + 1);
                }
                match format_from(t, e + 1, e + 1, args, stray) {
                    Ok(rest) => Ok(args[idx as int] + rest),
                    Err(m) => Err(m),
                }
            },
        }
    } else if t[i] == '}' {
        Err(stray)
    } else {
        match format_from(t, i + 1, base, args, stray) {
            Ok(rest) => Ok(seq![t[i]] + rest),
            Err(m) => Err(m),
        }
    }
}

/// What formatting the whole template gives.
pub open spec fn format_spec(t: Seq<char>, args: Seq<Seq<char>>, stray: Seq<char>) -> Result<Seq<char>, Seq<char>> {
    format_from(t, 0, 0, args, stray)
}

/// A template without braces formats to itself, whatever the arguments.
pub proof fn lemma_plain_template_formats_to_itself(t: Seq<char>, args: Seq<Seq<char>>, stray: Seq<char>)
    requires
        forall|k: int| 0 <= k < t.len() ==> #[trigger] t[k] != '{' && t[k] != '}',
    ensures
        format_spec(t, args, stray) == Ok::<Seq<char>, Seq<char>>(t),
{
    lemma_plain_suffix_formats_to_itself(t, 0, 0, args, stray);
    assert(t.skip(0) =~= t);
}

proof fn lemma_plain_suffix_formats_to_itself(t: Seq<char>, i: int, base: int, args: Seq<Seq<char>>, stray: Seq<char>)
    requires
        0 <= i <= t.len(),
        forall|k: int| 0 <= k < t.len() ==> #[trigger] t[k] != '{' && t[k] != '}',
    ensures
        format_from(t, i, base, args, stray) == Ok::<Seq<char>, Seq<char>>(t.skip(i)),
    decreases t.len() - i,
{
    if i < t.len() {
        lemma_plain_suffix_formats_to_itself(t, i + 1, base, args, stray);
        assert(seq![t[i]] + t.skip(i + 1) =~= t.skip(i));
    } else {
        assert(t.skip(i) =~= Seq::<char>::empty());
    }
}

/// Text already produced, put in front of what the rest gives.
pub open spec fn after(done: Seq<char>, r: Result<Seq<char>, Seq<char>>) -> Result<Seq<char>, Seq<char>> {
    match r {
        Ok(rest) => Ok(done + rest),
        Err(m) => Err(m),
    }
}

/// The message of a formatting error, or nothing for another outcome.
pub open spec fn format_outcome(r: Result<String, EvalError>) -> Result<Seq<char>, Seq<char>> {
    match r {
        Ok(s) => Ok(s@),
        Err(EvalError::FormatError(m)) => Err(m@),
        Err(_) => Err(Seq::empty()),
    }
}

/// Finds the `}` that closes the placeholder whose digits begin at `start`.
fn find_placeholder_end(t: &Vec<char>, start: usize, base: usize) -> (r: Result<usize, EvalError>)
    requires
        base <= start <= t.len(),
        utf8_len(t@) <= usize::MAX,
    ensures
        match r {
            Ok(e) => e == digits_end(t@, start as int) && e < t@.len() && t@[e as int] == '}',
            Err(EvalError::FormatError(m)) => {
                let e = digits_end(t@, start as int);
                if e >= t@.len() {
                    m@ == unclosed_message()
                } else {
                    t@[e] != '}' && m@ == bad_char_message(t@[e], utf8_len(t@.subrange(base as int, e)))
                }
            },
            Err(_) => false,
        },
{
    proof {
        lemma_digits_end_bounds(t@, start as int);
    }
    let mut end = start;
    while end < t.len() && t[end] != '}' && crate::text::digit_char(t[end])
        invariant
            start <= end <= t.len(),
            digits_end(t@, start as int) == digits_end(t@, end as int),
        decreases t.len() - end,
    {
        end = end + 1;
    }
    if end >= t.len() {
        proof {
            reveal_strlit("format: unclosed placeholder");
        }
        return Err(EvalError::FormatError(owned("format: unclosed placeholder")));
    }
    if t[end] != '}' {
        let mut at: usize = 0;
        let mut k: usize = base;
        while k < end
            invariant
                base <= k <= end,
                end < t.len(),
                utf8_len(t@) <= usize::MAX,
                at == utf8_len(t@.subrange(base as int, k as int)),
            decreases end - k,
        {
            proof {
                lemma_utf8_len_subrange_step(t@, base as int, k as int);
                lemma_utf8_len_subrange(t@, base as int, k + 1);
            }
            at = at + char_width(t[k]);
            k = k + 1;
        }
        let mut m = owned("format: invalid placeholder character '");
        push_char(&mut m, t[end]);
        append_str(&mut m, "' at position ");
        let digits = usize_text(at);
        append_str(&mut m, digits.as_str());
        proof {
            reveal_strlit("format: invalid placeholder character '");
            reveal_strlit("' at position ");
        }
        return Err(EvalError::FormatError(m));
    }
    Ok(end)
}

/// Reads the digits between `start` and `end` as an argument index.
fn parse_placeholder(t: &Vec<char>, start: usize, end: usize) -> (r: Result<usize, EvalError>)
    requires
        start <= end <= t.len(),
        forall|k: int| start <= k < end ==> is_digit(#[trigger] t@[k]),
    ensures
        ({
            let d = t@.subrange(start as int, end as int);
            if d.len() == 0 || digits_value(d) > usize::MAX {
                r matches Err(EvalError::FormatError(m)) && m@ == bad_index_message(d)
            } else {
                r == Ok::<usize, EvalError>(digits_value(d) as usize)
            }
        }),
{
    let ghost d = t@.subrange(start as int, end as int);
    if start == end {
        let mut m = owned("format: invalid placeholder index '");
        append_str(&mut m, "'");
        proof {
            assert(d =~= Seq::<char>::empty());
            assert(m@ =~= bad_index_message(d));
        }
        return Err(EvalError::FormatError(m));
    }
    proof {
        lemma_digits_value_prefix(d, 0);
    }
    let mut v: usize = 0;
    let mut k: usize = start;
    while k < end
        invariant
            start <= k <= end <= t.len(),
            d == t@.subrange(start as int, end as int),
            forall|j: int| start <= j < end ==> is_digit(#[trigger] t@[j]),
            v == digits_value(d.take(k - start)),
        decreases end - k,
    {
        let ghost n = (k - start) as int;
        proof {
            assert(d.take(n + 1).drop_last() =~= d.take(n));
            assert(d.take(n + 1).last() == t@[k as int]);
            assert(is_digit(t@[k as int]));
            assert(forall|j: int| 0 <= j < d.len() ==> is_digit(#[trigger] d[j])) by {
                assert forall|j: int| 0 <= j < d.len() implies is_digit(#[trigger] d[j]) by {
                    assert(d[j] == t@[start + j]);
                }
            }
            lemma_digits_value_prefix(d, n + 1);
        }
        let digit = (t[k] as u32 - '0' as u32) as usize;
        let next = match v.checked_mul(10) {
            Some(x) => x.checked_add(digit),
            None => None,
        };
        match next {
            Some(x) => {
                v = x;
            },
            None => {
                let mut m = owned("format: invalid placeholder index '");
                let digits = string_of_range(t, start, end);
                append_str(&mut m, digits.as_str());
                append_str(&mut m, "'");
                proof {
                    assert(digits_value(d.take(n + 1)) > usize::MAX);
                    assert(m@ =~= bad_index_message(d));
                }
                return Err(EvalError::FormatError(m));
            },
        }
        k = k + 1;
    }
    proof {
        assert(d.take(d.len() as int) =~= d);
    }
    Ok(v)
}

/// Appends the text of argument `index`, when there is one.
fn append_formatted_arg(out: &mut String, args: &[String], index: usize) -> (r: Result<(), EvalError>)
    ensures
        index < args@.len() ==> r is Ok && final(out)@ == old(out)@ + args@[index as int]@,
        index >= args@.len() ==> (r matches Err(EvalError::FormatError(m))
            && m@ == out_of_range_message(index as nat, args@.len()) && final(out)@ == old(out)@),
{
    if index < args.len() {
        append_str(out, args[index].as_str());
        Ok(())
    } else {
        let mut m = owned("format: placeholder index ");
        let i = usize_text(index);
        append_str(&mut m, i.as_str());
        append_str(&mut m, " out of range (have ");
        let n = usize_text(args.len());
        append_str(&mut m, n.as_str());
        append_str(&mut m, " args)");
        proof {
            assert(m@ =~= out_of_range_message(index as nat, args@.len()));
        }
        Err(EvalError::FormatError(m))
    }
}

/// Replaces each `{N}` of `template` by the text of `args[N]`; `stray` is
/// the message given for a `}` outside a placeholder.
///
/// Fails with a [`EvalError::FormatError`] when a placeholder is not
/// closed, holds a character other than a digit, has no digits or too many,
/// or names an argument that is not there, and on a lone `}`.
pub fn format_template(template: &str, args: &[String], stray: &str) -> (r: Result<String, EvalError>)
    ensures
        r is Ok || r matches Err(EvalError::FormatError(_)),
        format_outcome(r) == format_spec(template@, texts_of(args@), stray@),
{
    let byte_count: usize = template.as_bytes().len();
    proof {
        lemma_encode_utf8_len(template@);
    }
    let t = chars_of(template);
    let ghost tv = t@;
    let ghost a = texts_of(args@);
    let mut out = String::new();
    let mut i: usize = 0;
    let mut base: usize = 0;
    proof {
        assert(after(out@, format_from(tv, 0, 0, a, stray@)) == format_from(tv, 0, 0, a, stray@)) by {
            match format_from(tv, 0, 0, a, stray@) {
                Ok(rest) => { assert(out@ + rest =~= rest); },
                Err(_) => {},
            }
        }
    }
    while i < t.len()
        invariant
            tv == t@,
            tv == template@,
            a == texts_of(args@),
            utf8_len(tv) == byte_count,
            base <= i <= t.len(),
            format_spec(tv, a, stray@) == after(out@, format_from(tv, i as int, base as int, a, stray@)),
        decreases t.len() - i,
    {
        let c = t[i];
        if c == '{' {
            proof {
                lemma_digits_end_bounds(tv, i + 1);
            }
            let end = match find_placeholder_end(&t, i + 1, base) {
                Ok(e) => e,
                Err(err) => return Err(err),
            };
            proof {
                assert(a.len() == args@.len());
                assert(format_from(tv, i as int, base as int, a, stray@) == match placeholder(tv, i + 1, base as int, a.len()) {
                    Err(m) => Err(m),
                    Ok((e, idx)) => match format_from(tv, e + 1, e + 1, a, stray@) {
                        Ok(rest) => Ok(a[idx as int] + rest),
                        Err(m) => Err(m),
                    },
                });
            }
            let index = match parse_placeholder(&t, i + 1, end) {
                Ok(x) => x,
                Err(err) => {
                    proof {
                        assert(placeholder(tv, i + 1, base as int, a.len()) is Err);
                    }
                    return Err(err);
                },
            };
            let ghost before = out@;
            proof {
                let d = tv.subrange(i + 1, end as int);
                assert(forall|k: int| 0 <= k < d.len() ==> is_digit(#[trigger] d[k])) by {
                    assert forall|k: int| 0 <= k < d.len() implies is_digit(#[trigger] d[k]) by {
                        assert(d[k] == tv[i + 1 + k]);
                    }
                }
                lemma_digits_value_prefix(d, 0);
                assert(d.len() > 0 && digits_value(d) <= usize::MAX);
                assert(index == digits_value(d));
                if index >= a.len() {
                    assert(placeholder(tv, i + 1, base as int, a.len()) == Err::<(int, nat), Seq<char>>(out_of_range_message(index as nat, a.len())));
                } else {
                    assert(placeholder(tv, i + 1, base as int, a.len()) == Ok::<(int, nat), Seq<char>>((end as int, index as nat)));
                }
            }
            match append_formatted_arg(&mut out, args, index) {
                Ok(()) => {},
                Err(err) => return Err(err),
            }
            proof {
                assert(a[index as int] == args@[index as int]@);
                match format_from(tv, end + 1, end + 1, a, stray@) {
                    Ok(rest) => { assert(before + (a[index as int] + rest) =~= out@ + rest); },
                    Err(_) => {},
                }
            }
            i = end + 1;
            base = end + 1;
        } else if c == '}' {
            return Err(EvalError::FormatError(owned(stray)));
        } else {
            let ghost before = out@;
            push_char(&mut out, c);
            proof {
                match format_from(tv, i + 1, base as int, a, stray@) {
                    Ok(rest) => { assert(before + (seq![c] + rest) =~= out@ + rest); },
                    Err(_) => {},
                }
            }
            i = i + 1;
        }
    }
    proof {
        assert(out@ + Seq::<char>::empty() =~= out@);
    }
    Ok(out)
}

} // verus!
