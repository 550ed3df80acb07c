//! Reading JSON text. The reader checks the text against the JSON grammar
//! and reports what it holds as a stream of events, in document order:
//! scalars, the bounds of lists and mappings, and mapping keys. Numbers are
//! kept as integers when they have no fraction or exponent, and as their
//! literal text otherwise.
use vstd::prelude::*;

use crate::errors::JsonTextError;
use crate::expression::lexer::{
    digits_end, int_text_fits, int_text_value, is_int_text, lemma_digits_end_bounds,
    parse_int_text,
};
use crate::text::{
    append_str, chars_of, digit_char, is_digit, matches_at, occurs_at, push_char,
    string_of_range,
};

verus! {

/// The abstract content of a [`JsonEvent`].
pub enum JsonEventModel {
    Null,
    Bool(bool),
    Int(int),
    Dec(Seq<char>),
    Text(Seq<char>),
    BeginList,
    EndList,
    BeginMapping,
    Key(Seq<char>),
    EndMapping,
}

/// One event of a JSON document, in document order.
#[derive(Debug, Clone, PartialEq)]
pub enum JsonEvent {
    Null,
    Boolean(bool),
    Integer(i64),
    /// A number with a fraction or an exponent, as written.
    Decimal(String),
    Text(String),
    BeginList,
    EndList,
    BeginMapping,
    /// The key of the mapping entry whose value follows.
    Key(String),
    EndMapping,
}

impl View for JsonEvent {
    type V = JsonEventModel;

    open spec fn view(&self) -> JsonEventModel {
        match self {
            JsonEvent::Null => JsonEventModel::Null,
            JsonEvent::Boolean(b) => JsonEventModel::Bool(*b),
            JsonEvent::Integer(v) => JsonEventModel::Int(*v as int),
            JsonEvent::Decimal(t) => JsonEventModel::Dec(t@),
            JsonEvent::Text(t) => JsonEventModel::Text(t@),
            JsonEvent::BeginList => JsonEventModel::BeginList,
            JsonEvent::EndList => JsonEventModel::EndList,
            JsonEvent::BeginMapping => JsonEventModel::BeginMapping,
            JsonEvent::Key(t) => JsonEventModel::Key(t@),
            JsonEvent::EndMapping => JsonEventModel::EndMapping,
        }
    }
}

/// The abstract content of a list of events.
pub open spec fn events_model(v: Seq<JsonEvent>) -> Seq<JsonEventModel> {
    v.map_values(|e: JsonEvent| e@)
}

/// What reading from a position gives: the events read and the position
/// after them, or the message of what went wrong.
pub type ReadOutcome = Result<(Seq<JsonEventModel>, int), Seq<char>>;

/// The message for a character that was required and is missing.
pub open spec fn expected_message(c: char) -> Seq<char> {
    "expected '"@ + seq![c] + "' in JSON text"@
}

// ---------------------------------------------------------------------------
// Numbers.
// ---------------------------------------------------------------------------

/// Characters that can make up a number literal.
pub open spec fn is_number_char(c: char) -> bool {
    is_digit(c) || c == '-' || c == '+' || c == '.' || c == 'e' || c == 'E'
}

/// First index at or after `i` that does not hold a number character.
pub open spec fn number_end(s: Seq<char>, i: int) -> int
    decreases s.len() - i,
{
    if 0 <= i < s.len() && is_number_char(s[i]) {
        number_end(s, i + 1)
    } else {
        i
    }
}

/// The literal holds `.`, `e` or `E`, so it is read as a fractional number.
pub open spec fn has_fraction_mark(t: Seq<char>) -> bool {
    exists|k: int| 0 <= k < t.len() && (t[k] == '.' || t[k] == 'e' || t[k] == 'E')
}

/// Where the digits of a number's integer part start: after its `-`, if
/// it has one.
pub open spec fn int_part_start(t: Seq<char>) -> int {
    if t.len() > 0 && t[0] == '-' { 1 } else { 0 }
}

/// Where the fraction of a number ends, given the end `b` of its integer
/// part: `b` itself when no `.` follows.
pub open spec fn fraction_end(t: Seq<char>, b: int) -> int {
    if 0 <= b < t.len() && t[b] == '.' { digits_end(t, b + 1) } else { b }
}

/// Where the digits of an exponent start, given the index `c` of its `e`
/// or `E`: after the sign, if there is one.
pub open spec fn exponent_digits_start(t: Seq<char>, c: int) -> int {
    if c + 1 < t.len() && (t[c + 1] == '+' || t[c + 1] == '-') { c + 2 } else { c + 1 }
}

/// A number as the JSON grammar (RFC 8259) writes it: an optional `-`;
/// `0` or digits that do not start with `0`; optionally `.` and at least
/// one digit; optionally `e` or `E`, an optional `+` or `-`, and at least
/// one digit.
pub open spec fn is_json_number_text(t: Seq<char>) -> bool {
    let a = int_part_start(t);
    let b = digits_end(t, a);
    let c = fraction_end(t, b);
    &&& a < b
    &&& (t[a] == '0' ==> b == a + 1)
    &&& (b < t.len() && t[b] == '.' ==> b + 1 < c)
    &&& (c == t.len() || ((t[c] == 'e' || t[c] == 'E')
        && exponent_digits_start(t, c) < t.len()
        && digits_end(t, exponent_digits_start(t, c)) == t.len()))
}

/// Reading the number literal that starts at `k`.
pub open spec fn read_number_spec(s: Seq<char>, k: int) -> ReadOutcome {
    let e = number_end(s, k);
    let lit = s.subrange(k, e);
    if lit.len() == 0 {
        Err("unexpected character in JSON text"@)
    } else if !is_json_number_text(lit) {
        Err("invalid number '"@ + lit + "'"@)
    } else if has_fraction_mark(lit) {
        Ok((seq![JsonEventModel::Dec(lit)], e))
    } else if i64::MIN <= int_text_value(lit) <= i64::MAX {
        Ok((seq![JsonEventModel::Int(int_text_value(lit))], e))
    } else {
        Err("invalid number '"@ + lit + "'"@)
    }
}

/// Reading the keyword that starts at `k`.
pub open spec fn read_keyword_spec(s: Seq<char>, k: int) -> ReadOutcome {
    if occurs_at(s, "true"@, k) {
        Ok((seq![JsonEventModel::Bool(true)], k + 4))
    } else if occurs_at(s, "false"@, k) {
        Ok((seq![JsonEventModel::Bool(false)], k + 5))
    } else if occurs_at(s, "null"@, k) {
        Ok((seq![JsonEventModel::Null], k + 4))
    } else {
        Err("invalid JSON literal"@)
    }
}

// ---------------------------------------------------------------------------
// Strings.
// ---------------------------------------------------------------------------

/// A hexadecimal digit, in either case.
pub open spec fn is_hex_digit(c: char) -> bool {
    is_digit(c) || ('a' <= c && c <= 'f') || ('A' <= c && c <= 'F')
}

/// The value of a hexadecimal digit.
pub open spec fn hex_digit_value(c: char) -> int {
    if is_digit(c) {
        c as int - '0' as int
    } else if 'a' <= c && c <= 'f' {
        c as int - 'a' as int + 10
    } else {
        c as int - 'A' as int + 10
    }
}

/// Hexadecimal digits mean what they spell, in either case: `0` to `9`
/// are zero to nine, `a` to `f` and `A` to `F` are ten to fifteen, and
/// nothing else is a hexadecimal digit.
pub proof fn lemma_hex_digit_values(c: char)
    ensures
        '0' <= c <= '9' ==> is_hex_digit(c) && hex_digit_value(c) == c as int - '0' as int,
        'a' <= c <= 'f' ==> is_hex_digit(c) && hex_digit_value(c) == c as int - 'a' as int + 10,
        'A' <= c <= 'F' ==> is_hex_digit(c) && hex_digit_value(c) == c as int - 'A' as int + 10,
        is_hex_digit(c) ==> ('0' <= c <= '9' || 'a' <= c <= 'f' || 'A' <= c <= 'F'),
{
}

/// The value of a sequence of hexadecimal digits.
pub open spec fn hex_value(d: Seq<char>) -> int
    decreases d.len(),
{
    if d.len() == 0 {
        0
    } else {
        hex_value(d.drop_last()) * 16 + hex_digit_value(d.last())
    }
}

/// Four hexadecimal digits, as a `\u` escape needs.
pub open spec fn is_hex_text(t: Seq<char>) -> bool {
    t.len() == 4 && forall|k: int| 0 <= k < 4 ==> is_hex_digit(#[trigger] t[k])
}

/// The value of a hexadecimal text.
pub open spec fn hex_text_value(t: Seq<char>) -> int {
    hex_value(t)
}

/// The (up to) four characters from `i` that a `\u` escape reads.
pub open spec fn quad_at(s: Seq<char>, i: int) -> Seq<char> {
    if i + 4 <= s.len() { s.subrange(i, i + 4) } else { s.subrange(i, s.len() as int) }
}

/// A code that is a Unicode scalar value.
pub open spec fn is_scalar(code: int) -> bool {
    0 <= code <= 0x10FFFF && !(0xD800 <= code <= 0xDFFF)
}

/// What reading an escape gives: the character and the position after it.
pub type EscapeOutcome = Result<(char, int), Seq<char>>;

/// Reading the low half of a surrogate pair at `j`, after a high half.
pub open spec fn read_low_surrogate(s: Seq<char>, j: int, high: int) -> EscapeOutcome {
    if !(0 <= j < s.len() && s[j] == '\\') {
        Err(expected_message('\\'))
    } else if !(j + 1 < s.len() && s[j + 1] == 'u') {
        Err(expected_message('u'))
    } else {
        let t = quad_at(s, j + 2);
        if !is_hex_text(t) {
            Err("invalid unicode escape '"@ + t + "'"@)
        } else {
            let low = hex_text_value(t);
            if !(0xDC00 <= low <= 0xDFFF) {
                Err("invalid low surrogate escape sequence"@)
            } else {
                let code = 0x10000 + (high - 0xD800) * 1024 + (low - 0xDC00);
                if is_scalar(code) {
                    Ok((code as char, j + 2 + t.len()))
                } else {
                    Err("invalid surrogate pair"@)
                }
            }
        }
    }
}

/// Reading the four digits of a `\u` escape at `i`.
pub open spec fn read_unicode_spec(s: Seq<char>, i: int) -> EscapeOutcome {
    let t = quad_at(s, i);
    if !is_hex_text(t) {
        Err("invalid unicode escape '"@ + t + "'"@)
    } else {
        let code = hex_text_value(t);
        if 0xD800 <= code <= 0xDBFF {
            read_low_surrogate(s, i + t.len(), code)
        } else if is_scalar(code) {
            Ok((code as char, i + t.len()))
        } else {
            Err("invalid unicode escape sequence"@)
        }
    }
}

/// Reading the escape whose marker (the character after `\`) is at `i`.
pub open spec fn read_escape_spec(s: Seq<char>, i: int) -> EscapeOutcome {
    if !(0 <= i < s.len()) {
        Err("unterminated escape sequence"@)
    } else {
        let m = s[i];
        if m == '"' {
            Ok(('"', i + 1))
        } else if m == '\\' {
            Ok(('\\', i + 1))
        } else if m == '/' {
            Ok(('/', i + 1))
        } else if m == 'b' {
            Ok(('\x08', i + 1))
        } else if m == 'f' {
            Ok(('\x0C', i + 1))
        } else if m == 'n' {
            Ok(('\n', i + 1))
        } else if m == 'r' {
            Ok(('\r', i + 1))
        } else if m == 't' {
            Ok(('\t', i + 1))
        } else if m == 'u' {
            read_unicode_spec(s, i + 1)
        } else {
            Err("invalid escape sequence '\\"@ + seq![m] + "'"@)
        }
    }
}

/// Reading the rest of a string literal from `i`, after `acc` was read.
pub open spec fn read_chars_spec(s: Seq<char>, i: int, acc: Seq<char>) -> Result<(Seq<char>, int), Seq<char>>
    decreases s.len() - i,
{
    if !(0 <= i < s.len()) {
        Err("unterminated JSON string"@)
    } else if s[i] == '"' {
        Ok((acc, i + 1))
    } else if (s[i] as u32) < 0x20 {
        Err("control character in JSON string"@)
    } else if s[i] == '\\' {
        proof {
            lemma_escape_advances(s, i + 1);
        }
        match read_escape_spec(s, i + 1) {
            Err(m) => Err(m),
            Ok((c, j)) => read_chars_spec(s, j, acc.push(c)),
        }
    } else {
        read_chars_spec(s, i + 1, acc.push(s[i]))
    }
}

/// An escape that is read ends after its marker.
pub proof fn lemma_escape_advances(s: Seq<char>, i: int)
    ensures
        0 <= i <= s.len() ==> (read_escape_spec(s, i) matches Ok((_, j)) ==> i < j <= s.len()),
{
}

/// Each two-character escape of a string literal stands for one character,
/// as RFC 8259 lists them: `\"` a quote, `\\` a backslash, `\/` a solidus,
/// `\b` backspace, `\f` form feed, `\n` line feed, `\r` carriage return and
/// `\t` tab. Reading from the backslash gives what reading after the escape
/// gives, with that character added to the text read so far.
pub proof fn lemma_two_character_escapes(s: Seq<char>, i: int, acc: Seq<char>)
    requires
        0 <= i,
        i + 1 < s.len(),
        s[i] == '\\',
    ensures
        s[i + 1] == '"' ==> read_chars_spec(s, i, acc) == read_chars_spec(s, i + 2, acc.push('"')),
        s[i + 1] == '\\' ==> read_chars_spec(s, i, acc) == read_chars_spec(s, i + 2, acc.push('\\')),
        s[i + 1] == '/' ==> read_chars_spec(s, i, acc) == read_chars_spec(s, i + 2, acc.push('/')),
        s[i + 1] == 'b' ==> read_chars_spec(s, i, acc) == read_chars_spec(s, i + 2, acc.push('\x08')),
        s[i + 1] == 'f' ==> read_chars_spec(s, i, acc) == read_chars_spec(s, i + 2, acc.push('\x0C')),
        s[i + 1] == 'n' ==> read_chars_spec(s, i, acc) == read_chars_spec(s, i + 2, acc.push('\n')),
        s[i + 1] == 'r' ==> read_chars_spec(s, i, acc) == read_chars_spec(s, i + 2, acc.push('\r')),
        s[i + 1] == 't' ==> read_chars_spec(s, i, acc) == read_chars_spec(s, i + 2, acc.push('\t')),
{
}

/// A string literal that is read ends after where reading started.
pub proof fn lemma_chars_advance(s: Seq<char>, i: int, acc: Seq<char>)
    ensures
        0 <= i ==> (read_chars_spec(s, i, acc) matches Ok((_, j)) ==> i < j <= s.len()),
    decreases s.len() - i,
{
    if 0 <= i < s.len() && s[i] != '"' {
        if s[i] == '\\' {
            lemma_escape_advances(s, i + 1);
            if let Ok((c, j)) = read_escape_spec(s, i + 1) {
                lemma_chars_advance(s, j, acc.push(c));
            }
        } else {
            lemma_chars_advance(s, i + 1, acc.push(s[i]));
        }
    }
}

// ---------------------------------------------------------------------------
// Values.
// ---------------------------------------------------------------------------

/// The white space that JSON allows between tokens: space, tab, line feed
/// and carriage return.
pub open spec fn is_json_space(c: char) -> bool {
    c == ' ' || c == '\t' || c == '\n' || c == '\r'
}

/// Index of the first character at or after `i` that is not JSON white space.
pub open spec fn skip_json_space(s: Seq<char>, i: int) -> int
    decreases s.len() - i,
{
    if 0 <= i < s.len() && is_json_space(s[i]) {
        skip_json_space(s, i + 1)
    } else {
        i
    }
}

pub proof fn lemma_skip_json_space(s: Seq<char>, i: int)
    requires
        0 <= i <= s.len(),
    ensures
        i <= skip_json_space(s, i) <= s.len(),
    decreases s.len() - i,
{
    if i < s.len() && is_json_space(s[i]) {
        lemma_skip_json_space(s, i + 1);
    }
}

/// The outcome of reading, with `pre` put before the events read.
pub open spec fn after_events(pre: Seq<JsonEventModel>, r: ReadOutcome) -> ReadOutcome {
    match r {
        Ok((ev, j)) => Ok((pre + ev, j)),
        Err(m) => Err(m),
    }
}

/// Reading one value from `i`, after white space.
pub open spec fn read_value_spec(s: Seq<char>, i: int) -> ReadOutcome
    decreases s.len() - i, 2int,
{
    if !(0 <= i <= s.len()) {
        Err("unexpected end of JSON text"@)
    } else {
        let k = skip_json_space(s, i);
        proof {
            lemma_skip_json_space(s, i);
        }
        if k >= s.len() {
            Err("unexpected end of JSON text"@)
        } else if s[k] == '{' {
            read_mapping_spec(s, k + 1)
        } else if s[k] == '[' {
            read_list_spec(s, k + 1)
        } else if s[k] == '"' {
            match read_chars_spec(s, k + 1, Seq::empty()) {
                Ok((t, j)) => Ok((seq![JsonEventModel::Text(t)], j)),
                Err(m) => Err(m),
            }
        } else if s[k] == 't' || s[k] == 'f' || s[k] == 'n' {
            read_keyword_spec(s, k)
        } else {
            read_number_spec(s, k)
        }
    }
}

/// Reading a list from `i`, just after its `[`.
pub open spec fn read_list_spec(s: Seq<char>, i: int) -> ReadOutcome
    decreases s.len() - i, 4int,
{
    if !(0 <= i <= s.len()) {
        Err("unexpected end of JSON text"@)
    } else {
        let k = skip_json_space(s, i);
        proof {
            lemma_skip_json_space(s, i);
        }
        if k < s.len() && s[k] == ']' {
            Ok((seq![JsonEventModel::BeginList, JsonEventModel::EndList], k + 1))
        } else {
            after_events(seq![JsonEventModel::BeginList], read_items_spec(s, k))
        }
    }
}

/// Reading the items of a list from `i` up to its `]`.
pub open spec fn read_items_spec(s: Seq<char>, i: int) -> ReadOutcome
    decreases s.len() - i, 3int,
{
    if !(0 <= i <= s.len()) {
        Err("unexpected end of JSON text"@)
    } else {
        match read_value_spec(s, i) {
            Err(m) => Err(m),
            Ok((ev, j)) => {
                // A value read from `i` ends after `i`; the first branch is never taken.
                if j <= i || j > s.len() {
                    Err("unexpected end of JSON text"@)
                } else {
                    let k = skip_json_space(s, j);
                    proof {
                        lemma_skip_json_space(s, j);
                    }
                    if k < s.len() && s[k] == ',' {
                        after_events(ev, read_items_spec(s, k + 1))
                    } else if k < s.len() && s[k] == ']' {
                        Ok((ev.push(JsonEventModel::EndList), k + 1))
                    } else {
                        Err(expected_message(']'))
                    }
                }
            },
        }
    }
}

/// Reading a mapping from `i`, just after its `{`.
pub open spec fn read_mapping_spec(s: Seq<char>, i: int) -> ReadOutcome
    decreases s.len() - i, 4int,
{
    if !(0 <= i <= s.len()) {
        Err("unexpected end of JSON text"@)
    } else {
        let k = skip_json_space(s, i);
        proof {
            lemma_skip_json_space(s, i);
        }
        if k < s.len() && s[k] == '}' {
            Ok((seq![JsonEventModel::BeginMapping, JsonEventModel::EndMapping], k + 1))
        } else {
            after_events(seq![JsonEventModel::BeginMapping], read_entries_spec(s, k))
        }
    }
}

/// Reading the entries of a mapping from `i` up to its `}`.
pub open spec fn read_entries_spec(s: Seq<char>, i: int) -> ReadOutcome
    decreases s.len() - i, 3int,
{
    if !(0 <= i <= s.len()) {
        Err("unexpected end of JSON text"@)
    } else {
        let k = skip_json_space(s, i);
        proof {
            lemma_skip_json_space(s, i);
        }
        if !(k < s.len() && s[k] == '"') {
            Err(expected_message('"'))
        } else {
            proof {
                lemma_chars_advance(s, k + 1, Seq::empty());
            }
            match read_chars_spec(s, k + 1, Seq::empty()) {
                Err(m) => Err(m),
                Ok((name, a)) => {
                    let b = skip_json_space(s, a);
                    proof {
                        lemma_skip_json_space(s, a);
                    }
                    if !(b < s.len() && s[b] == ':') {
                        Err(expected_message(':'))
                    } else {
                        match read_value_spec(s, b + 1) {
                            Err(m) => Err(m),
                            Ok((ev, j)) => {
                                // A value read from `b + 1` ends after it; the first branch is never taken.
                                if j <= b + 1 || j > s.len() {
                                    Err("unexpected end of JSON text"@)
                                } else {
                                    let c = skip_json_space(s, j);
                                    proof {
                                        lemma_skip_json_space(s, j);
                                    }
                                    let entry = seq![JsonEventModel::Key(name)] + ev;
                                    if c < s.len() && s[c] == ',' {
                                        after_events(entry, read_entries_spec(s, c + 1))
                                    } else if c < s.len() && s[c] == '}' {
                                        Ok((entry.push(JsonEventModel::EndMapping), c + 1))
                                    } else {
                                        Err(expected_message('}'))
                                    }
                                }
                            },
                        }
                    }
                },
            }
        }
    }
}

/// Reading a whole JSON document: one value, then only white space.
pub open spec fn read_document_spec(s: Seq<char>) -> Result<Seq<JsonEventModel>, Seq<char>> {
    match read_value_spec(s, 0) {
        Err(m) => Err(m),
        Ok((ev, j)) => {
            let k = skip_json_space(s, j);
            if 0 <= k < s.len() {
                Err("unexpected trailing character '"@ + seq![s[k]] + "'"@)
            } else {
                Ok(ev)
            }
        },
    }
}

// ---------------------------------------------------------------------------
// Scanning helpers.
// ---------------------------------------------------------------------------

/// The index of the first character at or after `i` that is not JSON white space.
fn skip_space_at(s: &Vec<char>, i: usize) -> (r: usize)
    requires
        i <= s.len(),
    ensures
        r == skip_json_space(s@, i as int),
        i <= r <= s.len(),
{
    let mut k = i;
    while k < s.len() && (s[k] == ' ' || s[k] == '\t' || s[k] == '\n' || s[k] == '\r')
        invariant
            i <= k <= s.len(),
            skip_json_space(s@, i as int) == skip_json_space(s@, k as int),
        decreases s.len() - k,
    {
        k = k + 1;
    }
    k
}

/// The index of the first character at or after `i` that is not a digit.
fn digits_end_at(s: &Vec<char>, i: usize) -> (r: usize)
    requires
        i <= s.len(),
    ensures
        r == digits_end(s@, i as int),
        i <= r <= s.len(),
{
    let mut k = i;
    while k < s.len() && digit_char(s[k])
        invariant
            i <= k <= s.len(),
            digits_end(s@, i as int) == digits_end(s@, k as int),
        decreases s.len() - k,
    {
        k = k + 1;
    }
    k
}

/// The index of the first character at or after `i` that is not a number character.
fn number_end_at(s: &Vec<char>, i: usize) -> (r: usize)
    requires
        i <= s.len(),
    ensures
        r == number_end(s@, i as int),
        i <= r <= s.len(),
{
    let mut k = i;
    while k < s.len() && (digit_char(s[k]) || s[k] == '-' || s[k] == '+' || s[k] == '.' || s[k] == 'e' || s[k] == 'E')
        invariant
            i <= k <= s.len(),
            number_end(s@, i as int) == number_end(s@, k as int),
        decreases s.len() - k,
    {
        k = k + 1;
    }
    k
}

/// Whether the literal holds `.`, `e` or `E`.
fn fraction_marked(t: &Vec<char>) -> (r: bool)
    ensures
        r == has_fraction_mark(t@),
{
    let mut k: usize = 0;
    while k < t.len()
        invariant
            k <= t.len(),
            forall|j: int| 0 <= j < k ==> !(t@[j] == '.' || t@[j] == 'e' || t@[j] == 'E'),
        decreases t.len() - k,
    {
        if t[k] == '.' || t[k] == 'e' || t[k] == 'E' {
            return true;
        }
        k = k + 1;
    }
    false
}

/// Whether the literal is a number as the JSON grammar writes it.
fn json_number_ok(t: &Vec<char>) -> (r: bool)
    ensures
        r == is_json_number_text(t@),
{
    let n = t.len();
    let a: usize = if n > 0 && t[0] == '-' { 1 } else { 0 };
    let b = digits_end_at(t, a);
    if b == a {
        return false;
    }
    if t[a] == '0' && b != a + 1 {
        return false;
    }
    let dot = b < n && t[b] == '.';
    let c = if dot { digits_end_at(t, b + 1) } else { b };
    if dot && c == b + 1 {
        return false;
    }
    if c == n {
        return true;
    }
    if !(t[c] == 'e' || t[c] == 'E') {
        return false;
    }
    let d = if c + 1 < n && (t[c + 1] == '+' || t[c + 1] == '-') { c + 2 } else { c + 1 };
    if d >= n {
        return false;
    }
    digits_end_at(t, d) == n
}

/// A number without `.`, `e` or `E` is an integer literal text.
proof fn lemma_json_integer(t: Seq<char>)
    requires
        is_json_number_text(t),
        !has_fraction_mark(t),
    ensures
        is_int_text(t),
{
    let a = int_part_start(t);
    let b = digits_end(t, a);
    lemma_digits_end_bounds(t, a);
    if b < t.len() {
        assert(t[b] == '.' || t[b] == 'e' || t[b] == 'E');
    }
    let d = if t.len() > 0 && t[0] == '-' { t.drop_first() } else { t };
    assert forall|k: int| 0 <= k < d.len() implies is_digit(#[trigger] d[k]) by {
        assert(d[k] == t[k + a]);
    }
}

/// `16` to the power `n`.
pub open spec fn pow16(n: nat) -> int
    decreases n,
{
    if n == 0 { 1 } else { 16 * pow16((n - 1) as nat) }
}

/// `char::from_u32`: the character whose code is `code`, or `None` when
/// `code` is not a Unicode scalar value.
#[verifier::external_body]
fn char_from_code(code: u32) -> (r: Option<char>)
    ensures
        r is Some <==> is_scalar(code as int),
        r matches Some(c) ==> c == (code as int) as char,
{
    char::from_u32(code)
}

/// The value of a hexadecimal digit.
fn hex_digit_of(c: char) -> (r: u32)
    requires
        is_hex_digit(c),
    ensures
        r == hex_digit_value(c),
{
    if '0' <= c && c <= '9' {
        c as u32 - '0' as u32
    } else if 'a' <= c && c <= 'f' {
        c as u32 - 'a' as u32 + 10
    } else {
        c as u32 - 'A' as u32 + 10
    }
}

/// The characters `s[i..min(i + 4, len)]` and their value as a hexadecimal
/// text, when they are one.
fn quad_value(s: &Vec<char>, i: usize) -> (r: (Vec<char>, Option<u32>))
    requires
        i <= s.len(),
    ensures
        r.0@ == quad_at(s@, i as int),
        r.1 is Some <==> is_hex_text(r.0@),
        r.1 matches Some(v) ==> v == hex_text_value(r.0@) && v < 65536,
{
    let end = if s.len() - i >= 4 { i + 4 } else { s.len() };
    let mut t: Vec<char> = Vec::new();
    let mut k = i;
    while k < end
        invariant
            i <= k <= end <= s.len(),
            t@ == s@.subrange(i as int, k as int),
        decreases end - k,
    {
        t.push(s[k]);
        k = k + 1;
        assert(t@ =~= s@.subrange(i as int, k as int));
    }
    assert(t@ =~= quad_at(s@, i as int));
    if t.len() < 4 {
        return (t, None);
    }
    let mut v: u32 = 0;
    let mut j: usize = 0;
    while j < 4
        invariant
            j <= 4,
            t.len() == 4,
            t@ == quad_at(s@, i as int),
            forall|q: int| 0 <= q < j ==> is_hex_digit(#[trigger] t@[q]),
            v == hex_value(t@.take(j as int)),
            v < pow16(j as nat),
        decreases 4 - j,
    {
        let c = t[j];
        if !(('0' <= c && c <= '9') || ('a' <= c && c <= 'f') || ('A' <= c && c <= 'F')) {
            proof {
                assert(!is_hex_digit(t@[j as int]));
            }
            return (t, None);
        }
        let ghost n = j as int;
        proof {
            assert(t@.take(n + 1).drop_last() =~= t@.take(n));
            assert(t@.take(n + 1).last() == c);
            assert(pow16((n + 1) as nat) == 16 * pow16(n as nat));
            reveal_with_fuel(pow16, 5);
            assert(pow16(n as nat) <= 4096);
            assert(v * 16 + hex_digit_value(c) < 16 * pow16(n as nat)) by (nonlinear_arith)
                requires v < pow16(n as nat), 0 <= hex_digit_value(c) < 16;
        }
        v = v * 16 + hex_digit_of(c);
        j = j + 1;
    }
    proof {
        assert(t@.take(4) =~= t@);
        reveal_with_fuel(pow16, 5);
        assert(pow16(4) == 65536);
    }
    (t, Some(v))
}

/// An error with the message `m`.
fn fail(m: &str) -> (r: JsonTextError)
    ensures
        r.message_view() == m@,
{
    JsonTextError::new(m.to_owned())
}

/// An error naming a required character that is missing.
fn expected(c: char) -> (r: JsonTextError)
    ensures
        r.message_view() == expected_message(c),
{
    let mut m = "expected '".to_owned();
    push_char(&mut m, c);
    append_str(&mut m, "' in JSON text");
    assert(m@ =~= expected_message(c));
    JsonTextError::new(m)
}

/// An error quoting `text` between `before` and `'`.
fn quoting(before: &str, text: &Vec<char>) -> (r: JsonTextError)
    ensures
        r.message_view() == before@ + text@ + "'"@,
{
    let mut m = before.to_owned();
    let quoted = string_of_range(text, 0, text.len());
    append_str(&mut m, quoted.as_str());
    append_str(&mut m, "'");
    assert(text@.subrange(0, text@.len() as int) =~= text@);
    JsonTextError::new(m)
}

/// The outcome of an escape read, as its specification states it.
pub open spec fn escape_matches(spec: EscapeOutcome, r: Result<(char, usize), JsonTextError>) -> bool {
    match r {
        Ok((c, j)) => spec == Ok::<(char, int), Seq<char>>((c, j as int)),
        Err(e) => spec == Err::<(char, int), Seq<char>>(e.message_view()),
    }
}

/// A reading that matches `spec` and appends its events to `before`,
/// giving `after`.
pub open spec fn read_matches(spec: ReadOutcome, r: Result<usize, JsonTextError>, before: Seq<JsonEvent>, after: Seq<JsonEvent>) -> bool {
    match r {
        Ok(j) => (spec matches Ok((ev, k)) && k == j && events_model(after) == events_model(before) + ev),
        Err(e) => spec == Err::<(Seq<JsonEventModel>, int), Seq<char>>(e.message_view()),
    }
}

/// Reads JSON text.
pub struct JsonTextReader {
    chars: Vec<char>,
}

impl JsonTextReader {
    /// The text being read.
    pub closed spec fn text(&self) -> Seq<char> {
        self.chars@
    }

    /// A reader of `text`.
    pub fn new(text: &str) -> (r: Self)
        ensures
            r.text() == text@,
    {
        JsonTextReader { chars: chars_of(text) }
    }

    /// Reads the low half of a surrogate pair at `j`.
    fn read_low_surrogate(&self, j: usize, high: u32) -> (r: Result<(char, usize), JsonTextError>)
        requires
            j <= self.text().len(),
            0xD800 <= high <= 0xDBFF,
        ensures
            escape_matches(read_low_surrogate(self.text(), j as int, high as int), r),
            r matches Ok((_, k)) ==> j < k <= self.text().len(),
    {
        let s = &self.chars;
        if !(j < s.len() && s[j] == '\\') {
            return Err(expected('\\'));
        }
        if !(j + 1 < s.len() && s[j + 1] == 'u') {
            return Err(expected('u'));
        }
        let (t, v) = quad_value(s, j + 2);
        assert(t.len() <= s.len() - (j + 2));
        let low = match v {
            Some(low) => low,
            None => {
                return Err(quoting("invalid unicode escape '", &t));
            },
        };
        if !(0xDC00 <= low && low <= 0xDFFF) {
            return Err(fail("invalid low surrogate escape sequence"));
        }
        let code: u32 = 0x10000 + (high - 0xD800) * 1024 + (low - 0xDC00);
        match char_from_code(code) {
            Some(c) => Ok((c, j + 2 + t.len())),
            None => Err(fail("invalid surrogate pair")),
        }
    }

    /// Reads the digits of a `\u` escape at `i`.
    fn read_unicode(&self, i: usize) -> (r: Result<(char, usize), JsonTextError>)
        requires
            i <= self.text().len(),
        ensures
            escape_matches(read_unicode_spec(self.text(), i as int), r),
            r matches Ok((_, k)) ==> i < k <= self.text().len(),
    {
        let n = self.chars.len();
        let (t, v) = quad_value(&self.chars, i);
        assert(t.len() <= n - i);
        let code = match v {
            Some(code) => code,
            None => {
                return Err(quoting("invalid unicode escape '", &t));
            },
        };
        if 0xD800 <= code && code <= 0xDBFF {
            return self.read_low_surrogate(i + t.len(), code);
        }
        match char_from_code(code) {
            Some(c) => Ok((c, i + t.len())),
            None => Err(fail("invalid unicode escape sequence")),
        }
    }

    /// Reads an escape whose marker is at `i`.
    fn read_escape(&self, i: usize) -> (r: Result<(char, usize), JsonTextError>)
        requires
            i <= self.text().len(),
        ensures
            escape_matches(read_escape_spec(self.text(), i as int), r),
            r matches Ok((_, k)) ==> i < k <= self.text().len(),
    {
        let s = &self.chars;
        if i >= s.len() {
            return Err(fail("unterminated escape sequence"));
        }
        let m = s[i];
        if m == '"' {
            Ok(('"', i + 1))
        } else if m == '\\' {
            Ok(('\\', i + 1))
        } else if m == '/' {
            Ok(('/', i + 1))
        } else if m == 'b' {
            Ok(('\x08', i + 1))
        } else if m == 'f' {
            Ok(('\x0C', i + 1))
        } else if m == 'n' {
            Ok(('\n', i + 1))
        } else if m == 'r' {
            Ok(('\r', i + 1))
        } else if m == 't' {
            Ok(('\t', i + 1))
        } else if m == 'u' {
            self.read_unicode(i + 1)
        } else {
            let mut msg = "invalid escape sequence '\\".to_owned();
            push_char(&mut msg, m);
            append_str(&mut msg, "'");
            proof {
                assert(msg@ =~= "invalid escape sequence '\\"@ + seq![m] + "'"@);
            }
            Err(JsonTextError::new(msg))
        }
    }

    /// Reads the rest of a string literal from `i`, just after its `"`.
    fn read_chars(&self, i: usize) -> (r: Result<(String, usize), JsonTextError>)
        requires
            i <= self.text().len(),
        ensures
            match r {
                Ok((t, j)) => read_chars_spec(self.text(), i as int, Seq::empty()) == Ok::<(Seq<char>, int), Seq<char>>((t@, j as int)),
                Err(e) => read_chars_spec(self.text(), i as int, Seq::empty()) == Err::<(Seq<char>, int), Seq<char>>(e.message_view()),
            },
            r matches Ok((_, j)) ==> i < j <= self.text().len(),
    {
        let s = &self.chars;
        let ghost st = self.text();
        let mut acc = String::new();
        let mut k = i;
        while k < s.len() && s[k] != '"'
            invariant
                s@ == st,
                st == self.text(),
                i <= k <= s.len(),
                read_chars_spec(st, i as int, Seq::empty()) == read_chars_spec(st, k as int, acc@),
            decreases s.len() - k,
        {
            if (s[k] as u32) < 0x20 {
                return Err(fail("control character in JSON string"));
            }
            if s[k] == '\\' {
                match self.read_escape(k + 1) {
                    Ok((c, j)) => {
                        push_char(&mut acc, c);
                        k = j;
                    },
                    Err(e) => {
                        return Err(e);
                    },
                }
            } else {
                push_char(&mut acc, s[k]);
                k = k + 1;
            }
        }
        if k >= s.len() {
            return Err(fail("unterminated JSON string"));
        }
        Ok((acc, k + 1))
    }

    /// Reads the number literal at `k`.
    fn read_number(&self, k: usize, out: &mut Vec<JsonEvent>) -> (r: Result<usize, JsonTextError>)
        requires
            k <= self.text().len(),
        ensures
            read_matches(read_number_spec(self.text(), k as int), r, old(out)@, final(out)@),
            r matches Ok(j) ==> k < j <= self.text().len(),
    {
        let s = &self.chars;
        let e = number_end_at(s, k);
        let mut lit: Vec<char> = Vec::new();
        let mut q = k;
        while q < e
            invariant
                k <= q <= e <= s.len(),
                lit@ == s@.subrange(k as int, q as int),
            decreases e - q,
        {
            lit.push(s[q]);
            q = q + 1;
            assert(lit@ =~= s@.subrange(k as int, q as int));
        }
        if lit.len() == 0 {
            return Err(fail("unexpected character in JSON text"));
        }
        if !json_number_ok(&lit) {
            return Err(quoting("invalid number '", &lit));
        }
        let ghost before = out@;
        if fraction_marked(&lit) {
            out.push(JsonEvent::Decimal(string_of_range(&lit, 0, lit.len())));
            proof {
                assert(lit@.subrange(0, lit@.len() as int) =~= lit@);
                assert(events_model(out@) =~= events_model(before) + seq![JsonEventModel::Dec(lit@)]);
            }
            Ok(e)
        } else {
            proof {
                lemma_json_integer(lit@);
            }
            if int_text_fits(&lit) {
                let v = parse_int_text(&lit);
                out.push(JsonEvent::Integer(v));
                proof {
                    assert(events_model(out@) =~= events_model(before) + seq![JsonEventModel::Int(v as int)]);
                }
                Ok(e)
            } else {
                Err(quoting("invalid number '", &lit))
            }
        }
    }

    /// Reads the keyword at `k`.
    fn read_keyword(&self, k: usize, out: &mut Vec<JsonEvent>) -> (r: Result<usize, JsonTextError>)
        requires
            k <= self.text().len(),
        ensures
            read_matches(read_keyword_spec(self.text(), k as int), r, old(out)@, final(out)@),
            r matches Ok(j) ==> k < j <= self.text().len(),
    {
        let ghost before = out@;
        let yes = chars_of("true");
        let no = chars_of("false");
        let nothing = chars_of("null");
        let event = if matches_at(&self.chars, &yes, k) {
            JsonEvent::Boolean(true)
        } else if matches_at(&self.chars, &no, k) {
            JsonEvent::Boolean(false)
        } else if matches_at(&self.chars, &nothing, k) {
            JsonEvent::Null
        } else {
            return Err(fail("invalid JSON literal"));
        };
        proof {
            reveal_strlit("true");
            reveal_strlit("false");
            reveal_strlit("null");
        }
        let width: usize = match event {
            JsonEvent::Boolean(false) => 5,
            _ => 4,
        };
        let n = self.chars.len();
        assert(k + width <= n);
        out.push(event);
        proof {
            assert(events_model(out@) =~= events_model(before) + seq![event@]);
        }
        Ok(k + width)
    }

    /// Reads one value from `i`, after white space.
    fn read_value(&self, i: usize, out: &mut Vec<JsonEvent>) -> (r: Result<usize, JsonTextError>)
        requires
            i <= self.text().len(),
        ensures
            read_matches(read_value_spec(self.text(), i as int), r, old(out)@, final(out)@),
            r matches Ok(j) ==> i < j <= self.text().len(),
        decreases self.text().len() - i, 2nat,
    {
        let s = &self.chars;
        let k = skip_space_at(s, i);
        if k >= s.len() {
            return Err(fail("unexpected end of JSON text"));
        }
        let c = s[k];
        if c == '{' {
            self.read_mapping(k + 1, out)
        } else if c == '[' {
            self.read_list(k + 1, out)
        } else if c == '"' {
            match self.read_chars(k + 1) {
                Ok((t, j)) => {
                    let ghost before = out@;
                    let ghost tv = t@;
                    out.push(JsonEvent::Text(t));
                    proof {
                        assert(events_model(out@) =~= events_model(before) + seq![JsonEventModel::Text(tv)]);
                    }
                    Ok(j)
                },
                Err(e) => Err(e),
            }
        } else if c == 't' || c == 'f' || c == 'n' {
            self.read_keyword(k, out)
        } else {
            self.read_number(k, out)
        }
    }

    /// Reads a list from `i`, just after its `[`.
    fn read_list(&self, i: usize, out: &mut Vec<JsonEvent>) -> (r: Result<usize, JsonTextError>)
        requires
            i <= self.text().len(),
        ensures
            read_matches(read_list_spec(self.text(), i as int), r, old(out)@, final(out)@),
            r matches Ok(j) ==> i < j <= self.text().len(),
        decreases self.text().len() - i, 4nat,
    {
        let s = &self.chars;
        let k = skip_space_at(s, i);
        let ghost before = out@;
        out.push(JsonEvent::BeginList);
        let ghost mid = out@;
        if k < s.len() && s[k] == ']' {
            out.push(JsonEvent::EndList);
            proof {
                assert(events_model(out@) =~= events_model(before) + seq![JsonEventModel::BeginList, JsonEventModel::EndList]);
            }
            return Ok(k + 1);
        }
        let r = self.read_items(k, out);
        proof {
            assert(events_model(mid) =~= events_model(before) + seq![JsonEventModel::BeginList]);
            if let Ok(j) = r {
                let ev = read_items_spec(self.text(), k as int)->Ok_0.0;
                assert(events_model(out@) =~= events_model(before) + (seq![JsonEventModel::BeginList] + ev));
            }
        }
        r
    }

    /// Reads the items of a list from `i` up to its `]`.
    fn read_items(&self, i: usize, out: &mut Vec<JsonEvent>) -> (r: Result<usize, JsonTextError>)
        requires
            i <= self.text().len(),
        ensures
            read_matches(read_items_spec(self.text(), i as int), r, old(out)@, final(out)@),
            r matches Ok(j) ==> i < j <= self.text().len(),
        decreases self.text().len() - i, 3nat,
    {
        let s = &self.chars;
        let ghost before = out@;
        let j = match self.read_value(i, out) {
            Ok(j) => j,
            Err(e) => {
                return Err(e);
            },
        };
        let ghost mid = out@;
        let ghost ev = read_value_spec(self.text(), i as int)->Ok_0.0;
        let k = skip_space_at(s, j);
        if k < s.len() && s[k] == ',' {
            let r = self.read_items(k + 1, out);
            proof {
                if let Ok(e) = r {
                    let rest = read_items_spec(self.text(), k + 1)->Ok_0.0;
                    assert(events_model(out@) =~= events_model(before) + (ev + rest));
                }
            }
            r
        } else if k < s.len() && s[k] == ']' {
            out.push(JsonEvent::EndList);
            proof {
                assert(events_model(mid) == events_model(before) + ev);
                assert(events_model(out@) =~= events_model(mid).push(JsonEventModel::EndList));
                assert(events_model(out@) =~= events_model(before) + ev.push(JsonEventModel::EndList));
            }
            Ok(k + 1)
        } else {
            Err(expected(']'))
        }
    }

    /// Reads a mapping from `i`, just after its `{`.
    fn read_mapping(&self, i: usize, out: &mut Vec<JsonEvent>) -> (r: Result<usize, JsonTextError>)
        requires
            i <= self.text().len(),
        ensures
            read_matches(read_mapping_spec(self.text(), i as int), r, old(out)@, final(out)@),
            r matches Ok(j) ==> i < j <= self.text().len(),
        decreases self.text().len() - i, 4nat,
    {
        let s = &self.chars;
        let k = skip_space_at(s, i);
        let ghost before = out@;
        out.push(JsonEvent::BeginMapping);
        let ghost mid = out@;
        if k < s.len() && s[k] == '}' {
            out.push(JsonEvent::EndMapping);
            proof {
                assert(events_model(out@) =~= events_model(before) + seq![JsonEventModel::BeginMapping, JsonEventModel::EndMapping]);
            }
            return Ok(k + 1);
        }
        let r = self.read_entries(k, out);
        proof {
            assert(events_model(mid) =~= events_model(before) + seq![JsonEventModel::BeginMapping]);
            if let Ok(j) = r {
                let ev = read_entries_spec(self.text(), k as int)->Ok_0.0;
                assert(events_model(out@) =~= events_model(before) + (seq![JsonEventModel::BeginMapping] + ev));
            }
        }
        r
    }

    /// Reads the entries of a mapping from `i` up to its `}`.
    #[verifier::rlimit(60)]
    fn read_entries(&self, i: usize, out: &mut Vec<JsonEvent>) -> (r: Result<usize, JsonTextError>)
        requires
            i <= self.text().len(),
        ensures
            read_matches(read_entries_spec(self.text(), i as int), r, old(out)@, final(out)@),
            r matches Ok(j) ==> i < j <= self.text().len(),
        decreases self.text().len() - i, 3nat,
    {
        let s = &self.chars;
        let k = skip_space_at(s, i);
        if !(k < s.len() && s[k] == '"') {
            return Err(expected('"'));
        }
        let (name, a) = match self.read_chars(k + 1) {
            Ok(p) => p,
            Err(e) => {
                return Err(e);
            },
        };
        let b = skip_space_at(s, a);
        if !(b < s.len() && s[b] == ':') {
            return Err(expected(':'));
        }
        let ghost before = out@;
        let ghost nv = name@;
        out.push(JsonEvent::Key(name));
        let ghost keyed = out@;
        let j = match self.read_value(b + 1, out) {
            Ok(j) => j,
            Err(e) => {
                return Err(e);
            },
        };
        let ghost ev = read_value_spec(self.text(), b + 1)->Ok_0.0;
        let ghost entry = seq![JsonEventModel::Key(nv)] + ev;
        proof {
            assert(events_model(keyed) =~= events_model(before) + seq![JsonEventModel::Key(nv)]);
            assert(events_model(out@) =~= events_model(before) + entry);
        }
        let c = skip_space_at(s, j);
        if c < s.len() && s[c] == ',' {
            let ghost mid = out@;
            let r = self.read_entries(c + 1, out);
            proof {
                if let Ok(e) = r {
                    let rest = read_entries_spec(self.text(), c + 1)->Ok_0.0;
                    assert(events_model(out@) =~= events_model(before) + (entry + rest));
                }
            }
            r
        } else if c < s.len() && s[c] == '}' {
            let ghost full = out@;
            out.push(JsonEvent::EndMapping);
            proof {
                assert(events_model(out@) =~= events_model(full).push(JsonEventModel::EndMapping));
                assert(events_model(out@) =~= events_model(before) + entry.push(JsonEventModel::EndMapping));
            }
            Ok(c + 1)
        } else {
            Err(expected('}'))
        }
    }

    /// Reads the whole text as one JSON document: one value, then only
    /// white space. The events come in document order.
    pub fn read_document(&self) -> (r: Result<Vec<JsonEvent>, JsonTextError>)
        ensures
            match r {
                Ok(ev) => read_document_spec(self.text()) == Ok::<Seq<JsonEventModel>, Seq<char>>(events_model(ev@)),
                Err(e) => read_document_spec(self.text()) == Err::<Seq<JsonEventModel>, Seq<char>>(e.message_view()),
            },
    {
        let mut out: Vec<JsonEvent> = Vec::new();
        let j = match self.read_value(0, &mut out) {
            Ok(j) => j,
            Err(e) => {
                return Err(e);
            },
        };
        proof {
            assert(events_model(Seq::<JsonEvent>::empty()) =~= Seq::<JsonEventModel>::empty());
            let ev = read_value_spec(self.text(), 0)->Ok_0.0;
            assert(events_model(out@) =~= ev);
        }
        let k = skip_space_at(&self.chars, j);
        if k < self.chars.len() {
            let mut m = "unexpected trailing character '".to_owned();
            push_char(&mut m, self.chars[k]);
            append_str(&mut m, "'");
            proof {
                assert(m@ =~= "unexpected trailing character '"@ + seq![self.chars@[k as int]] + "'"@);
            }
            return Err(JsonTextError::new(m));
        }
        Ok(out)
    }
}

} // verus!
