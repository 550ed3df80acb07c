//! Writing text as a JSON string literal.
use vstd::prelude::*;

use crate::text::{chars_of, push_char};
use crate::value_objects::json_text_reader::{
    hex_digit_value, hex_value, is_hex_digit, is_hex_text, quad_at, read_chars_spec,
    read_document_spec, read_unicode_spec, skip_json_space, JsonEventModel,
};

verus! {

/// The lowercase hexadecimal digit of `d`, for `d < 16`.
pub open spec fn hex_char(d: int) -> char {
    if d < 10 { ((d + '0' as int) as u32) as char } else { ((d - 10 + 'a' as int) as u32) as char }
}

/// How one character is written inside a JSON string literal: quotes,
/// backslashes and the common control characters as two-character
/// escapes, other control characters as `\u00` and two lowercase
/// hexadecimal digits, everything else as itself.
pub open spec fn escaped_char(c: char) -> Seq<char> {
    if c == '"' {
        seq!['\\', '"']
    } else if c == '\\' {
        seq!['\\', '\\']
    } else if c == '\n' {
        seq!['\\', 'n']
    } else if c == '\r' {
        seq!['\\', 'r']
    } else if c == '\t' {
        seq!['\\', 't']
    } else if c == '\x08' {
        seq!['\\', 'b']
    } else if c == '\x0C' {
        seq!['\\', 'f']
    } else if (c as u32) < 0x20 {
        seq!['\\', 'u', '0', '0', hex_char((c as u32) as int / 16), hex_char((c as u32) as int % 16)]
    } else {
        seq![c]
    }
}

/// The characters of `s`, each written as [`escaped_char`] writes it.
pub open spec fn escaped_text(s: Seq<char>) -> Seq<char>
    decreases s.len(),
{
    if s.len() == 0 {
        Seq::empty()
    } else {
        escaped_text(s.drop_last()) + escaped_char(s.last())
    }
}

/// `s` as a JSON string literal.
pub open spec fn json_string(s: Seq<char>) -> Seq<char> {
    seq!['"'] + escaped_text(s) + seq!['"']
}

/// The lowercase hexadecimal digit of `d`.
fn hex_char_of(d: u32) -> (r: char)
    requires
        d < 16,
    ensures
        r == hex_char(d as int),
{
    if d < 10 {
        let c = char_of_code(d + '0' as u32);
        c
    } else {
        char_of_code(d - 10 + 'a' as u32)
    }
}

/// The character with an ASCII code.
fn char_of_code(code: u32) -> (r: char)
    requires
        code < 128,
    ensures
        r == code as char,
{
    let b = code as u8;
    b as char
}

/// Writes `text` as a JSON string literal.
pub fn json_string_literal(text: &str) -> (r: String)
    ensures
        r@ == json_string(text@),
{
    let cs = chars_of(text);
    let mut out = String::new();
    push_char(&mut out, '"');
    let mut i: usize = 0;
    while i < cs.len()
        invariant
            i <= cs.len(),
            cs@ == text@,
            out@ == seq!['"'] + escaped_text(cs@.take(i as int)),
        decreases cs.len() - i,
    {
        let c = cs[i];
        let ghost before = out@;
        if c == '"' {
            push_char(&mut out, '\\');
            push_char(&mut out, '"');
        } else if c == '\\' {
            push_char(&mut out, '\\');
            push_char(&mut out, '\\');
        } else if c == '\n' {
            push_char(&mut out, '\\');
            push_char(&mut out, 'n');
        } else if c == '\r' {
            push_char(&mut out, '\\');
            push_char(&mut out, 'r');
        } else if c == '\t' {
            push_char(&mut out, '\\');
            push_char(&mut out, 't');
        } else if c == '\x08' {
            push_char(&mut out, '\\');
            push_char(&mut out, 'b');
        } else if c == '\x0C' {
            push_char(&mut out, '\\');
            push_char(&mut out, 'f');
        } else if (c as u32) < 0x20 {
            let code = c as u32;
            push_char(&mut out, '\\');
            push_char(&mut out, 'u');
            push_char(&mut out, '0');
            push_char(&mut out, '0');
            let high = hex_char_of(code / 16);
            let low = hex_char_of(code % 16);
            push_char(&mut out, high);
            push_char(&mut out, low);
            proof {
                assert(code / 16 == (c as u32) as int / 16);
                assert(code % 16 == (c as u32) as int % 16);
                assert(out@ =~= before + seq!['\\', 'u', '0', '0', high, low]);
            }
        } else {
            push_char(&mut out, c);
        }
        proof {
            assert(cs@.take(i + 1).drop_last() =~= cs@.take(i as int));
            assert(cs@.take(i + 1).last() == c);
            assert(out@ =~= before + escaped_char(c));
            assert(out@ =~= seq!['"'] + escaped_text(cs@.take(i + 1)));
        }
        i = i + 1;
    }
    push_char(&mut out, '"');
    proof {
        assert(cs@.take(cs@.len() as int) =~= cs@);
    }
    out
}

proof fn lemma_escaped_prefix(t: Seq<char>, k: int)
    requires
        0 <= k < t.len(),
    ensures
        escaped_text(t.take(k + 1)) == escaped_text(t.take(k)) + escaped_char(t[k]),
{
    assert(t.take(k + 1).drop_last() =~= t.take(k));
}

proof fn lemma_escaped_split(t: Seq<char>, k: int)
    requires
        0 <= k <= t.len(),
    ensures
        escaped_text(t) == escaped_text(t.take(k)) + escaped_text(t.skip(k)),
    decreases t.len() - k,
{
    if k == t.len() {
        assert(t.take(k) =~= t);
        assert(t.skip(k) =~= Seq::<char>::empty());
        assert(escaped_text(t) + Seq::<char>::empty() =~= escaped_text(t));
    } else {
        lemma_escaped_split(t, k + 1);
        lemma_escaped_prefix(t, k);
        let rest = t.skip(k);
        assert(rest.len() > 0);
        lemma_escaped_first(rest);
        assert(rest.skip(1) =~= t.skip(k + 1));
        assert(rest[0] == t[k]);
        assert(escaped_text(t.take(k)) + escaped_char(t[k]) + escaped_text(t.skip(k + 1))
            =~= escaped_text(t.take(k)) + (escaped_char(t[k]) + escaped_text(t.skip(k + 1))));
    }
}

proof fn lemma_escaped_first(t: Seq<char>)
    requires
        t.len() > 0,
    ensures
        escaped_text(t) == escaped_char(t[0]) + escaped_text(t.skip(1)),
    decreases t.len(),
{
    if t.len() == 1 {
        assert(t.drop_last() =~= Seq::<char>::empty());
        assert(t.skip(1) =~= Seq::<char>::empty());
        assert(escaped_text(Seq::<char>::empty()) == Seq::<char>::empty());
        assert(escaped_char(t[0]) + Seq::<char>::empty() =~= escaped_char(t[0]));
        assert(Seq::<char>::empty() + escaped_char(t[0]) =~= escaped_char(t[0]));
    } else {
        lemma_escaped_first(t.drop_last());
        assert(t.drop_last().skip(1) =~= t.skip(1).drop_last());
        assert(t.skip(1).last() == t.last());
        assert(t.drop_last()[0] == t[0]);
        assert(escaped_char(t[0]) + escaped_text(t.drop_last().skip(1)) + escaped_char(t.last())
            =~= escaped_char(t[0]) + (escaped_text(t.drop_last().skip(1)) + escaped_char(t.last())));
    }
}

/// The hexadecimal digit written for `d` reads back as `d`.
proof fn lemma_hex_char(d: int)
    requires
        0 <= d < 16,
    ensures
        is_hex_digit(hex_char(d)),
        hex_digit_value(hex_char(d)) == d,
{
}

/// One written character reads back: reading from the start of its
/// escape gives what reading after it gives, with the character added.
proof fn lemma_char_read_back(w: Seq<char>, p: int, c: char, acc: Seq<char>)
    requires
        0 <= p,
        p + escaped_char(c).len() < w.len(),
        w.subrange(p, p + escaped_char(c).len()) == escaped_char(c),
    ensures
        read_chars_spec(w, p, acc) == read_chars_spec(w, p + escaped_char(c).len(), acc.push(c)),
{
    let e = escaped_char(c);
    assert(w[p] == e[0]);
    if e.len() == 2 {
        assert(w[p + 1] == e[1]);
    }
    if (c as u32) < 0x20 && c != '\n' && c != '\r' && c != '\t' && c != '\x08' && c != '\x0C' {
        let n = (c as u32) as int;
        lemma_hex_char(n / 16);
        lemma_hex_char(n % 16);
        assert(w[p + 1] == e[1]);
        let q = quad_at(w, p + 2);
        assert(q =~= e.subrange(2, 6));
        assert(q[0] == '0');
        assert(forall|k: int| 0 <= k < 4 ==> is_hex_digit(#[trigger] q[k]));
        assert(is_hex_text(q));
        assert(q.drop_last().drop_last().drop_last().drop_last() =~= Seq::<char>::empty());
        assert(q.drop_last().drop_last().drop_last().last() == '0');
        assert(q.drop_last().drop_last().last() == '0');
        assert(q.drop_last().last() == hex_char(n / 16));
        assert(q.last() == hex_char(n % 16));
        reveal_with_fuel(hex_value, 5);
        assert(hex_digit_value('0') == 0);
        assert(hex_value(q.drop_last().drop_last().drop_last()) == 0);
        assert(hex_value(q.drop_last().drop_last()) == 0);
        assert(hex_value(q.drop_last()) == n / 16);
        assert(hex_value(q) == n);
        assert(read_unicode_spec(w, p + 2) == Ok::<(char, int), Seq<char>>(((n as char), p + 6)));
        assert((n as char) == c);
    }
}

/// A text written as a JSON string literal reads back as the same text,
/// and reading stops just after the closing quote.
pub proof fn lemma_string_read_back(t: Seq<char>)
    ensures
        read_chars_spec(json_string(t), 1, Seq::empty()) == Ok::<(Seq<char>, int), Seq<char>>((t, json_string(t).len() as int)),
{
    let w = json_string(t);
    let n = t.len() as int;
    assert forall|k: int| 0 <= k <= n implies #[trigger] read_chars_spec(w, 1, Seq::empty())
        == read_chars_spec(w, 1 + escaped_text(t.take(k)).len() as int, t.take(k)) by {
        lemma_read_back_upto(t, k);
    }
    assert(t.take(n) =~= t);
    assert(w[1 + escaped_text(t).len() as int] == '"');
}

proof fn lemma_read_back_upto(t: Seq<char>, k: int)
    requires
        0 <= k <= t.len(),
    ensures
        read_chars_spec(json_string(t), 1, Seq::empty())
            == read_chars_spec(json_string(t), 1 + escaped_text(t.take(k)).len() as int, t.take(k)),
    decreases k,
{
    let w = json_string(t);
    if k == 0 {
        assert(t.take(0) =~= Seq::<char>::empty());
    } else {
        lemma_read_back_upto(t, k - 1);
        lemma_escaped_prefix(t, k - 1);
        lemma_escaped_split(t, k);
        let p: int = 1 + escaped_text(t.take(k - 1)).len() as int;
        let e = escaped_char(t[k - 1]);
        assert(w.subrange(p, p + e.len() as int) =~= e);
        assert(t.take(k - 1).push(t[k - 1]) =~= t.take(k));
        lemma_char_read_back(w, p, t[k - 1], t.take(k - 1));
    }
}

/// The four lowercase hexadecimal digits of `n`, most significant first.
pub open spec fn hex4(n: int) -> Seq<char> {
    seq![hex_char(n / 4096), hex_char(n / 256 % 16), hex_char(n / 16 % 16), hex_char(n % 16)]
}

/// A `\u` escape stands for the character whose code its four hexadecimal
/// digits spell: for every character of the Basic Multilingual Plane
/// outside the surrogate range, reading `\u` and its code's four digits
/// from the backslash gives what reading after the escape gives, with that
/// character added to the text read so far.
pub proof fn lemma_unicode_escape_reads_its_code(s: Seq<char>, i: int, acc: Seq<char>, c: char)
    requires
        0 <= i,
        i + 6 <= s.len(),
        (c as u32) < 0x10000,
        !(0xD800 <= (c as u32) <= 0xDFFF),
        s.subrange(i, i + 6) == seq!['\\', 'u'] + hex4(c as u32 as int),
    ensures
        read_chars_spec(s, i, acc) == read_chars_spec(s, i + 6, acc.push(c)),
{
    let n = c as u32;
    let a = n / 4096;
    let b = n / 256 % 16;
    let d = n / 16 % 16;
    let e = n % 16;
    assert(((a * 16 + b) * 16 + d) * 16 + e == n && a < 16) by (bit_vector)
        requires
            n < 0x10000,
            a == n / 4096,
            b == n / 256 % 16,
            d == n / 16 % 16,
            e == n % 16;
    lemma_hex_char(a as int);
    lemma_hex_char(b as int);
    lemma_hex_char(d as int);
    lemma_hex_char(e as int);
    let w = seq!['\\', 'u'] + hex4(n as int);
    assert(s[i] == s.subrange(i, i + 6)[0]);
    assert(s[i + 1] == s.subrange(i, i + 6)[1]);
    let q = quad_at(s, i + 2);
    assert(q.len() == 4);
    assert forall|k: int| 0 <= k < 4 implies q[k] == hex4(n as int)[k] by {
        assert(q[k] == s[i + 2 + k]);
        assert(s[i + 2 + k] == s.subrange(i, i + 6)[k + 2]);
        assert(w[k + 2] == hex4(n as int)[k]);
    }
    assert(q =~= hex4(n as int));
    assert(forall|k: int| 0 <= k < 4 ==> is_hex_digit(#[trigger] q[k]));
    assert(is_hex_text(q));
    assert(q.drop_last().drop_last().drop_last().drop_last() =~= Seq::<char>::empty());
    reveal_with_fuel(hex_value, 5);
    assert(hex_value(q.drop_last().drop_last().drop_last()) == a);
    assert(hex_value(q.drop_last().drop_last()) == a * 16 + b);
    assert(hex_value(q.drop_last()) == (a * 16 + b) * 16 + d);
    assert(hex_value(q) == n);
    assert(read_unicode_spec(s, i + 2) == Ok::<(char, int), Seq<char>>(((n as int) as char, i + 6)));
    assert(((n as int) as char) == c);
}

/// A text written as a JSON string literal is, read as a JSON document,
/// that one text.
pub proof fn lemma_string_document_read_back(t: Seq<char>)
    ensures
        read_document_spec(json_string(t)) == Ok::<Seq<JsonEventModel>, Seq<char>>(seq![JsonEventModel::Text(t)]),
{
    let w = json_string(t);
    lemma_string_read_back(t);
    assert(w[0] == '"');
    assert(skip_json_space(w, 0) == 0);
    assert(skip_json_space(w, w.len() as int) == w.len());
}

} // verus!
