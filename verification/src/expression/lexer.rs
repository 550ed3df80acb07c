use vstd::prelude::*;

use crate::errors::LexerError;
use crate::expression::token::{FloatLiteral, Token, TokenModel};
use crate::text::{
    alnum_char, alpha_char, char_width, chars_of, digit_char, is_alnum, is_alpha, is_ascii_space,
    is_digit, lemma_utf8_len_prefix, utf8_width, lemma_utf8_len_step, owned, push_char, same_text, space_char,
    utf8_len, lemma_encode_utf8_len,
};

verus! {

// ---------------------------------------------------------------------------
// What the next token of a text is.
// ---------------------------------------------------------------------------

/// Byte offset of the character at index `i`.
pub open spec fn byte_offset(s: Seq<char>, i: int) -> nat {
    utf8_len(s.take(i))
}

/// The byte offsets of every character of `s` fit in a `usize`.
pub open spec fn fits_offsets(s: Seq<char>) -> bool {
    utf8_len(s) <= usize::MAX
}

/// First index at or after `i` that does not hold ASCII whitespace.
pub open spec fn skip_space(s: Seq<char>, i: int) -> int
    decreases s.len() - i,
{
    if 0 <= i < s.len() && is_ascii_space(s[i]) {
        skip_space(s, i + 1)
    } else {
        i
    }
}

/// First index at or after `i` that does not hold an ASCII digit.
pub open spec fn digits_end(s: Seq<char>, i: int) -> int
    decreases s.len() - i,
{
    if 0 <= i < s.len() && is_digit(s[i]) {
        digits_end(s, i + 1)
    } else {
        i
    }
}

/// Characters allowed after the first one of an identifier.
pub open spec fn is_ident_char(c: char) -> bool {
    is_alnum(c) || c == '_' || c == '-'
}

/// Characters allowed as the first one of an identifier.
pub open spec fn is_ident_first(c: char) -> bool {
    is_alpha(c) || c == '_'
}

/// First index at or after `i` that does not hold an identifier character.
pub open spec fn ident_end(s: Seq<char>, i: int) -> int
    decreases s.len() - i,
{
    if 0 <= i < s.len() && is_ident_char(s[i]) {
        ident_end(s, i + 1)
    } else {
        i
    }
}

/// The value of a sequence of decimal digits.
pub open spec fn digits_value(d: Seq<char>) -> int
    decreases d.len(),
{
    if d.len() == 0 {
        0
    } else {
        digits_value(d.drop_last()) * 10 + (d.last() as int - '0' as int)
    }
}

/// The value of an integer literal text: an optional `-` and decimal digits.
pub open spec fn int_text_value(t: Seq<char>) -> int {
    if t.len() > 0 && t[0] == '-' {
        -digits_value(t.drop_first())
    } else {
        digits_value(t)
    }
}

/// Scans the body of a string literal starting at index `j` (just after the
/// opening quote): the decoded contents and the index after the closing
/// quote, or `None` when the text ends first.
pub open spec fn scan_string(s: Seq<char>, j: int) -> Option<(Seq<char>, int)>
    decreases s.len() - j,
{
    if j < 0 || j >= s.len() {
        None
    } else if s[j] == '\'' {
        if j + 1 < s.len() && s[j + 1] == '\'' {
            match scan_string(s, j + 2) {
                Some((v, k)) => Some((seq!['\''] + v, k)),
                None => None,
            }
        } else {
            Some((Seq::empty(), j + 1))
        }
    } else {
        match scan_string(s, j + 1) {
            Some((v, k)) => Some((seq![s[j]] + v, k)),
            None => None,
        }
    }
}

/// The token a single-character operator stands for.
pub open spec fn single_char_token(c: char) -> Option<TokenModel> {
    if c == '.' {
        Some(TokenModel::Dot)
    } else if c == '[' {
        Some(TokenModel::LBracket)
    } else if c == ']' {
        Some(TokenModel::RBracket)
    } else if c == '(' {
        Some(TokenModel::LParen)
    } else if c == ')' {
        Some(TokenModel::RParen)
    } else if c == '*' {
        Some(TokenModel::Star)
    } else if c == ',' {
        Some(TokenModel::Comma)
    } else {
        None
    }
}

/// The outcome of lexing one token: the token or the error, and the index
/// the lexer has reached.
pub type LexStep = (Result<TokenModel, LexerError>, int);

/// Does index `i + 1` hold `c`?
pub open spec fn next_is(s: Seq<char>, i: int, c: char) -> bool {
    i + 1 < s.len() && s[i + 1] == c
}

/// Operators of one or two characters starting with `!`, `=`, `<`, `>`, `&` or `|`.
pub open spec fn spec_compound(s: Seq<char>, i: int) -> Option<LexStep> {
    let c = s[i];
    let at = byte_offset(s, i) as usize;
    if c == '!' {
        Some(if next_is(s, i, '=') { (Ok(TokenModel::Neq), i + 2) } else { (Ok(TokenModel::Not), i + 1) })
    } else if c == '=' {
        Some(if next_is(s, i, '=') { (Ok(TokenModel::Eq), i + 2) } else { (Err(LexerError::UnexpectedChar('=', at)), i + 1) })
    } else if c == '<' {
        Some(if next_is(s, i, '=') { (Ok(TokenModel::Lte), i + 2) } else { (Ok(TokenModel::Lt), i + 1) })
    } else if c == '>' {
        Some(if next_is(s, i, '=') { (Ok(TokenModel::Gte), i + 2) } else { (Ok(TokenModel::Gt), i + 1) })
    } else if c == '&' {
        Some(if next_is(s, i, '&') { (Ok(TokenModel::And), i + 2) } else { (Err(LexerError::UnexpectedChar('&', at)), i + 1) })
    } else if c == '|' {
        Some(if next_is(s, i, '|') { (Ok(TokenModel::Or), i + 2) } else { (Err(LexerError::UnexpectedChar('|', at)), i + 1) })
    } else {
        None
    }
}

/// The step of a compound operator known to start at index `i`.
pub open spec fn compound_step(s: Seq<char>, i: int) -> LexStep {
    spec_compound(s, i)->0
}

/// Operators and punctuation at index `i`.
pub open spec fn spec_operator(s: Seq<char>, i: int) -> Option<LexStep> {
    match single_char_token(s[i]) {
        Some(t) => Some((Ok(t), i + 1)),
        None => spec_compound(s, i),
    }
}

/// A string literal whose opening quote is at index `i`.
pub open spec fn spec_string(s: Seq<char>, i: int) -> LexStep {
    match scan_string(s, i + 1) {
        Some((v, k)) => (Ok(TokenModel::Str(v)), k),
        None => (Err(LexerError::UnterminatedString(byte_offset(s, i) as usize)), s.len() as int),
    }
}

/// Does a number literal start at index `i`?
pub open spec fn number_starts(s: Seq<char>, i: int) -> bool {
    is_digit(s[i]) || (s[i] == '-' && i + 1 < s.len() && is_digit(s[i + 1]))
}

/// A number literal starting at index `i`.
pub open spec fn spec_number(s: Seq<char>, i: int) -> LexStep {
    let j = if s[i] == '-' { i + 1 } else { i };
    let k = digits_end(s, j);
    if k + 1 < s.len() && s[k] == '.' && is_digit(s[k + 1]) {
        let m = digits_end(s, k + 1);
        (Ok(TokenModel::Float(s.subrange(i, m))), m)
    } else if i64::MIN <= int_text_value(s.subrange(i, k)) <= i64::MAX {
        (Ok(TokenModel::Int(int_text_value(s.subrange(i, k)))), k)
    } else {
        (Err(LexerError::IntegerOutOfRange(byte_offset(s, i) as usize)), k)
    }
}

/// The token an identifier-shaped word stands for.
pub open spec fn word_token(w: Seq<char>) -> TokenModel {
    if w == seq!['t', 'r', 'u', 'e'] {
        TokenModel::Bool(true)
    } else if w == seq!['f', 'a', 'l', 's', 'e'] {
        TokenModel::Bool(false)
    } else if w == seq!['n', 'u', 'l', 'l'] {
        TokenModel::Null
    } else {
        TokenModel::Ident(w)
    }
}

/// An identifier or keyword starting at index `i`.
pub open spec fn spec_word(s: Seq<char>, i: int) -> LexStep {
    let k = ident_end(s, i + 1);
    (Ok(word_token(s.subrange(i, k))), k)
}

/// The token starting at index `i`, which holds no whitespace.
pub open spec fn spec_dispatch(s: Seq<char>, i: int) -> LexStep {
    let c = s[i];
    if c == '\'' {
        spec_string(s, i)
    } else if spec_operator(s, i) is Some {
        spec_operator(s, i)->0
    } else if number_starts(s, i) {
        spec_number(s, i)
    } else if is_ident_first(c) {
        spec_word(s, i)
    } else {
        (Err(LexerError::UnexpectedChar(c, byte_offset(s, i) as usize)), i)
    }
}

/// The next token of `s` when lexing resumes at index `i`.
pub open spec fn spec_next(s: Seq<char>, i: int) -> LexStep {
    let j = skip_space(s, i);
    if j >= s.len() {
        (Ok(TokenModel::Eof), j)
    } else {
        spec_dispatch(s, j)
    }
}

// ---------------------------------------------------------------------------
// Facts about these definitions.
// ---------------------------------------------------------------------------

pub proof fn lemma_skip_space_bounds(s: Seq<char>, i: int)
    requires
        0 <= i <= s.len(),
    ensures
        i <= skip_space(s, i) <= s.len(),
    decreases s.len() - i,
{
    if i < s.len() && is_ascii_space(s[i]) {
        lemma_skip_space_bounds(s, i + 1);
    }
}

pub proof fn lemma_digits_end_bounds(s: Seq<char>, i: int)
    requires
        0 <= i <= s.len(),
    ensures
        i <= digits_end(s, i) <= s.len(),
        forall|k: int| i <= k < digits_end(s, i) ==> is_digit(#[trigger] s[k]),
        digits_end(s, i) < s.len() ==> !is_digit(s[digits_end(s, i)]),
    decreases s.len() - i,
{
    if i < s.len() && is_digit(s[i]) {
        lemma_digits_end_bounds(s, i + 1);
    }
}

pub proof fn lemma_ident_end_bounds(s: Seq<char>, i: int)
    requires
        0 <= i <= s.len(),
    ensures
        i <= ident_end(s, i) <= s.len(),
        forall|k: int| i <= k < ident_end(s, i) ==> is_ident_char(#[trigger] s[k]),
    decreases s.len() - i,
{
    if i < s.len() && is_ident_char(s[i]) {
        lemma_ident_end_bounds(s, i + 1);
    }
}

pub proof fn lemma_scan_string_bounds(s: Seq<char>, j: int)
    requires
        0 <= j,
    ensures
        scan_string(s, j) matches Some((v, k)) ==> j < k <= s.len(),
    decreases s.len() - j,
{
    if 0 <= j < s.len() {
        if s[j] == '\'' {
            if j + 1 < s.len() && s[j + 1] == '\'' {
                lemma_scan_string_bounds(s, j + 2);
            }
        } else {
            lemma_scan_string_bounds(s, j + 1);
        }
    }
}

/// Every token ends within the text, after where lexing resumed.
pub proof fn lemma_spec_next_bounds(s: Seq<char>, i: int)
    requires
        0 <= i <= s.len(),
    ensures
        i <= spec_next(s, i).1 <= s.len(),
        spec_next(s, i).0 != Ok::<TokenModel, LexerError>(TokenModel::Eof) ==> i < spec_next(s, i).1 || spec_next(s, i).0 is Err,
{
    lemma_skip_space_bounds(s, i);
    let j = skip_space(s, i);
    if j < s.len() {
        lemma_scan_string_bounds(s, j + 1);
        lemma_ident_end_bounds(s, j + 1);
        let k0 = if s[j] == '-' { j + 1 } else { j };
        lemma_digits_end_bounds(s, k0);
        let k = digits_end(s, k0);
        if k + 1 < s.len() {
            lemma_digits_end_bounds(s, k + 1);
        }
    }
}

/// Digit values grow with each appended digit.
pub proof fn lemma_digits_value_prefix(d: Seq<char>, n: int)
    requires
        0 <= n <= d.len(),
        forall|k: int| 0 <= k < d.len() ==> is_digit(#[trigger] d[k]),
    ensures
        0 <= digits_value(d.take(n)) <= digits_value(d),
    decreases d.len() - n,
{
    if n < d.len() {
        lemma_digits_value_prefix(d, n + 1);
        assert(d.take(n + 1).drop_last() =~= d.take(n));
        assert(d.take(n + 1).last() == d[n]);
    } else {
        assert(d.take(n) =~= d);
        lemma_digits_value_nonneg(d);
    }
}

pub proof fn lemma_digits_value_nonneg(d: Seq<char>)
    requires
        forall|k: int| 0 <= k < d.len() ==> is_digit(#[trigger] d[k]),
    ensures
        0 <= digits_value(d),
    decreases d.len(),
{
    if d.len() > 0 {
        assert(is_digit(d[d.len() - 1]));
        lemma_digits_value_nonneg(d.drop_last());
    }
}

// ---------------------------------------------------------------------------
// The lexer.
// ---------------------------------------------------------------------------

/// What a call of `next_token` does to a lexer over `s` at index `i`
/// holding the token `peeked` read ahead: what it returns and the index it
/// leaves the lexer at. It keeps no token read ahead.
pub open spec fn next_transition(s: Seq<char>, i: int, peeked: Option<TokenModel>) -> LexStep {
    match peeked {
        Some(t) => (Ok(t), i),
        None => spec_next(s, i),
    }
}

/// What a call of `peek_token` does to a lexer over `s` at index `i`
/// holding the token `peeked` read ahead: what it returns, the index it
/// leaves the lexer at and the token it then holds read ahead.
pub open spec fn peek_transition(s: Seq<char>, i: int, peeked: Option<TokenModel>) -> (Result<TokenModel, LexerError>, int, Option<TokenModel>) {
    match peeked {
        Some(t) => (Ok(t), i, Some(t)),
        None => match spec_next(s, i) {
            (Ok(t), j) => (Ok(t), j, Some(t)),
            (Err(e), j) => (Err(e), j, None),
        },
    }
}

/// Peeking consumes nothing. Once `peek_token` has returned a token,
/// another peek returns the same token and changes nothing; `next_token`
/// then returns that token and leaves the lexer where `next_token` alone
/// would have left it, with nothing read ahead, so the call after it
/// returns the token that follows.
pub proof fn lemma_peek_consumes_nothing(s: Seq<char>, i: int, peeked: Option<TokenModel>)
    requires
        peek_transition(s, i, peeked).0 is Ok,
    ensures
        ({
            let (r, j, p) = peek_transition(s, i, peeked);
            &&& peek_transition(s, j, p) == (r, j, p)
            &&& next_transition(s, j, p) == (r, j)
            &&& next_transition(s, j, p) == next_transition(s, i, peeked)
        }),
{
}

/// The abstract content of a lexing result.
pub open spec fn token_result(r: Result<Token, LexerError>) -> Result<TokenModel, LexerError> {
    match r {
        Ok(t) => Ok(t@),
        Err(e) => Err(e),
    }
}

/// Integer literal text: an optional `-` followed by at least one digit.
pub open spec fn is_int_text(t: Seq<char>) -> bool {
    int_digits(t).len() > 0 && all_digits(int_digits(t))
}

/// The digits of an integer literal text, after its optional `-`.
pub open spec fn int_digits(t: Seq<char>) -> Seq<char> {
    if t.len() > 0 && t[0] == '-' { t.drop_first() } else { t }
}

/// Every character is an ASCII digit.
pub open spec fn all_digits(d: Seq<char>) -> bool {
    forall|k: int| 0 <= k < d.len() ==> is_digit(#[trigger] d[k])
}

/// Contents decoded so far, prepended to what the rest of a string literal scans to.
pub open spec fn prepend_scan(acc: Seq<char>, o: Option<(Seq<char>, int)>) -> Option<(Seq<char>, int)> {
    match o {
        Some((v, k)) => Some((acc + v, k)),
        None => None,
    }
}

enum StringChunk {
    Char(char),
    Terminated,
}

/// A hand-written lexer for the `${{ }}` expression syntax.
///
/// Produces one token at a time, with one token of lookahead through
/// [`peek_token`](Lexer::peek_token).
pub struct Lexer {
    /// The characters of the input.
    text: Vec<char>,
    /// Index of the next character to read.
    index: usize,
    /// Byte offset of the next character to read.
    pos: usize,
    /// Token read ahead by a previous peek, if any.
    peeked: Option<Token>,
}

impl Lexer {
    /// The characters of the input.
    pub closed spec fn text(&self) -> Seq<char> {
        self.text@
    }

    /// Index of the next character to read.
    pub closed spec fn index(&self) -> int {
        self.index as int
    }

    /// The token read ahead, if any.
    pub closed spec fn peeked(&self) -> Option<TokenModel> {
        match self.peeked {
            Some(t) => Some(t@),
            None => None,
        }
    }

    /// The position is within the input and the byte offset matches it.
    pub closed spec fn wf(&self) -> bool {
        &&& self.index <= self.text.len()
        &&& fits_offsets(self.text@)
        &&& self.pos == byte_offset(self.text@, self.index as int)
    }

    /// Index of the next character to read.
    pub fn position(&self) -> (r: usize)
        ensures
            r == self.index(),
    {
        self.index
    }

    /// Creates a lexer for the given input.
    pub fn new(input: &str) -> (r: Self)
        ensures
            r.wf(),
            r.text() == input@,
            r.index() == 0,
            r.peeked() is None,
    {
        let byte_count: usize = input.as_bytes().len();
        proof {
            lemma_encode_utf8_len(input@);
            assert(utf8_len(input@) == byte_count);
        }
        let text = chars_of(input);
        assert(text@.take(0) =~= Seq::<char>::empty());
        Lexer { text, index: 0, pos: 0, peeked: None }
    }

    /// Returns the next token without consuming it; later calls return the
    /// same token until [`next_token`](Lexer::next_token) consumes it.
    pub fn peek_token(&mut self) -> (r: Result<Token, LexerError>)
        requires
            old(self).wf(),
        ensures
            final(self).wf(),
            final(self).text() == old(self).text(),
            (token_result(r), final(self).index(), final(self).peeked())
                == peek_transition(old(self).text(), old(self).index(), old(self).peeked()),
    {
        if let Some(ref token) = self.peeked {
            return Ok(token.duplicate());
        }
        let token = self.advance()?;
        self.peeked = Some(token.duplicate());
        Ok(token)
    }

    /// Consumes and returns the next token; [`Token::Eof`] once the input is
    /// exhausted.
    pub fn next_token(&mut self) -> (r: Result<Token, LexerError>)
        requires
            old(self).wf(),
        ensures
            final(self).wf(),
            final(self).text() == old(self).text(),
            final(self).peeked() is None,
            (token_result(r), final(self).index()) == next_transition(old(self).text(), old(self).index(), old(self).peeked()),
    {
        if let Some(token) = self.peeked.take() {
            return Ok(token);
        }
        self.advance()
    }

    /// Skips whitespace, then lexes the token at the current character.
    fn advance(&mut self) -> (r: Result<Token, LexerError>)
        requires
            old(self).wf(),
        ensures
            final(self).wf(),
            final(self).text() == old(self).text(),
            final(self).peeked() == old(self).peeked(),
            token_result(r) == spec_next(old(self).text(), old(self).index()).0,
            final(self).index() == spec_next(old(self).text(), old(self).index()).1,
    {
        self.skip_whitespace();
        let ch = match self.current_char() {
            Some(ch) => ch,
            None => return Ok(Token::Eof),
        };
        self.dispatch_char(ch)
    }

    fn dispatch_char(&mut self, ch: char) -> (r: Result<Token, LexerError>)
        requires
            old(self).wf(),
            old(self).index() < old(self).text().len(),
            ch == old(self).text()[old(self).index()],
        ensures
            final(self).wf(),
            final(self).text() == old(self).text(),
            final(self).peeked() == old(self).peeked(),
            token_result(r) == spec_dispatch(old(self).text(), old(self).index()).0,
            final(self).index() == spec_dispatch(old(self).text(), old(self).index()).1,
    {
        if ch == '\x27' {
            return self.lex_string();
        }
        if let Some(op) = self.lex_operator(ch) {
            return op;
        }
        if self.is_number_start(ch) {
            return self.lex_number();
        }
        if Self::is_ident_start(ch) {
            return self.lex_ident_or_keyword();
        }
        Err(LexerError::UnexpectedChar(ch, self.pos))
    }

    fn is_ident_start(ch: char) -> (r: bool)
        ensures
            r == is_ident_first(ch),
    {
        alpha_char(ch) || ch == '_'
    }

    fn is_number_start(&self, ch: char) -> (r: bool)
        requires
            self.index() < self.text().len(),
            ch == self.text()[self.index()],
        ensures
            r == number_starts(self.text(), self.index()),
    {
        digit_char(ch) || (ch == '-' && self.peek_is_digit())
    }

    fn peek_is_digit(&self) -> (r: bool)
        ensures
            r == (self.index() + 1 < self.text().len() && is_digit(self.text()[self.index() + 1])),
    {
        match self.peek_next_char() {
            Some(n) => digit_char(n),
            None => false,
        }
    }

    fn lex_operator(&mut self, ch: char) -> (r: Option<Result<Token, LexerError>>)
        requires
            old(self).wf(),
            old(self).index() < old(self).text().len(),
            ch == old(self).text()[old(self).index()],
        ensures
            final(self).wf(),
            final(self).text() == old(self).text(),
            final(self).peeked() == old(self).peeked(),
            match spec_operator(old(self).text(), old(self).index()) {
                None => r is None && final(self).index() == old(self).index(),
                Some(step) => r matches Some(res) && token_result(res) == step.0 && final(self).index() == step.1,
            },
    {
        match ch {
            '.' => Some(self.bump_token(Token::Dot)),
            '[' => Some(self.bump_token(Token::LBracket)),
            ']' => Some(self.bump_token(Token::RBracket)),
            '(' => Some(self.bump_token(Token::LParen)),
            ')' => Some(self.bump_token(Token::RParen)),
            '*' => Some(self.bump_token(Token::Star)),
            ',' => Some(self.bump_token(Token::Comma)),
            _ => self.lex_compound_operator(ch),
        }
    }

    fn bump_token(&mut self, tok: Token) -> (r: Result<Token, LexerError>)
        requires
            old(self).wf(),
            old(self).index() < old(self).text().len(),
        ensures
            final(self).wf(),
            final(self).text() == old(self).text(),
            final(self).peeked() == old(self).peeked(),
            final(self).index() == old(self).index() + 1,
            r == Ok::<Token, LexerError>(tok),
    {
        self.bump();
        Ok(tok)
    }

    fn lex_compound_operator(&mut self, ch: char) -> (r: Option<Result<Token, LexerError>>)
        requires
            old(self).wf(),
            old(self).index() < old(self).text().len(),
            ch == old(self).text()[old(self).index()],
        ensures
            final(self).wf(),
            final(self).text() == old(self).text(),
            final(self).peeked() == old(self).peeked(),
            match spec_compound(old(self).text(), old(self).index()) {
                None => r is None && final(self).index() == old(self).index(),
                Some(step) => r matches Some(res) && token_result(res) == step.0 && final(self).index() == step.1,
            },
    {
        match ch {
            '!' => Some(self.lex_exclamation()),
            '=' => Some(self.lex_equals()),
            '<' => Some(self.lex_less_than()),
            '>' => Some(self.lex_greater_than()),
            '&' => Some(self.lex_ampersand()),
            '|' => Some(self.lex_pipe()),
            _ => None,
        }
    }

    fn lex_exclamation(&mut self) -> (r: Result<Token, LexerError>)
        requires
            old(self).wf(),
            old(self).index() < old(self).text().len(),
            old(self).text()[old(self).index()] == '!',
        ensures
            final(self).wf(),
            final(self).text() == old(self).text(),
            final(self).peeked() == old(self).peeked(),
            token_result(r) == compound_step(old(self).text(), old(self).index()).0,
            final(self).index() == compound_step(old(self).text(), old(self).index()).1,
    {
        self.bump();
        if self.current_char() == Some('=') {
            self.bump();
            Ok(Token::Neq)
        } else {
            Ok(Token::Not)
        }
    }

    fn lex_equals(&mut self) -> (r: Result<Token, LexerError>)
        requires
            old(self).wf(),
            old(self).index() < old(self).text().len(),
            old(self).text()[old(self).index()] == '=',
        ensures
            final(self).wf(),
            final(self).text() == old(self).text(),
            final(self).peeked() == old(self).peeked(),
            token_result(r) == compound_step(old(self).text(), old(self).index()).0,
            final(self).index() == compound_step(old(self).text(), old(self).index()).1,
    {
        proof {
            assert(utf8_width('=') == 1);
            lemma_utf8_len_step(self.text@, self.index as int);
        }
        self.bump();
        if self.current_char() == Some('=') {
            self.bump();
            Ok(Token::Eq)
        } else {
            Err(LexerError::UnexpectedChar('=', self.pos - 1))
        }
    }

    fn lex_less_than(&mut self) -> (r: Result<Token, LexerError>)
        requires
            old(self).wf(),
            old(self).index() < old(self).text().len(),
            old(self).text()[old(self).index()] == '<',
        ensures
            final(self).wf(),
            final(self).text() == old(self).text(),
            final(self).peeked() == old(self).peeked(),
            token_result(r) == compound_step(old(self).text(), old(self).index()).0,
            final(self).index() == compound_step(old(self).text(), old(self).index()).1,
    {
        self.bump();
        if self.current_char() == Some('=') {
            self.bump();
            Ok(Token::Lte)
        } else {
            Ok(Token::Lt)
        }
    }

    fn lex_greater_than(&mut self) -> (r: Result<Token, LexerError>)
        requires
            old(self).wf(),
            old(self).index() < old(self).text().len(),
            old(self).text()[old(self).index()] == '>',
        ensures
            final(self).wf(),
            final(self).text() == old(self).text(),
            final(self).peeked() == old(self).peeked(),
            token_result(r) == compound_step(old(self).text(), old(self).index()).0,
            final(self).index() == compound_step(old(self).text(), old(self).index()).1,
    {
        self.bump();
        if self.current_char() == Some('=') {
            self.bump();
            Ok(Token::Gte)
        } else {
            Ok(Token::Gt)
        }
    }

    fn lex_ampersand(&mut self) -> (r: Result<Token, LexerError>)
        requires
            old(self).wf(),
            old(self).index() < old(self).text().len(),
            old(self).text()[old(self).index()] == '&',
        ensures
            final(self).wf(),
            final(self).text() == old(self).text(),
            final(self).peeked() == old(self).peeked(),
            token_result(r) == compound_step(old(self).text(), old(self).index()).0,
            final(self).index() == compound_step(old(self).text(), old(self).index()).1,
    {
        proof {
            assert(utf8_width('&') == 1);
            lemma_utf8_len_step(self.text@, self.index as int);
        }
        self.bump();
        if self.current_char() == Some('&') {
            self.bump();
            Ok(Token::And)
        } else {
            Err(LexerError::UnexpectedChar('&', self.pos - 1))
        }
    }

    fn lex_pipe(&mut self) -> (r: Result<Token, LexerError>)
        requires
            old(self).wf(),
            old(self).index() < old(self).text().len(),
            old(self).text()[old(self).index()] == '|',
        ensures
            final(self).wf(),
            final(self).text() == old(self).text(),
            final(self).peeked() == old(self).peeked(),
            token_result(r) == compound_step(old(self).text(), old(self).index()).0,
            final(self).index() == compound_step(old(self).text(), old(self).index()).1,
    {
        proof {
            assert(utf8_width('|') == 1);
            lemma_utf8_len_step(self.text@, self.index as int);
        }
        self.bump();
        if self.current_char() == Some('|') {
            self.bump();
            Ok(Token::Or)
        } else {
            Err(LexerError::UnexpectedChar('|', self.pos - 1))
        }
    }

    /// Lexes a single-quoted string literal, in which `''` stands for one quote.
    fn lex_string(&mut self) -> (r: Result<Token, LexerError>)
        requires
            old(self).wf(),
            old(self).index() < old(self).text().len(),
            old(self).text()[old(self).index()] == '\x27',
        ensures
            final(self).wf(),
            final(self).text() == old(self).text(),
            final(self).peeked() == old(self).peeked(),
            token_result(r) == spec_string(old(self).text(), old(self).index()).0,
            final(self).index() == spec_string(old(self).text(), old(self).index()).1,
    {
        let ghost q = self.index as int;
        let start = self.pos;
        self.bump();

        let mut value = String::new();
        proof {
            assert(value@ + Seq::<char>::empty() =~= value@);
            lemma_prepend_empty(scan_string(self.text@, q + 1));
        }

        loop
            invariant
                self.wf(),
                self.text@ == old(self).text@,
                self.peeked() == old(self).peeked(),
                0 <= q < self.text@.len(),
                q == old(self).index as int,
                self.text@[q] == '\x27',
                q < self.index,
                start == byte_offset(self.text@, q),
                scan_string(self.text@, q + 1) == prepend_scan(value@, scan_string(self.text@, self.index as int)),
            decreases self.text@.len() - self.index,
        {
            let ghost before = self.index as int;
            let ghost acc = value@;
            let chunk = match self.next_string_char(start) {
                Ok(chunk) => chunk,
                Err(e) => {
                    proof {
                        assert(scan_string(self.text@, self.index as int) is None);
                    }
                    return Err(e);
                },
            };
            match chunk {
                StringChunk::Char(c) => {
                    push_char(&mut value, c);
                    proof {
                        lemma_scan_step(self.text@, before, acc, c, self.index as int);
                    }
                },
                StringChunk::Terminated => {
                    proof {
                        assert(scan_string(self.text@, before) == Some((Seq::<char>::empty(), self.index as int)));
                        assert(acc + Seq::<char>::empty() =~= acc);
                    }
                    return Ok(Token::String(value));
                },
            }
        }
    }

    fn next_string_char(&mut self, start: usize) -> (r: Result<StringChunk, LexerError>)
        requires
            old(self).wf(),
        ensures
            final(self).wf(),
            final(self).text() == old(self).text(),
            final(self).peeked() == old(self).peeked(),
            ({
                let s = old(self).text();
                let j = old(self).index();
                if j >= s.len() {
                    r == Err::<StringChunk, LexerError>(LexerError::UnterminatedString(start))
                        && final(self).index() == j
                } else if s[j] == '\x27' {
                    if j + 1 < s.len() && s[j + 1] == '\x27' {
                        r == Ok::<StringChunk, LexerError>(StringChunk::Char('\x27'))
                            && final(self).index() == j + 2
                    } else {
                        r == Ok::<StringChunk, LexerError>(StringChunk::Terminated)
                            && final(self).index() == j + 1
                    }
                } else {
                    r == Ok::<StringChunk, LexerError>(StringChunk::Char(s[j]))
                        && final(self).index() == j + 1
                }
            }),
    {
        let ch = match self.current_char() {
            Some(ch) => ch,
            None => return Err(LexerError::UnterminatedString(start)),
        };

        if ch == '\x27' {
            self.bump();
            if self.current_char() == Some('\x27') {
                self.bump();
                Ok(StringChunk::Char('\x27'))
            } else {
                Ok(StringChunk::Terminated)
            }
        } else {
            self.bump();
            Ok(StringChunk::Char(ch))
        }
    }

    /// Lexes a number literal: an integer, or a fraction when a `.` is
    /// followed by a digit.
    fn lex_number(&mut self) -> (r: Result<Token, LexerError>)
        requires
            old(self).wf(),
            old(self).index() < old(self).text().len(),
            number_starts(old(self).text(), old(self).index()),
        ensures
            final(self).wf(),
            final(self).text() == old(self).text(),
            final(self).peeked() == old(self).peeked(),
            token_result(r) == spec_number(old(self).text(), old(self).index()).0,
            final(self).index() == spec_number(old(self).text(), old(self).index()).1,
    {
        let ghost s = self.text@;
        let ghost i = self.index as int;
        let start = self.pos;
        let mut num_str = String::new();
        if self.current_char() == Some('-') {
            push_char(&mut num_str, '-');
            self.bump();
        }
        proof {
            assert(num_str@ =~= s.subrange(i, self.index as int));
        }
        let ghost j = self.index as int;
        self.consume_digits(&mut num_str);
        let ghost k = self.index as int;
        proof {
            lemma_digits_end_bounds(s, j);
            assert(num_str@ =~= s.subrange(i, k));
        }
        let is_float = self.consume_fractional_part(&mut num_str);
        proof {
            if is_float {
                lemma_digits_end_bounds(s, k + 1);
                assert(num_str@ =~= s.subrange(i, self.index as int));
            }
            if !is_float {
                let t = s.subrange(i, k);
                let d = int_digits(t);
                assert(d =~= s.subrange(j, k));
                assert forall|m: int| 0 <= m < d.len() implies is_digit(#[trigger] d[m]) by {
                    assert(d[m] == s[j + m]);
                }
            }
        }
        Self::parse_number_token(num_str.as_str(), is_float, start)
    }

    fn consume_digits(&mut self, num_str: &mut String)
        requires
            old(self).wf(),
        ensures
            final(self).wf(),
            final(self).text() == old(self).text(),
            final(self).peeked() == old(self).peeked(),
            final(self).index() == digits_end(old(self).text(), old(self).index()),
            final(num_str)@ == old(num_str)@ + old(self).text().subrange(old(self).index(), final(self).index()),
    {
        let ghost i = self.index as int;
        proof {
            assert(num_str@ =~= old(num_str)@ + self.text@.subrange(i, i));
        }
        while self.index < self.text.len() && digit_char(self.text[self.index])
            invariant
                self.wf(),
                self.text@ == old(self).text@,
                self.peeked() == old(self).peeked(),
                0 <= i <= self.index,
                digits_end(self.text@, i) == digits_end(self.text@, self.index as int),
                num_str@ == old(num_str)@ + self.text@.subrange(i, self.index as int),
            decreases self.text@.len() - self.index,
        {
            let c = self.text[self.index];
            let ghost prev = num_str@;
            let ghost idx = self.index as int;
            push_char(num_str, c);
            self.bump();
            assert(self.index as int == idx + 1);
            assert(idx < self.text@.len());
            assert(c == self.text@[idx]);
            assert(i <= idx);
            assert(num_str@ == prev.push(c));
            assert(self.text@.subrange(i, idx + 1) =~= self.text@.subrange(i, idx).push(c));
            assert(num_str@ =~= old(num_str)@ + self.text@.subrange(i, self.index as int));
        }
    }

    fn consume_fractional_part(&mut self, num_str: &mut String) -> (r: bool)
        requires
            old(self).wf(),
        ensures
            final(self).wf(),
            final(self).text() == old(self).text(),
            final(self).peeked() == old(self).peeked(),
            ({
                let s = old(self).text();
                let k = old(self).index();
                if k + 1 < s.len() && s[k] == '.' && is_digit(s[k + 1]) {
                    &&& r
                    &&& final(self).index() == digits_end(s, k + 1)
                    &&& final(num_str)@ == old(num_str)@ + s.subrange(k, final(self).index())
                } else {
                    &&& !r
                    &&& final(self).index() == k
                    &&& final(num_str)@ == old(num_str)@
                }
            }),
    {
        if self.current_char() == Some('.') && self.peek_is_digit() {
            let ghost k = self.index as int;
            let ghost before = num_str@;
            push_char(num_str, '.');
            self.bump();
            self.consume_digits(num_str);
            proof {
                lemma_digits_end_bounds(self.text@, k + 1);
                assert(self.text@.subrange(k, self.index as int) =~= seq!['.'] + self.text@.subrange(k + 1, self.index as int));
                assert(num_str@ =~= before + self.text@.subrange(k, self.index as int));
            }
            true
        } else {
            false
        }
    }

    fn parse_number_token(num_str: &str, is_float: bool, start: usize) -> (r: Result<Token, LexerError>)
        requires
            !is_float ==> is_int_text(num_str@),
        ensures
            is_float ==> token_result(r) == Ok::<TokenModel, LexerError>(TokenModel::Float(num_str@)),
            !is_float ==> token_result(r) == if i64::MIN <= int_text_value(num_str@) <= i64::MAX {
                Ok::<TokenModel, LexerError>(TokenModel::Int(int_text_value(num_str@)))
            } else {
                Err::<TokenModel, LexerError>(LexerError::IntegerOutOfRange(start))
            },
    {
        if is_float {
            Ok(Token::Float(FloatLiteral::new(owned(num_str))))
        } else {
            let digits = chars_of(num_str);
            if int_text_fits(&digits) {
                Ok(Token::Int(parse_int_text(&digits)))
            } else {
                Err(LexerError::IntegerOutOfRange(start))
            }
        }
    }

    /// Lexes an identifier, `[a-zA-Z_][a-zA-Z0-9_-]*`, or one of the keywords
    /// `true`, `false` and `null`.
    fn lex_ident_or_keyword(&mut self) -> (r: Result<Token, LexerError>)
        requires
            old(self).wf(),
            old(self).index() < old(self).text().len(),
        ensures
            final(self).wf(),
            final(self).text() == old(self).text(),
            final(self).peeked() == old(self).peeked(),
            token_result(r) == spec_word(old(self).text(), old(self).index()).0,
            final(self).index() == spec_word(old(self).text(), old(self).index()).1,
    {
        let ghost i = self.index as int;
        let mut ident = String::new();
        push_char(&mut ident, self.text[self.index]);
        self.bump();
        proof {
            assert(ident@ =~= self.text@.subrange(i, self.index as int));
        }

        while self.index < self.text.len() && (alnum_char(self.text[self.index]) || self.text[self.index] == '_' || self.text[self.index] == '-')
            invariant
                self.wf(),
                self.text@ == old(self).text@,
                self.peeked() == old(self).peeked(),
                0 <= i < self.index,
                ident_end(self.text@, i + 1) == ident_end(self.text@, self.index as int),
                ident@ == self.text@.subrange(i, self.index as int),
            decreases self.text@.len() - self.index,
        {
            push_char(&mut ident, self.text[self.index]);
            self.bump();
            assert(ident@ =~= self.text@.subrange(i, self.index as int));
        }

        proof {
            reveal_strlit("true");
            reveal_strlit("false");
            reveal_strlit("null");
            assert("true"@ =~= seq!['t', 'r', 'u', 'e']);
            assert("false"@ =~= seq!['f', 'a', 'l', 's', 'e']);
            assert("null"@ =~= seq!['n', 'u', 'l', 'l']);
        }
        if same_text(ident.as_str(), "true") {
            Ok(Token::Bool(true))
        } else if same_text(ident.as_str(), "false") {
            Ok(Token::Bool(false))
        } else if same_text(ident.as_str(), "null") {
            Ok(Token::Null)
        } else {
            Ok(Token::Ident(ident))
        }
    }

    /// Advances past ASCII whitespace.
    fn skip_whitespace(&mut self)
        requires
            old(self).wf(),
        ensures
            final(self).wf(),
            final(self).text() == old(self).text(),
            final(self).peeked() == old(self).peeked(),
            final(self).index() == skip_space(old(self).text(), old(self).index()),
    {
        while self.index < self.text.len() && space_char(self.text[self.index])
            invariant
                self.wf(),
                self.text@ == old(self).text@,
                self.peeked() == old(self).peeked(),
                skip_space(self.text@, old(self).index as int) == skip_space(self.text@, self.index as int),
            decreases self.text@.len() - self.index,
        {
            self.bump();
        }
    }

    /// The current character, if any.
    fn current_char(&self) -> (r: Option<char>)
        ensures
            r == if self.index() < self.text().len() { Some(self.text()[self.index()]) } else { None::<char> },
    {
        if self.index < self.text.len() {
            Some(self.text[self.index])
        } else {
            None
        }
    }

    /// The character after the current one, if any.
    fn peek_next_char(&self) -> (r: Option<char>)
        ensures
            r == if self.index() + 1 < self.text().len() { Some(self.text()[self.index() + 1]) } else { None::<char> },
    {
        if self.index < self.text.len() && self.index + 1 < self.text.len() {
            Some(self.text[self.index + 1])
        } else {
            None
        }
    }

    /// Consumes the current character, if any.
    fn bump(&mut self)
        requires
            old(self).wf(),
        ensures
            final(self).wf(),
            final(self).text() == old(self).text(),
            final(self).peeked() == old(self).peeked(),
            final(self).index() == if old(self).index() < old(self).text().len() { old(self).index() + 1 } else { old(self).index() },
    {
        if self.index < self.text.len() {
            let ch = self.text[self.index];
            proof {
                lemma_utf8_len_step(self.text@, self.index as int);
                lemma_utf8_len_prefix(self.text@, self.index + 1);
            }
            self.pos = self.pos + char_width(ch);
            self.index = self.index + 1;
        }
    }
}

/// Reads an integer literal text into an `i64`.
pub fn parse_int_text(t: &Vec<char>) -> (r: i64)
    requires
        is_int_text(t@),
        i64::MIN <= int_text_value(t@) <= i64::MAX,
    ensures
        r == int_text_value(t@),
{
    let negative = t.len() > 0 && t[0] == '-';
    let start: usize = if negative { 1 } else { 0 };
    let ghost d = if negative { t@.drop_first() } else { t@ };
    proof {
        assert(d =~= t@.subrange(start as int, t@.len() as int));
        assert(d == int_digits(t@));
        lemma_digits_value_prefix(d, d.len() as int);
    }
    let mut v: i64 = 0;
    let mut i: usize = start;
    while i < t.len()
        invariant
            start <= i <= t.len(),
            d == t@.subrange(start as int, t@.len() as int),
            forall|k: int| 0 <= k < d.len() ==> is_digit(#[trigger] d[k]),
            negative ==> v == -digits_value(d.take(i - start)),
            !negative ==> v == digits_value(d.take(i - start)),
            negative ==> -digits_value(d) >= i64::MIN,
            !negative ==> digits_value(d) <= i64::MAX,
            negative == (t@.len() > 0 && t@[0] == '-'),
            start == (if negative { 1int } else { 0int }),
        decreases t.len() - i,
    {
        let ghost n = (i - start) as int;
        proof {
            lemma_digits_value_prefix(d, n + 1);
            assert(d.take(n + 1).drop_last() =~= d.take(n));
            assert(d.take(n + 1).last() == d[n]);
            assert(d[n] == t@[i as int]);
            assert(is_digit(d[n]));
        }
        let digit = (t[i] as u32 - '0' as u32) as i64;
        if negative {
            v = v * 10 - digit;
        } else {
            v = v * 10 + digit;
        }
        i = i + 1;
    }
    proof {
        assert(d.take(d.len() as int) =~= d);
    }
    v
}

pub proof fn lemma_prepend_empty(o: Option<(Seq<char>, int)>)
    ensures
        prepend_scan(Seq::<char>::empty(), o) == o,
{
    match o {
        Some((v, k)) => {
            assert(Seq::<char>::empty() + v =~= v);
        },
        None => {},
    }
}

/// One character of a string literal body moves from the unscanned rest to the accumulated contents.
pub proof fn lemma_scan_step(s: Seq<char>, before: int, acc: Seq<char>, c: char, after: int)
    requires
        0 <= before < s.len(),
        (s[before] == '\x27' && before + 1 < s.len() && s[before + 1] == '\x27' && c == '\x27' && after == before + 2)
            || (s[before] != '\x27' && c == s[before] && after == before + 1),
    ensures
        prepend_scan(acc, scan_string(s, before)) == prepend_scan(acc.push(c), scan_string(s, after)),
{
    match scan_string(s, after) {
        Some((v, k)) => {
            assert(acc + (seq![c] + v) =~= acc.push(c) + v);
        },
        None => {},
    }
}

/// Whether an integer literal text, an optional `-` and digits, has a
/// value that fits in an `i64`.
pub(crate) fn int_text_fits(t: &Vec<char>) -> (r: bool)
    requires
        is_int_text(t@),
    ensures
        r == (i64::MIN <= int_text_value(t@) <= i64::MAX),
{
    let negative = t.len() > 0 && t[0] == '-';
    let start: usize = if negative { 1 } else { 0 };
    let ghost d = int_digits(t@);
    proof {
        assert(d =~= t@.subrange(start as int, t@.len() as int));
        lemma_digits_value_prefix(d, d.len() as int);
    }
    let mut mag: u64 = 0;
    let mut k: usize = start;
    while k < t.len()
        invariant
            start <= k <= t.len(),
            d == t@.subrange(start as int, t@.len() as int),
            d == int_digits(t@),
            negative == (t@.len() > 0 && t@[0] == '-'),
            forall|q: int| 0 <= q < d.len() ==> is_digit(#[trigger] d[q]),
            mag == digits_value(d.take(k - start)),
            mag <= 9223372036854775808u64,
        decreases t.len() - k,
    {
        let ghost n = (k - start) as int;
        proof {
            assert(d.take(n + 1).drop_last() =~= d.take(n));
            assert(d.take(n + 1).last() == d[n]);
            assert(d[n] == t@[k as int]);
            lemma_digits_value_prefix(d, n + 1);
        }
        let digit = (t[k] as u32 - '0' as u32) as u64;
        proof {
            assert(digits_value(d.take(n + 1)) == mag * 10 + digit);
        }
        if mag > 922337203685477580u64 {
            proof {
                assert(digits_value(d.take(n + 1)) > 9223372036854775808);
                assert(digits_value(d) > 9223372036854775808);
            }
            return false;
        }
        mag = mag * 10 + digit;
        if mag > 9223372036854775808u64 {
            proof {
                assert(digits_value(d) > 9223372036854775808);
            }
            return false;
        }
        k = k + 1;
    }
    proof {
        assert(d.take(d.len() as int) =~= d);
    }
    if negative {
        true
    } else {
        mag <= 9223372036854775807u64
    }
}

} // verus!
