use vstd::prelude::*;

use crate::errors::LexerError;
use crate::expression::lexer::{
    byte_offset, compound_step, digits_end, fits_offsets, ident_end, int_digits, int_text_fits,
    int_text_value, is_ident_first, next_transition, peek_transition, is_int_text, lemma_digits_end_bounds, lemma_prepend_empty, lemma_scan_step,
    number_starts, parse_int_text, prepend_scan, scan_string, skip_space,
    spec_compound, spec_dispatch, spec_next, spec_number, spec_operator, spec_string, spec_word,
};
use crate::expression::token::{FloatLiteral, TokenModel};
use crate::text::{
    alnum_char, alpha_char, char_width, chars_of, digit_char, is_digit, lemma_utf8_len_prefix,
    lemma_utf8_len_step, owned, push_char, same_text, space_char, utf8_width, utf8_len, lemma_encode_utf8_len,
};
use crate::value_objects::expression_token::ExpressionToken;

verus! {

/// The abstract content of a lexing result.
pub open spec fn expression_token_result(r: Result<ExpressionToken, LexerError>) -> Result<TokenModel, LexerError> {
    match r {
        Ok(t) => Ok(t@),
        Err(e) => Err(e),
    }
}

enum StringChunk {
    Char(char),
    Terminated,
}

/// A hand-written lexer for the `${{ }}` expression syntax.
///
/// Produces one token at a time, with one token of lookahead through
/// [`peek_token`](ExpressionLexer::peek_token).
pub struct ExpressionLexer {
    /// The characters of the input.
    text: Vec<char>,
    /// Index of the next character to read.
    index: usize,
    /// Byte offset of the next character to read.
    pos: usize,
    /// ExpressionToken read ahead by a previous peek, if any.
    peeked: Option<ExpressionToken>,
}

impl ExpressionLexer {
    /// The characters of the input.
    pub closed spec fn text(&self) -> Seq<char> {
        self.text@
    }

    /// Index of the next character to read.
    pub closed spec fn index(&self) -> int {
        self.index as int
    }

    /// The token read ahead, if any.
    pub closed spec fn peeked(&self) -> Option<TokenModel> {
        match self.peeked {
            Some(t) => Some(t@),
            None => None,
        }
    }

    /// The position is within the input and the byte offset matches it.
    pub closed spec fn wf(&self) -> bool {
        &&& self.index <= self.text.len()
        &&& fits_offsets(self.text@)
        &&& self.pos == byte_offset(self.text@, self.index as int)
    }

    /// Creates a lexer for the given input.
    pub fn new(input: &str) -> (r: Self)
        ensures
            r.wf(),
            r.text() == input@,
            r.index() == 0,
            r.peeked() is None,
    {
        let byte_count: usize = input.as_bytes().len();
        proof {
            lemma_encode_utf8_len(input@);
            assert(utf8_len(input@) == byte_count);
        }
        let text = chars_of(input);
        assert(text@.take(0) =~= Seq::<char>::empty());
        ExpressionLexer { text, index: 0, pos: 0, peeked: None }
    }

    /// Returns the next token without consuming it; later calls return the
    /// same token until [`next_token`](ExpressionLexer::next_token) consumes it.
    pub fn peek_token(&mut self) -> (r: Result<ExpressionToken, LexerError>)
        requires
            old(self).wf(),
        ensures
            final(self).wf(),
            final(self).text() == old(self).text(),
            (expression_token_result(r), final(self).index(), final(self).peeked())
                == peek_transition(old(self).text(), old(self).index(), old(self).peeked()),
    {
        if let Some(ref token) = self.peeked {
            return Ok(token.duplicate());
        }
        let token = self.advance()?;
        self.peeked = Some(token.duplicate());
        Ok(token)
    }

    /// Consumes and returns the next token; [`ExpressionToken::EndOfInput`] once the input is
    /// exhausted.
    pub fn next_token(&mut self) -> (r: Result<ExpressionToken, LexerError>)
        requires
            old(self).wf(),
        ensures
            final(self).wf(),
            final(self).text() == old(self).text(),
            final(self).peeked() is None,
            (expression_token_result(r), final(self).index()) == next_transition(old(self).text(), old(self).index(), old(self).peeked()),
    {
        if let Some(token) = self.peeked.take() {
            return Ok(token);
        }
        self.advance()
    }

    /// Skips whitespace, then lexes the token at the current character.
    fn advance(&mut self) -> (r: Result<ExpressionToken, LexerError>)
        requires
            old(self).wf(),
        ensures
            final(self).wf(),
            final(self).text() == old(self).text(),
            final(self).peeked() == old(self).peeked(),
            expression_token_result(r) == spec_next(old(self).text(), old(self).index()).0,
            final(self).index() == spec_next(old(self).text(), old(self).index()).1,
    {
        self.skip_whitespace();
        let ch = match self.current_char() {
            Some(ch) => ch,
            None => return Ok(ExpressionToken::EndOfInput),
        };
        self.dispatch_char(ch)
    }

    fn dispatch_char(&mut self, ch: char) -> (r: Result<ExpressionToken, LexerError>)
        requires
            old(self).wf(),
            old(self).index() < old(self).text().len(),
            ch == old(self).text()[old(self).index()],
        ensures
            final(self).wf(),
            final(self).text() == old(self).text(),
            final(self).peeked() == old(self).peeked(),
            expression_token_result(r) == spec_dispatch(old(self).text(), old(self).index()).0,
            final(self).index() == spec_dispatch(old(self).text(), old(self).index()).1,
    {
        if ch == '\x27' {
            return self.lex_string();
        }
        if let Some(op) = self.lex_operator(ch) {
            return op;
        }
        if self.is_number_start(ch) {
            return self.lex_number();
        }
        if Self::is_ident_start(ch) {
            return self.lex_ident_or_keyword();
        }
        Err(LexerError::UnexpectedChar(ch, self.pos))
    }

    fn is_ident_start(ch: char) -> (r: bool)
        ensures
            r == is_ident_first(ch),
    {
        alpha_char(ch) || ch == '_'
    }

    fn is_number_start(&self, ch: char) -> (r: bool)
        requires
            self.index() < self.text().len(),
            ch == self.text()[self.index()],
        ensures
            r == number_starts(self.text(), self.index()),
    {
        digit_char(ch) || (ch == '-' && self.peek_is_digit())
    }

    fn peek_is_digit(&self) -> (r: bool)
        ensures
            r == (self.index() + 1 < self.text().len() && is_digit(self.text()[self.index() + 1])),
    {
        match self.peek_next_char() {
            Some(n) => digit_char(n),
            None => false,
        }
    }

    fn lex_operator(&mut self, ch: char) -> (r: Option<Result<ExpressionToken, LexerError>>)
        requires
            old(self).wf(),
            old(self).index() < old(self).text().len(),
            ch == old(self).text()[old(self).index()],
        ensures
            final(self).wf(),
            final(self).text() == old(self).text(),
            final(self).peeked() == old(self).peeked(),
            match spec_operator(old(self).text(), old(self).index()) {
                None => r is None && final(self).index() == old(self).index(),
                Some(step) => r matches Some(res) && expression_token_result(res) == step.0 && final(self).index() == step.1,
            },
    {
        match ch {
            '.' => Some(self.bump_token(ExpressionToken::Dot)),
            '[' => Some(self.bump_token(ExpressionToken::LeftBracket)),
            ']' => Some(self.bump_token(ExpressionToken::RightBracket)),
            '(' => Some(self.bump_token(ExpressionToken::LeftParenthesis)),
            ')' => Some(self.bump_token(ExpressionToken::RightParenthesis)),
            '*' => Some(self.bump_token(ExpressionToken::Star)),
            ',' => Some(self.bump_token(ExpressionToken::Comma)),
            _ => self.lex_compound_operator(ch),
        }
    }

    fn bump_token(&mut self, tok: ExpressionToken) -> (r: Result<ExpressionToken, LexerError>)
        requires
            old(self).wf(),
            old(self).index() < old(self).text().len(),
        ensures
            final(self).wf(),
            final(self).text() == old(self).text(),
            final(self).peeked() == old(self).peeked(),
            final(self).index() == old(self).index() + 1,
            r == Ok::<ExpressionToken, LexerError>(tok),
    {
        self.bump();
        Ok(tok)
    }

    fn lex_compound_operator(&mut self, ch: char) -> (r: Option<Result<ExpressionToken, LexerError>>)
        requires
            old(self).wf(),
            old(self).index() < old(self).text().len(),
            ch == old(self).text()[old(self).index()],
        ensures
            final(self).wf(),
            final(self).text() == old(self).text(),
            final(self).peeked() == old(self).peeked(),
            match spec_compound(old(self).text(), old(self).index()) {
                None => r is None && final(self).index() == old(self).index(),
                Some(step) => r matches Some(res) && expression_token_result(res) == step.0 && final(self).index() == step.1,
            },
    {
        match ch {
            '!' => Some(self.lex_exclamation()),
            '=' => Some(self.lex_equals()),
            '<' => Some(self.lex_less_than()),
            '>' => Some(self.lex_greater_than()),
            '&' => Some(self.lex_ampersand()),
            '|' => Some(self.lex_pipe()),
            _ => None,
        }
    }

    fn lex_exclamation(&mut self) -> (r: Result<ExpressionToken, LexerError>)
        requires
            old(self).wf(),
            old(self).index() < old(self).text().len(),
            old(self).text()[old(self).index()] == '!',
        ensures
            final(self).wf(),
            final(self).text() == old(self).text(),
            final(self).peeked() == old(self).peeked(),
            expression_token_result(r) == compound_step(old(self).text(), old(self).index()).0,
            final(self).index() == compound_step(old(self).text(), old(self).index()).1,
    {
        self.bump();
        if self.current_char() == Some('=') {
            self.bump();
            Ok(ExpressionToken::NotEqual)
        } else {
            Ok(ExpressionToken::Not)
        }
    }

    fn lex_equals(&mut self) -> (r: Result<ExpressionToken, LexerError>)
        requires
            old(self).wf(),
            old(self).index() < old(self).text().len(),
            old(self).text()[old(self).index()] == '=',
        ensures
            final(self).wf(),
            final(self).text() == old(self).text(),
            final(self).peeked() == old(self).peeked(),
            expression_token_result(r) == compound_step(old(self).text(), old(self).index()).0,
            final(self).index() == compound_step(old(self).text(), old(self).index()).1,
    {
        proof {
            assert(utf8_width('=') == 1);
            lemma_utf8_len_step(self.text@, self.index as int);
        }
        self.bump();
        if self.current_char() == Some('=') {
            self.bump();
            Ok(ExpressionToken::Equal)
        } else {
            Err(LexerError::UnexpectedChar('=', self.pos - 1))
        }
    }

    fn lex_less_than(&mut self) -> (r: Result<ExpressionToken, LexerError>)
        requires
            old(self).wf(),
            old(self).index() < old(self).text().len(),
            old(self).text()[old(self).index()] == '<',
        ensures
            final(self).wf(),
            final(self).text() == old(self).text(),
            final(self).peeked() == old(self).peeked(),
            expression_token_result(r) == compound_step(old(self).text(), old(self).index()).0,
            final(self).index() == compound_step(old(self).text(), old(self).index()).1,
    {
        self.bump();
        if self.current_char() == Some('=') {
            self.bump();
            Ok(ExpressionToken::LessThanOrEqual)
        } else {
            Ok(ExpressionToken::LessThan)
        }
    }

    fn lex_greater_than(&mut self) -> (r: Result<ExpressionToken, LexerError>)
        requires
            old(self).wf(),
            old(self).index() < old(self).text().len(),
            old(self).text()[old(self).index()] == '>',
        ensures
            final(self).wf(),
            final(self).text() == old(self).text(),
            final(self).peeked() == old(self).peeked(),
            expression_token_result(r) == compound_step(old(self).text(), old(self).index()).0,
            final(self).index() == compound_step(old(self).text(), old(self).index()).1,
    {
        self.bump();
        if self.current_char() == Some('=') {
            self.bump();
            Ok(ExpressionToken::GreaterThanOrEqual)
        } else {
            Ok(ExpressionToken::GreaterThan)
        }
    }

    fn lex_ampersand(&mut self) -> (r: Result<ExpressionToken, LexerError>)
        requires
            old(self).wf(),
            old(self).index() < old(self).text().len(),
            old(self).text()[old(self).index()] == '&',
        ensures
            final(self).wf(),
            final(self).text() == old(self).text(),
            final(self).peeked() == old(self).peeked(),
            expression_token_result(r) == compound_step(old(self).text(), old(self).index()).0,
            final(self).index() == compound_step(old(self).text(), old(self).index()).1,
    {
        proof {
            assert(utf8_width('&') == 1);
            lemma_utf8_len_step(self.text@, self.index as int);
        }
        self.bump();
        if self.current_char() == Some('&') {
            self.bump();
            Ok(ExpressionToken::And)
        } else {
            Err(LexerError::UnexpectedChar('&', self.pos - 1))
        }
    }

    fn lex_pipe(&mut self) -> (r: Result<ExpressionToken, LexerError>)
        requires
            old(self).wf(),
            old(self).index() < old(self).text().len(),
            old(self).text()[old(self).index()] == '|',
        ensures
            final(self).wf(),
            final(self).text() == old(self).text(),
            final(self).peeked() == old(self).peeked(),
            expression_token_result(r) == compound_step(old(self).text(), old(self).index()).0,
            final(self).index() == compound_step(old(self).text(), old(self).index()).1,
    {
        proof {
            assert(utf8_width('|') == 1);
            lemma_utf8_len_step(self.text@, self.index as int);
        }
        self.bump();
        if self.current_char() == Some('|') {
            self.bump();
            Ok(ExpressionToken::Or)
        } else {
            Err(LexerError::UnexpectedChar('|', self.pos - 1))
        }
    }

    /// Lexes a single-quoted string literal, in which `''` stands for one quote.
    fn lex_string(&mut self) -> (r: Result<ExpressionToken, LexerError>)
        requires
            old(self).wf(),
            old(self).index() < old(self).text().len(),
            old(self).text()[old(self).index()] == '\x27',
        ensures
            final(self).wf(),
            final(self).text() == old(self).text(),
            final(self).peeked() == old(self).peeked(),
            expression_token_result(r) == spec_string(old(self).text(), old(self).index()).0,
            final(self).index() == spec_string(old(self).text(), old(self).index()).1,
    {
        let ghost q = self.index as int;
        let start = self.pos;
        self.bump();

        let mut value = String::new();
        proof {
            assert(value@ + Seq::<char>::empty() =~= value@);
            lemma_prepend_empty(scan_string(self.text@, q + 1));
        }

        loop
            invariant
                self.wf(),
                self.text@ == old(self).text@,
                self.peeked() == old(self).peeked(),
                0 <= q < self.text@.len(),
                q == old(self).index as int,
                self.text@[q] == '\x27',
                q < self.index,
                start == byte_offset(self.text@, q),
                scan_string(self.text@, q + 1) == prepend_scan(value@, scan_string(self.text@, self.index as int)),
            decreases self.text@.len() - self.index,
        {
            let ghost before = self.index as int;
            let ghost acc = value@;
            let chunk = match self.next_string_char(start) {
                Ok(chunk) => chunk,
                Err(e) => {
                    proof {
                        assert(scan_string(self.text@, self.index as int) is None);
                    }
                    return Err(e);
                },
            };
            match chunk {
                StringChunk::Char(c) => {
                    push_char(&mut value, c);
                    proof {
                        lemma_scan_step(self.text@, before, acc, c, self.index as int);
                    }
                },
                StringChunk::Terminated => {
                    proof {
                        assert(scan_string(self.text@, before) == Some((Seq::<char>::empty(), self.index as int)));
                        assert(acc + Seq::<char>::empty() =~= acc);
                    }
                    return Ok(ExpressionToken::String(value));
                },
            }
        }
    }

    fn next_string_char(&mut self, start: usize) -> (r: Result<StringChunk, LexerError>)
        requires
            old(self).wf(),
        ensures
            final(self).wf(),
            final(self).text() == old(self).text(),
            final(self).peeked() == old(self).peeked(),
            ({
                let s = old(self).text();
                let j = old(self).index();
                if j >= s.len() {
                    r == Err::<StringChunk, LexerError>(LexerError::UnterminatedString(start))
                        && final(self).index() == j
                } else if s[j] == '\x27' {
                    if j + 1 < s.len() && s[j + 1] == '\x27' {
                        r == Ok::<StringChunk, LexerError>(StringChunk::Char('\x27'))
                            && final(self).index() == j + 2
                    } else {
                        r == Ok::<StringChunk, LexerError>(StringChunk::Terminated)
                            && final(self).index() == j + 1
                    }
                } else {
                    r == Ok::<StringChunk, LexerError>(StringChunk::Char(s[j]))
                        && final(self).index() == j + 1
                }
            }),
    {
        let ch = match self.current_char() {
            Some(ch) => ch,
            None => return Err(LexerError::UnterminatedString(start)),
        };

        if ch == '\x27' {
            self.bump();
            if self.current_char() == Some('\x27') {
                self.bump();
                Ok(StringChunk::Char('\x27'))
            } else {
                Ok(StringChunk::Terminated)
            }
        } else {
            self.bump();
            Ok(StringChunk::Char(ch))
        }
    }

    /// Lexes a number literal: an integer, or a fraction when a `.` is
    /// followed by a digit.
    fn lex_number(&mut self) -> (r: Result<ExpressionToken, LexerError>)
        requires
            old(self).wf(),
            old(self).index() < old(self).text().len(),
            number_starts(old(self).text(), old(self).index()),
        ensures
            final(self).wf(),
            final(self).text() == old(self).text(),
            final(self).peeked() == old(self).peeked(),
            expression_token_result(r) == spec_number(old(self).text(), old(self).index()).0,
            final(self).index() == spec_number(old(self).text(), old(self).index()).1,
    {
        let ghost s = self.text@;
        let ghost i = self.index as int;
        let start = self.pos;
        let mut num_str = String::new();
        if self.current_char() == Some('-') {
            push_char(&mut num_str, '-');
            self.bump();
        }
        proof {
            assert(num_str@ =~= s.subrange(i, self.index as int));
        }
        let ghost j = self.index as int;
        self.consume_digits(&mut num_str);
        let ghost k = self.index as int;
        proof {
            lemma_digits_end_bounds(s, j);
            assert(num_str@ =~= s.subrange(i, k));
        }
        let is_float = self.consume_fractional_part(&mut num_str);
        proof {
            if is_float {
                lemma_digits_end_bounds(s, k + 1);
                assert(num_str@ =~= s.subrange(i, self.index as int));
            }
            if !is_float {
                let t = s.subrange(i, k);
                let d = int_digits(t);
                assert(d =~= s.subrange(j, k));
                assert forall|m: int| 0 <= m < d.len() implies is_digit(#[trigger] d[m]) by {
                    assert(d[m] == s[j + m]);
                }
            }
        }
        Self::parse_number_token(num_str.as_str(), is_float, start)
    }

    fn consume_digits(&mut self, num_str: &mut String)
        requires
            old(self).wf(),
        ensures
            final(self).wf(),
            final(self).text() == old(self).text(),
            final(self).peeked() == old(self).peeked(),
            final(self).index() == digits_end(old(self).text(), old(self).index()),
            final(num_str)@ == old(num_str)@ + old(self).text().subrange(old(self).index(), final(self).index()),
    {
        let ghost i = self.index as int;
        proof {
            assert(num_str@ =~= old(num_str)@ + self.text@.subrange(i, i));
        }
        while self.index < self.text.len() && digit_char(self.text[self.index])
            invariant
                self.wf(),
                self.text@ == old(self).text@,
                self.peeked() == old(self).peeked(),
                0 <= i <= self.index,
                digits_end(self.text@, i) == digits_end(self.text@, self.index as int),
                num_str@ == old(num_str)@ + self.text@.subrange(i, self.index as int),
            decreases self.text@.len() - self.index,
        {
            let c = self.text[self.index];
            let ghost prev = num_str@;
            let ghost idx = self.index as int;
            push_char(num_str, c);
            self.bump();
            assert(self.index as int == idx + 1);
            assert(idx < self.text@.len());
            assert(c == self.text@[idx]);
            assert(i <= idx);
            assert(num_str@ == prev.push(c));
            assert(self.text@.subrange(i, idx + 1) =~= self.text@.subrange(i, idx).push(c));
            assert(num_str@ =~= old(num_str)@ + self.text@.subrange(i, self.index as int));
        }
    }

    fn consume_fractional_part(&mut self, num_str: &mut String) -> (r: bool)
        requires
            old(self).wf(),
        ensures
            final(self).wf(),
            final(self).text() == old(self).text(),
            final(self).peeked() == old(self).peeked(),
            ({
                let s = old(self).text();
                let k = old(self).index();
                if k + 1 < s.len() && s[k] == '.' && is_digit(s[k + 1]) {
                    &&& r
                    &&& final(self).index() == digits_end(s, k + 1)
                    &&& final(num_str)@ == old(num_str)@ + s.subrange(k, final(self).index())
                } else {
                    &&& !r
                    &&& final(self).index() == k
                    &&& final(num_str)@ == old(num_str)@
                }
            }),
    {
        if self.current_char() == Some('.') && self.peek_is_digit() {
            let ghost k = self.index as int;
            let ghost before = num_str@;
            push_char(num_str, '.');
            self.bump();
            self.consume_digits(num_str);
            proof {
                lemma_digits_end_bounds(self.text@, k + 1);
                assert(self.text@.subrange(k, self.index as int) =~= seq!['.'] + self.text@.subrange(k + 1, self.index as int));
                assert(num_str@ =~= before + self.text@.subrange(k, self.index as int));
            }
            true
        } else {
            false
        }
    }

    fn parse_number_token(num_str: &str, is_float: bool, start: usize) -> (r: Result<ExpressionToken, LexerError>)
        requires
            !is_float ==> is_int_text(num_str@),
        ensures
            is_float ==> expression_token_result(r) == Ok::<TokenModel, LexerError>(TokenModel::Float(num_str@)),
            !is_float ==> expression_token_result(r) == if i64::MIN <= int_text_value(num_str@) <= i64::MAX {
                Ok::<TokenModel, LexerError>(TokenModel::Int(int_text_value(num_str@)))
            } else {
                Err::<TokenModel, LexerError>(LexerError::IntegerOutOfRange(start))
            },
    {
        if is_float {
            Ok(ExpressionToken::Float(FloatLiteral::new(owned(num_str))))
        } else {
            let digits = chars_of(num_str);
            if int_text_fits(&digits) {
                Ok(ExpressionToken::Integer(parse_int_text(&digits)))
            } else {
                Err(LexerError::IntegerOutOfRange(start))
            }
        }
    }

    /// Lexes an identifier, `[a-zA-Z_][a-zA-Z0-9_-]*`, or one of the keywords
    /// `true`, `false` and `null`.
    fn lex_ident_or_keyword(&mut self) -> (r: Result<ExpressionToken, LexerError>)
        requires
            old(self).wf(),
            old(self).index() < old(self).text().len(),
        ensures
            final(self).wf(),
            final(self).text() == old(self).text(),
            final(self).peeked() == old(self).peeked(),
            expression_token_result(r) == spec_word(old(self).text(), old(self).index()).0,
            final(self).index() == spec_word(old(self).text(), old(self).index()).1,
    {
        let ghost i = self.index as int;
        let mut ident = String::new();
        push_char(&mut ident, self.text[self.index]);
        self.bump();
        proof {
            assert(ident@ =~= self.text@.subrange(i, self.index as int));
        }

        while self.index < self.text.len() && (alnum_char(self.text[self.index]) || self.text[self.index] == '_' || self.text[self.index] == '-')
            invariant
                self.wf(),
                self.text@ == old(self).text@,
                self.peeked() == old(self).peeked(),
                0 <= i < self.index,
                ident_end(self.text@, i + 1) == ident_end(self.text@, self.index as int),
                ident@ == self.text@.subrange(i, self.index as int),
            decreases self.text@.len() - self.index,
        {
            push_char(&mut ident, self.text[self.index]);
            self.bump();
            assert(ident@ =~= self.text@.subrange(i, self.index as int));
        }

        proof {
            reveal_strlit("true");
            reveal_strlit("false");
            reveal_strlit("null");
            assert("true"@ =~= seq!['t', 'r', 'u', 'e']);
            assert("false"@ =~= seq!['f', 'a', 'l', 's', 'e']);
            assert("null"@ =~= seq!['n', 'u', 'l', 'l']);
        }
        if same_text(ident.as_str(), "true") {
            Ok(ExpressionToken::Boolean(true))
        } else if same_text(ident.as_str(), "false") {
            Ok(ExpressionToken::Boolean(false))
        } else if same_text(ident.as_str(), "null") {
            Ok(ExpressionToken::Null)
        } else {
            Ok(ExpressionToken::Identifier(ident))
        }
    }

    /// Advances past ASCII whitespace.
    fn skip_whitespace(&mut self)
        requires
            old(self).wf(),
        ensures
            final(self).wf(),
            final(self).text() == old(self).text(),
            final(self).peeked() == old(self).peeked(),
            final(self).index() == skip_space(old(self).text(), old(self).index()),
    {
        while self.index < self.text.len() && space_char(self.text[self.index])
            invariant
                self.wf(),
                self.text@ == old(self).text@,
                self.peeked() == old(self).peeked(),
                skip_space(self.text@, old(self).index as int) == skip_space(self.text@, self.index as int),
            decreases self.text@.len() - self.index,
        {
            self.bump();
        }
    }

    /// The current character, if any.
    fn current_char(&self) -> (r: Option<char>)
        ensures
            r == if self.index() < self.text().len() { Some(self.text()[self.index()]) } else { None::<char> },
    {
        if self.index < self.text.len() {
            Some(self.text[self.index])
        } else {
            None
        }
    }

    /// The character after the current one, if any.
    fn peek_next_char(&self) -> (r: Option<char>)
        ensures
            r == if self.index() + 1 < self.text().len() { Some(self.text()[self.index() + 1]) } else { None::<char> },
    {
        if self.index < self.text.len() && self.index + 1 < self.text.len() {
            Some(self.text[self.index + 1])
        } else {
            None
        }
    }

    /// Consumes the current character, if any.
    fn bump(&mut self)
        requires
            old(self).wf(),
        ensures
            final(self).wf(),
            final(self).text() == old(self).text(),
            final(self).peeked() == old(self).peeked(),
            final(self).index() == if old(self).index() < old(self).text().len() { old(self).index() + 1 } else { old(self).index() },
    {
        if self.index < self.text.len() {
            let ch = self.text[self.index];
            proof {
                lemma_utf8_len_step(self.text@, self.index as int);
                lemma_utf8_len_prefix(self.text@, self.index + 1);
            }
            self.pos = self.pos + char_width(ch);
            self.index = self.index + 1;
        }
    }
}

} // verus!
