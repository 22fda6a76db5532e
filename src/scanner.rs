use vstd::prelude::*;

use substring::Substring;

use crate::chars::{decode, is_alpha, is_alphanumeric, is_digit};
use crate::error::{ErrorKind, ErrorView, ScanError, errors_view};
use crate::keywords::keyword;
use crate::lexical::{
    lemma_count_newlines_step, lemma_lex_unfold, count_newlines, digits_end, lex, line_end, number_end, opt_seq, quote_end, scan, scan_errors,
    scan_line, step, tokens_from, word_end, end_token,
};
use crate::token::{Literal, Token, TokenType, TokenView};

verus! {

/// Relies on `substring::Substring::substring` for `str`: given character
/// indices `start <= end` within the text, it returns the characters from
/// `start` up to, not including, `end`.
#[verifier::external_body]
fn slice_chars(text: &String, start: usize, end: usize) -> (r: String)
    requires
        start <= end <= text@.len(),
    ensures
        r@ == text@.subrange(start as int, end as int),
{
    text.as_str().substring(start, end).to_owned()
}

pub open spec fn tokens_view(v: Seq<Token>) -> Seq<TokenView> {
    v.map_values(|t: Token| t@)
}

pub open spec fn token_opt_view(t: Option<Token>) -> Option<TokenView> {
    match t {
        Some(t) => Some(t@),
        None => None,
    }
}

/// Turns source text into tokens, collecting lexical errors on the way.
pub struct Scanner {
    source: String,
    chars: Vec<char>,
    tokens: Vec<Token>,
    errors: Vec<ScanError>,
    start: usize,
    current: usize,
    line: usize,
}

impl Scanner {
    /// The source text, as characters.
    pub closed spec fn text(&self) -> Seq<char> {
        self.chars@
    }

    /// Index of the next character to be read.
    pub closed spec fn position(&self) -> int {
        self.current as int
    }

    pub closed spec fn line_count(&self) -> int {
        self.line as int
    }

    pub closed spec fn emitted(&self) -> Seq<TokenView> {
        tokens_view(self.tokens@)
    }

    pub closed spec fn recorded(&self) -> Seq<ErrorView> {
        errors_view(self.errors@)
    }

    pub closed spec fn wf(&self) -> bool {
        &&& self.chars@ == self.source@
        &&& self.start <= self.current <= self.chars@.len()
        &&& self.chars@.len() < usize::MAX
        &&& self.line <= self.current + 1
    }

    /// Nothing scanned yet.
    pub open spec fn is_fresh(&self) -> bool {
        &&& self.position() == 0
        &&& self.line_count() == 1
        &&& self.emitted().len() == 0
        &&& self.recorded().len() == 0
    }

    pub fn from_source(source: String) -> (r: Scanner)
        requires
            source@.len() < usize::MAX,
        ensures
            r.wf(),
            r.text() == source@,
            r.is_fresh(),
    {
        let chars = decode(source.as_str());
        let r = Scanner {
            source,
            chars,
            tokens: Vec::new(),
            errors: Vec::new(),
            start: 0,
            current: 0,
            line: 1,
        };
        assert(r.emitted() =~= Seq::empty());
        assert(r.recorded() =~= Seq::empty());
        r
    }

    pub fn is_at_end(&self) -> (r: bool)
        ensures
            r == (self.position() >= self.text().len()),
    {
        self.current >= self.chars.len()
    }

    /// The current line number.
    pub fn line(&self) -> (r: usize)
        ensures
            r == self.line_count(),
    {
        self.line
    }

    /// The tokens emitted so far.
    pub fn tokens(&self) -> (r: &Vec<Token>)
        ensures
            tokens_view(r@) == self.emitted(),
    {
        &self.tokens
    }

    /// The errors recorded so far.
    pub fn errors(&self) -> (r: &Vec<ScanError>)
        ensures
            errors_view(r@) == self.recorded(),
    {
        &self.errors
    }

    /// Whether any error was recorded.
    pub fn had_error(&self) -> (r: bool)
        ensures
            r == (self.recorded().len() > 0),
    {
        self.errors.len() > 0
    }

    /// Returns the current character and moves past it.
    fn advance(&mut self) -> (r: char)
        requires
            old(self).wf(),
            old(self).current < old(self).chars@.len(),
        ensures
            r == old(self).chars@[old(self).current as int],
            *final(self) == (Scanner { current: (old(self).current + 1) as usize, ..*old(self) }),
    {
        let c = self.chars[self.current];
        self.current = self.current + 1;
        c
    }

    /// The current character, or `'\0'` at the end.
    fn peek(&self) -> (r: char)
        requires
            self.wf(),
        ensures
            self.current < self.chars@.len() ==> r == self.chars@[self.current as int],
            self.current >= self.chars@.len() ==> r == '\0',
    {
        if self.is_at_end() {
            return '\0';
        }
        self.chars[self.current]
    }

    /// The character after the current one, or `'\0'` past the end.
    fn peek_next(&self) -> (r: char)
        requires
            self.wf(),
        ensures
            self.current + 1 < self.chars@.len() ==> r == self.chars@[self.current + 1],
            self.current + 1 >= self.chars@.len() ==> r == '\0',
    {
        if self.current + 1 >= self.chars.len() {
            return '\0';
        }
        self.chars[self.current + 1]
    }

    /// Consumes the current character when it is `expected`.
    fn matches(&mut self, expected: char) -> (r: bool)
        requires
            old(self).wf(),
        ensures
            r == (old(self).current < old(self).chars@.len() && old(self).chars@[old(
                self,
            ).current as int] == expected),
            r ==> *final(self) == (Scanner {
                current: (old(self).current + 1) as usize,
                ..*old(self)
            }),
            !r ==> *final(self) == *old(self),
    {
        if self.is_at_end() {
            return false;
        }
        if self.chars[self.current] != expected {
            return false;
        }
        self.current = self.current + 1;
        true
    }

    /// A token of the text from `start` to `current`.
    fn make_token(&self, token_type: TokenType, literal: Option<Literal>) -> (r: Token)
        requires
            self.wf(),
        ensures
            r@ == (TokenView {
                kind: token_type,
                lexeme: self.chars@.subrange(self.start as int, self.current as int),
                literal: crate::token::literal_view(literal),
                line: self.line as int,
            }),
    {
        let text = slice_chars(&self.source, self.start, self.current);
        Token::new(token_type, text, literal, self.line)
    }

    fn record(&mut self, kind: ErrorKind)
        requires
            old(self).wf(),
        ensures
            *final(self) == (Scanner {
                errors: final(self).errors,
                ..*old(self)
            }),
            final(self).recorded() == old(self).recorded().push(
                ErrorView { line: old(self).line as int, kind },
            ),
    {
        let e = ScanError { line: self.line, kind };
        self.errors.push(e);
        assert(self.recorded() =~= old(self).recorded().push(e@));
    }
    /// Scans a string literal whose opening quote was just consumed.
    fn string(&mut self) -> (r: Option<Token>)
        requires
            old(self).wf(),
            old(self).current == old(self).start + 1,
            old(self).chars@[old(self).start as int] == '"',
        ensures
            final(self).wf(),
            final(self).source == old(self).source,
            final(self).chars == old(self).chars,
            final(self).tokens == old(self).tokens,
            final(self).start == old(self).start,
            old(self).start < final(self).current,
            ({
                let s = step(old(self).chars@, old(self).start as int, old(self).line as int);
                &&& final(self).current == s.next
                &&& final(self).line == s.line
                &&& token_opt_view(r) == s.token
                &&& final(self).recorded() == old(self).recorded() + opt_seq(s.error)
            }),
    {
        let ghost src = self.chars@;
        let ghost a = self.start as int + 1;
        let ghost line0 = self.line as int;
        assert(src.subrange(a, a) =~= Seq::<char>::empty());
        while self.peek() != '"' && !self.is_at_end()
            invariant
                self.wf(),
                self.chars@ == src,
                self.start + 1 == a,
                a <= self.current <= src.len(),
                quote_end(src, self.current as int) == quote_end(src, a),
                self.line == line0 + count_newlines(src.subrange(a, self.current as int)),
                self.source == old(self).source,
                self.chars == old(self).chars,
                self.tokens == old(self).tokens,
                self.errors == old(self).errors,
            decreases src.len() - self.current,
        {
            proof {
                lemma_count_newlines_step(src, a, self.current as int);
            }
            let c = self.advance();
            if c == '\n' {
                self.line = self.line + 1;
            }
        }
        let ghost q = self.current as int;
        assert(quote_end(src, q) == q);
        if self.is_at_end() {
            self.record(ErrorKind::UnterminatedString);
            assert(opt_seq(Some(ErrorView { line: self.line as int, kind: ErrorKind::UnterminatedString }))
                =~= seq![ErrorView { line: self.line as int, kind: ErrorKind::UnterminatedString }]);
            return None;
        }
        self.advance();
        let value = slice_chars(&self.source, self.start + 1, self.current - 1);
        let t = self.make_token(TokenType::String, Some(Literal::String(value)));
        assert(old(self).recorded() + opt_seq(None::<ErrorView>) =~= old(self).recorded());
        Some(t)
    }

    /// Consumes a run of digits.
    fn digits(&mut self)
        requires
            old(self).wf(),
        ensures
            final(self).current as int == digits_end(old(self).chars@, old(self).current as int),
            final(self).wf(),
            old(self).current <= final(self).current,
            *final(self) == (Scanner {
                current: digits_end(old(self).chars@, old(self).current as int) as usize,
                ..*old(self)
            }),
    {
        let ghost c0 = self.current as int;
        while is_digit(self.peek())
            invariant
                self.wf(),
                c0 <= self.current,
                digits_end(self.chars@, self.current as int) == digits_end(old(self).chars@, c0),
                *self == (Scanner { current: self.current, ..*old(self) }),
            decreases self.chars@.len() - self.current,
        {
            self.advance();
        }
    }

    /// Scans a number whose first digit was just consumed.
    fn number(&mut self) -> (r: Token)
        requires
            old(self).wf(),
            old(self).current == old(self).start + 1,
        ensures
            final(self).current as int == number_end(old(self).chars@, old(self).current as int),
            final(self).wf(),
            old(self).current <= final(self).current,
            *final(self) == (Scanner {
                current: number_end(old(self).chars@, old(self).current as int) as usize,
                ..*old(self)
            }),
            r@ == (TokenView {
                kind: TokenType::Number,
                lexeme: old(self).chars@.subrange(
                    old(self).start as int,
                    final(self).current as int,
                ),
                literal: Some(
                    crate::token::LiteralView::Number(
                        old(self).chars@.subrange(
                            old(self).start as int,
                            final(self).current as int,
                        ),
                    ),
                ),
                line: old(self).line as int,
            }),
    {
        self.digits();
        if self.peek() == '.' && is_digit(self.peek_next()) {
            self.advance();
            assert(digits_end(self.chars@, self.current as int) == digits_end(
                self.chars@,
                self.current + 1,
            ));
            self.digits();
        }
        let text = slice_chars(&self.source, self.start, self.current);
        self.make_token(TokenType::Number, Some(Literal::Number(text)))
    }

    /// Scans an identifier or reserved word whose first letter was just
    /// consumed.
    fn identifier(&mut self) -> (r: Token)
        requires
            old(self).wf(),
            old(self).current == old(self).start + 1,
        ensures
            final(self).current as int == word_end(old(self).chars@, old(self).current as int),
            final(self).wf(),
            old(self).current <= final(self).current,
            *final(self) == (Scanner {
                current: word_end(old(self).chars@, old(self).current as int) as usize,
                ..*old(self)
            }),
            r@ == crate::lexical::plain_token(
                old(self).chars@,
                old(self).start as int,
                final(self).current as int,
                match crate::keywords::keyword_of(
                    old(self).chars@.subrange(old(self).start as int, final(self).current as int),
                ) {
                    Some(k) => k,
                    None => TokenType::Identifier,
                },
                old(self).line as int,
            ),
    {
        let ghost c0 = self.current as int;
        while is_alphanumeric(self.peek())
            invariant
                self.wf(),
                c0 <= self.current,
                word_end(self.chars@, self.current as int) == word_end(old(self).chars@, c0),
                *self == (Scanner { current: self.current, ..*old(self) }),
            decreases self.chars@.len() - self.current,
        {
            self.advance();
        }
        let kind = match keyword(&self.chars, self.start, self.current) {
            Some(k) => k,
            None => TokenType::Identifier,
        };
        self.make_token(kind, None)
    }

    /// Skips a line comment whose two slashes were just consumed.
    fn comment(&mut self)
        requires
            old(self).wf(),
        ensures
            final(self).current as int == line_end(old(self).chars@, old(self).current as int),
            final(self).wf(),
            old(self).current <= final(self).current,
            *final(self) == (Scanner {
                current: line_end(old(self).chars@, old(self).current as int) as usize,
                ..*old(self)
            }),
    {
        let ghost c0 = self.current as int;
        while self.peek() != '\n' && !self.is_at_end()
            invariant
                self.wf(),
                c0 <= self.current,
                line_end(self.chars@, self.current as int) == line_end(old(self).chars@, c0),
                *self == (Scanner { current: self.current, ..*old(self) }),
            decreases self.chars@.len() - self.current,
        {
            self.advance();
        }
    }
    /// Scans one lexeme from the current position: returns its token, if it
    /// makes one, and records its error, if it is one.
    pub(crate) fn scan_token(&mut self) -> (r: Option<Token>)
        requires
            old(self).wf(),
            old(self).position() < old(self).text().len(),
        ensures
            final(self).wf(),
            final(self).text() == old(self).text(),
            final(self).emitted() == old(self).emitted(),
            old(self).position() < final(self).position() <= final(self).text().len(),
            final(self).position() == step(old(self).text(), old(self).position(), old(self).line_count()).next,
            final(self).line_count() == step(old(self).text(), old(self).position(), old(self).line_count()).line,
            token_opt_view(r) == step(old(self).text(), old(self).position(), old(self).line_count()).token,
            final(self).recorded() == old(self).recorded() + opt_seq(
                step(old(self).text(), old(self).position(), old(self).line_count()).error,
            ),
    {
        let ghost src = self.chars@;
        let ghost pos = self.current as int;
        let ghost line0 = self.line as int;
        assert(old(self).recorded() + opt_seq(None::<ErrorView>) =~= old(self).recorded());
        self.start = self.current;
        let c = self.advance();
        assert(self.current == pos + 1);
        assert(c == src[pos]);
        match c {
            '(' => Some(self.make_token(TokenType::LeftParen, None)),
            ')' => Some(self.make_token(TokenType::RightParen, None)),
            '{' => Some(self.make_token(TokenType::LeftBrace, None)),
            '}' => Some(self.make_token(TokenType::RightBrace, None)),
            ',' => Some(self.make_token(TokenType::Comma, None)),
            '.' => Some(self.make_token(TokenType::Dot, None)),
            '-' => Some(self.make_token(TokenType::Minus, None)),
            '+' => Some(self.make_token(TokenType::Plus, None)),
            ';' => Some(self.make_token(TokenType::Semicolon, None)),
            '*' => Some(self.make_token(TokenType::Star, None)),
            '!' => {
                let kind = if self.matches('=') {
                    TokenType::BangEqual
                } else {
                    TokenType::Bang
                };
                Some(self.make_token(kind, None))
            },
            '=' => {
                let kind = if self.matches('=') {
                    TokenType::EqualEqual
                } else {
                    TokenType::Equal
                };
                Some(self.make_token(kind, None))
            },
            '<' => {
                let kind = if self.matches('=') {
                    TokenType::LessEqual
                } else {
                    TokenType::Less
                };
                Some(self.make_token(kind, None))
            },
            '>' => {
                let kind = if self.matches('=') {
                    TokenType::GreaterEqual
                } else {
                    TokenType::Greater
                };
                Some(self.make_token(kind, None))
            },
            '/' => {
                if self.matches('/') {
                    self.comment();
                    None
                } else {
                    Some(self.make_token(TokenType::Slash, None))
                }
            },
            ' ' | '\r' | '\t' => None,
            '\n' => {
                self.line = self.line + 1;
                None
            },
            '"' => self.string(),
            _ => {
                if is_digit(c) {
                    Some(self.number())
                } else if is_alpha(c) {
                    Some(self.identifier())
                } else {
                    self.record(ErrorKind::UnexpectedCharacter);
                    assert(opt_seq(Some(ErrorView { line: line0, kind: ErrorKind::UnexpectedCharacter }))
                        =~= seq![ErrorView { line: line0, kind: ErrorKind::UnexpectedCharacter }]);
                    None
                }
            },
        }
    }
    /// Scans from the current position to the end of the text, appends the
    /// tokens found and then the end marker, and records the errors met.
    pub fn scan_tokens(&mut self) -> (r: &Vec<Token>)
        requires
            old(self).wf(),
        ensures
            final(self).wf(),
            final(self).text() == old(self).text(),
            final(self).position() == final(self).text().len(),
            final(self).emitted() == old(self).emitted() + tokens_from(
                old(self).text(),
                old(self).position(),
                old(self).line_count(),
            ),
            final(self).recorded() == old(self).recorded() + lex(
                old(self).text(),
                old(self).position(),
                old(self).line_count(),
            ).errors,
            final(self).line_count() == lex(
                old(self).text(),
                old(self).position(),
                old(self).line_count(),
            ).line,
            old(self).is_fresh() ==> final(self).emitted() == scan(old(self).text()),
            old(self).is_fresh() ==> final(self).recorded() == scan_errors(old(self).text()),
            old(self).is_fresh() ==> final(self).line_count() == scan_line(old(self).text()),
            tokens_view(r@) == final(self).emitted(),
    {
        let ghost src = self.chars@;
        let ghost want = old(self).emitted() + tokens_from(src, self.current as int, self.line as int);
        let ghost want_errors = old(self).recorded() + lex(src, self.current as int, self.line as int).errors;
        let ghost last_line = lex(src, self.current as int, self.line as int).line;
        assert(old(self).emitted() + tokens_from(src, self.current as int, self.line as int) =~= want);
        while !self.is_at_end()
            invariant
                self.wf(),
                self.chars@ == src,
                self.emitted() + tokens_from(src, self.current as int, self.line as int) == want,
                self.recorded() + lex(src, self.current as int, self.line as int).errors == want_errors,
                lex(src, self.current as int, self.line as int).line == last_line,
            decreases src.len() - self.current,
        {
            let ghost before = *self;
            let t = self.scan_token();
            proof {
                lemma_lex_unfold(src, before.current as int, before.line as int);
            }
            match t {
                Some(tok) => {
                    self.tokens.push(tok);
                    assert(self.emitted() =~= before.emitted() + seq![tok@]);
                },
                None => {},
            }
            assert(self.emitted() + tokens_from(src, self.current as int, self.line as int) =~= want);
            assert(self.recorded() + lex(src, self.current as int, self.line as int).errors
                =~= want_errors);
        }
        let end = Token::new(TokenType::End, String::new(), None, self.line);
        let ghost before = *self;
        self.tokens.push(end);
        assert(end@ == end_token(self.line as int));
        assert(self.emitted() =~= before.emitted() + seq![end@]);
        assert(self.emitted() =~= want);
        assert(self.recorded() =~= want_errors);
        &self.tokens
    }
}

} // verus!
