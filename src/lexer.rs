use vstd::prelude::*;

use crate::error::{ErrorView, ScanError, errors_view};
use crate::lexical::{end_token, lemma_lex_unfold, lex, scan, tokens_from};
use crate::scanner::Scanner;
use crate::token::{Token, TokenType, TokenView};

verus! {

/// Hands out the tokens of a source text one at a time, on demand.
///
/// Once the text is exhausted every further request yields the end marker
/// again.
pub struct Lexer {
    scanner: Scanner,
}

impl Lexer {
    pub closed spec fn wf(&self) -> bool {
        &&& self.scanner.wf()
        &&& 0 <= self.scanner.position() <= self.scanner.text().len()
    }

    /// The source text, as characters.
    pub closed spec fn text(&self) -> Seq<char> {
        self.scanner.text()
    }

    pub closed spec fn position(&self) -> int {
        self.scanner.position()
    }

    pub closed spec fn line_count(&self) -> int {
        self.scanner.line_count()
    }

    /// The errors recorded so far.
    pub closed spec fn recorded(&self) -> Seq<ErrorView> {
        self.scanner.recorded()
    }

    /// The tokens that the coming requests yield, closed by the end marker.
    pub open spec fn pending(&self) -> Seq<TokenView> {
        tokens_from(self.text(), self.position(), self.line_count())
    }

    /// The errors that the text still holds beyond the current position.
    pub open spec fn pending_errors(&self) -> Seq<ErrorView> {
        lex(self.text(), self.position(), self.line_count()).errors
    }

    pub fn new(input: String) -> (r: Lexer)
        requires
            input@.len() < usize::MAX,
        ensures
            r.wf(),
            r.text() == input@,
            r.pending() == scan(input@),
            r.recorded().len() == 0,
            r.pending_errors() == crate::lexical::scan_errors(input@),
    {
        Lexer { scanner: Scanner::from_source(input) }
    }

    /// Whether the whole text has been read.
    pub fn is_at_end(&self) -> (r: bool)
        ensures
            r == (self.position() >= self.text().len()),
    {
        self.scanner.is_at_end()
    }

    /// The errors recorded so far.
    pub fn errors(&self) -> (r: &Vec<ScanError>)
        ensures
            errors_view(r@) == self.recorded(),
    {
        self.scanner.errors()
    }

    /// The next token; the end marker once the text is exhausted.
    pub fn next_token(&mut self) -> (r: Token)
        requires
            old(self).wf(),
        ensures
            final(self).wf(),
            final(self).text() == old(self).text(),
            r@ == old(self).pending()[0],
            final(self).pending() == if old(self).pending().len() > 1 {
                old(self).pending().drop_first()
            } else {
                old(self).pending()
            },
            final(self).recorded() + final(self).pending_errors() == old(self).recorded()
                + old(self).pending_errors(),
    {
        let ghost src = old(self).text();
        assert(old(self).recorded() + old(self).pending_errors() =~= self.recorded()
            + self.pending_errors());
        loop
            invariant
                self.wf(),
                self.text() == src,
                src == old(self).text(),
                self.pending() == old(self).pending(),
                self.recorded() + self.pending_errors() == old(self).recorded()
                    + old(self).pending_errors(),
            decreases src.len() - self.position(),
        {
            if self.scanner.is_at_end() {
                let line = self.scanner.line();
                assert(self.pending() =~= seq![end_token(line as int)]);
                return Token::new(TokenType::End, String::new(), None, line);
            }
            let ghost before = *self;
            let t = self.scanner.scan_token();
            proof {
                lemma_lex_unfold(src, before.position(), before.line_count());
            }
            assert(self.recorded() + self.pending_errors() =~= old(self).recorded()
                + old(self).pending_errors());
            match t {
                Some(tok) => {
                    assert(before.pending() =~= seq![tok@] + self.pending());
                    assert(self.pending() =~= before.pending().drop_first());
                    return tok;
                },
                None => {
                    assert(self.pending() =~= before.pending());
                },
            }
        }
    }
}

} // verus!
