use vstd::prelude::*;

use crate::chars::{is_alpha_spec, is_alphanumeric_spec, is_digit_spec};
use crate::error::{ErrorKind, ErrorView};
use crate::keywords::keyword_of;
use crate::token::{LiteralView, TokenType, TokenView};

verus! {

/// First index at or after `i` that does not hold a digit.
pub open spec fn digits_end(src: Seq<char>, i: int) -> int
    decreases src.len() - i,
{
    if 0 <= i < src.len() && is_digit_spec(src[i]) {
        digits_end(src, i + 1)
    } else {
        i
    }
}

/// First index at or after `i` that does not hold an identifier character.
pub open spec fn word_end(src: Seq<char>, i: int) -> int
    decreases src.len() - i,
{
    if 0 <= i < src.len() && is_alphanumeric_spec(src[i]) {
        word_end(src, i + 1)
    } else {
        i
    }
}

/// First index at or after `i` holding a newline, or the length.
pub open spec fn line_end(src: Seq<char>, i: int) -> int
    decreases src.len() - i,
{
    if 0 <= i < src.len() && src[i] != '\n' {
        line_end(src, i + 1)
    } else {
        i
    }
}

/// First index at or after `i` holding a double quote, or the length.
pub open spec fn quote_end(src: Seq<char>, i: int) -> int
    decreases src.len() - i,
{
    if 0 <= i < src.len() && src[i] != '"' {
        quote_end(src, i + 1)
    } else {
        i
    }
}

/// End of a number whose digits run on from `i`: an optional fraction is
/// taken only when a digit follows the dot.
pub open spec fn number_end(src: Seq<char>, i: int) -> int {
    let k = digits_end(src, i);
    if k + 1 < src.len() && src[k] == '.' && is_digit_spec(src[k + 1]) {
        digits_end(src, k + 2)
    } else {
        k
    }
}

pub open spec fn count_newlines(s: Seq<char>) -> int
    decreases s.len(),
{
    if s.len() == 0 {
        0
    } else {
        count_newlines(s.drop_last()) + if s.last() == '\n' {
            1int
        } else {
            0int
        }
    }
}

/// The kind of a one-character token that never extends.
pub open spec fn single_kind(c: char) -> Option<TokenType> {
    if c == '(' {
        Some(TokenType::LeftParen)
    } else if c == ')' {
        Some(TokenType::RightParen)
    } else if c == '{' {
        Some(TokenType::LeftBrace)
    } else if c == '}' {
        Some(TokenType::RightBrace)
    } else if c == ',' {
        Some(TokenType::Comma)
    } else if c == '.' {
        Some(TokenType::Dot)
    } else if c == '-' {
        Some(TokenType::Minus)
    } else if c == '+' {
        Some(TokenType::Plus)
    } else if c == ';' {
        Some(TokenType::Semicolon)
    } else if c == '*' {
        Some(TokenType::Star)
    } else {
        None
    }
}

/// For an operator that may be followed by `=`: its bare kind and its
/// compound kind.
pub open spec fn pair_kinds(c: char) -> Option<(TokenType, TokenType)> {
    if c == '!' {
        Some((TokenType::Bang, TokenType::BangEqual))
    } else if c == '=' {
        Some((TokenType::Equal, TokenType::EqualEqual))
    } else if c == '<' {
        Some((TokenType::Less, TokenType::LessEqual))
    } else if c == '>' {
        Some((TokenType::Greater, TokenType::GreaterEqual))
    } else {
        None
    }
}

/// The outcome of one lexeme attempt: where the cursor and the line counter
/// stand afterwards, and the token or the error it produced, if any.
pub ghost struct Step {
    pub next: int,
    pub line: int,
    pub token: Option<TokenView>,
    pub error: Option<ErrorView>,
}

pub open spec fn plain_token(src: Seq<char>, start: int, end: int, kind: TokenType, line: int) -> TokenView {
    TokenView { kind, lexeme: src.subrange(start, end), literal: None, line }
}

pub open spec fn emit(src: Seq<char>, start: int, end: int, kind: TokenType, line: int) -> Step {
    Step { next: end, line, token: Some(plain_token(src, start, end, kind, line)), error: None }
}

pub open spec fn skip(next: int, line: int) -> Step {
    Step { next, line, token: None, error: None }
}

pub open spec fn followed_by(src: Seq<char>, pos: int, c: char) -> bool {
    pos + 1 < src.len() && src[pos + 1] == c
}

/// One lexeme attempt starting at `pos`, with the line counter at `line`.
pub open spec fn step(src: Seq<char>, pos: int, line: int) -> Step {
    let c = src[pos];
    if single_kind(c) is Some {
        emit(src, pos, pos + 1, single_kind(c)->0, line)
    } else if pair_kinds(c) is Some {
        let (bare, compound) = pair_kinds(c)->0;
        if followed_by(src, pos, '=') {
            emit(src, pos, pos + 2, compound, line)
        } else {
            emit(src, pos, pos + 1, bare, line)
        }
    } else if c == '/' {
        if followed_by(src, pos, '/') {
            skip(line_end(src, pos + 2), line)
        } else {
            emit(src, pos, pos + 1, TokenType::Slash, line)
        }
    } else if c == ' ' || c == '\r' || c == '\t' {
        skip(pos + 1, line)
    } else if c == '\n' {
        skip(pos + 1, line + 1)
    } else if c == '"' {
        let q = quote_end(src, pos + 1);
        let l = line + count_newlines(src.subrange(pos + 1, q));
        if q >= src.len() {
            Step {
                next: src.len() as int,
                line: l,
                token: None,
                error: Some(ErrorView { line: l, kind: ErrorKind::UnterminatedString }),
            }
        } else {
            Step {
                next: q + 1,
                line: l,
                token: Some(
                    TokenView {
                        kind: TokenType::String,
                        lexeme: src.subrange(pos, q + 1),
                        literal: Some(LiteralView::Str(src.subrange(pos + 1, q))),
                        line: l,
                    },
                ),
                error: None,
            }
        }
    } else if is_digit_spec(c) {
        let e = number_end(src, pos + 1);
        Step {
            next: e,
            line,
            token: Some(
                TokenView {
                    kind: TokenType::Number,
                    lexeme: src.subrange(pos, e),
                    literal: Some(LiteralView::Number(src.subrange(pos, e))),
                    line,
                },
            ),
            error: None,
        }
    } else if is_alpha_spec(c) {
        let e = word_end(src, pos + 1);
        let kind = match keyword_of(src.subrange(pos, e)) {
            Some(k) => k,
            None => TokenType::Identifier,
        };
        emit(src, pos, e, kind, line)
    } else {
        Step {
            next: pos + 1,
            line,
            token: None,
            error: Some(ErrorView { line, kind: ErrorKind::UnexpectedCharacter }),
        }
    }
}

pub open spec fn opt_seq<T>(o: Option<T>) -> Seq<T> {
    match o {
        Some(x) => seq![x],
        None => Seq::empty(),
    }
}

/// What scanning from `pos` to the end produces: tokens and errors in order
/// of appearance, and the line counter at the end.
pub ghost struct Lexed {
    pub tokens: Seq<TokenView>,
    pub errors: Seq<ErrorView>,
    pub line: int,
}

/// Scans `src` from `pos`, with the line counter at `line`, up to the end.
pub open spec fn lex(src: Seq<char>, pos: int, line: int) -> Lexed
    decreases src.len() - pos,
{
    if 0 <= pos < src.len() {
        let s = step(src, pos, line);
        if pos < s.next <= src.len() {
            let rest = lex(src, s.next, s.line);
            Lexed {
                tokens: opt_seq(s.token) + rest.tokens,
                errors: opt_seq(s.error) + rest.errors,
                line: rest.line,
            }
        } else {
            Lexed { tokens: Seq::empty(), errors: Seq::empty(), line }
        }
    } else {
        Lexed { tokens: Seq::empty(), errors: Seq::empty(), line }
    }
}

/// The token that closes every scan.
pub open spec fn end_token(line: int) -> TokenView {
    TokenView { kind: TokenType::End, lexeme: Seq::empty(), literal: None, line }
}

/// The tokens still to come from `pos` on, closed by the end marker.
pub open spec fn tokens_from(src: Seq<char>, pos: int, line: int) -> Seq<TokenView> {
    let r = lex(src, pos, line);
    r.tokens.push(end_token(r.line))
}

/// The token sequence of a whole source text.
pub open spec fn scan(src: Seq<char>) -> Seq<TokenView> {
    tokens_from(src, 0, 1)
}

/// The lexical errors of a whole source text, in order of detection.
pub open spec fn scan_errors(src: Seq<char>) -> Seq<ErrorView> {
    lex(src, 0, 1).errors
}

/// The line counter after a whole source text has been scanned.
pub open spec fn scan_line(src: Seq<char>) -> int {
    lex(src, 0, 1).line
}

/// Counting newlines over a range grown by one character.
pub proof fn lemma_count_newlines_step(s: Seq<char>, a: int, c: int)
    requires
        0 <= a <= c < s.len(),
    ensures
        count_newlines(s.subrange(a, c + 1)) == count_newlines(s.subrange(a, c)) + if s[c]
            == '\n' {
            1int
        } else {
            0int
        },
{
    assert(s.subrange(a, c + 1).drop_last() =~= s.subrange(a, c));
}

/// One step of `lex`, unfolded.
pub proof fn lemma_lex_unfold(src: Seq<char>, pos: int, line: int)
    requires
        0 <= pos < src.len(),
        pos < step(src, pos, line).next <= src.len(),
    ensures
        ({
            let s = step(src, pos, line);
            &&& tokens_from(src, pos, line) == opt_seq(s.token) + tokens_from(src, s.next, s.line)
            &&& lex(src, pos, line).errors == opt_seq(s.error) + lex(src, s.next, s.line).errors
            &&& lex(src, pos, line).line == lex(src, s.next, s.line).line
        }),
{
    let s = step(src, pos, line);
    assert(tokens_from(src, pos, line) =~= opt_seq(s.token) + tokens_from(src, s.next, s.line));
}

/// No lexeme attempt produces the end marker.
pub proof fn lemma_lex_has_no_end(src: Seq<char>, pos: int, line: int)
    ensures
        forall|i: int|
            0 <= i < lex(src, pos, line).tokens.len() ==> #[trigger] lex(
                src,
                pos,
                line,
            ).tokens[i].kind != TokenType::End,
    decreases src.len() - pos,
{
    if 0 <= pos < src.len() {
        let s = step(src, pos, line);
        if pos < s.next <= src.len() {
            lemma_lex_has_no_end(src, s.next, s.line);
            let kw = keyword_of(src.subrange(pos, word_end(src, pos + 1)));
            assert(kw is Some ==> kw->0 != TokenType::End);
            assert(s.token is Some ==> s.token->0.kind != TokenType::End);
            let rest = lex(src, s.next, s.line);
            assert(lex(src, pos, line).tokens == opt_seq(s.token) + rest.tokens);
            assert forall|i: int| 0 <= i < lex(src, pos, line).tokens.len() implies #[trigger] lex(
                src,
                pos,
                line,
            ).tokens[i].kind != TokenType::End by {
                if s.token is Some && i == 0 {
                } else {
                    let j = if s.token is Some {
                        i - 1
                    } else {
                        i
                    };
                    assert(lex(src, pos, line).tokens[i] == rest.tokens[j]);
                }
            }
        }
    }
}

/// Every scan ends with the end marker, and the end marker appears nowhere
/// else in it.
pub proof fn lemma_scan_ends_once(src: Seq<char>)
    ensures
        scan(src).len() >= 1,
        scan(src).last().kind == TokenType::End,
        forall|i: int|
            0 <= i < scan(src).len() ==> (#[trigger] scan(src)[i].kind == TokenType::End <==> i
                == scan(src).len() - 1),
{
    lemma_lex_has_no_end(src, 0, 1);
    let body = lex(src, 0, 1).tokens;
    assert forall|i: int| 0 <= i < scan(src).len() implies (#[trigger] scan(src)[i].kind
        == TokenType::End <==> i == scan(src).len() - 1) by {
        if i < body.len() {
            assert(scan(src)[i] == body[i]);
        }
    }
}

/// Scanning depends on the text alone: two scans of the same text yield the
/// same tokens, the same errors and the same final line.
pub proof fn lemma_scan_repeatable(a: Seq<char>, b: Seq<char>)
    requires
        a == b,
    ensures
        scan(a) == scan(b),
        scan_errors(a) == scan_errors(b),
        scan_line(a) == scan_line(b),
{
}

} // verus!
