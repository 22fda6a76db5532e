use vstd::prelude::*;

verus! {

/// The kind of a token: punctuation, operators, literal classes, reserved
/// words, and the end marker that closes every scan.
#[derive(Clone, Copy, Debug, PartialEq, Eq, Structural)]
pub enum TokenType {
    LeftParen,
    RightParen,
    LeftBrace,
    RightBrace,
    Comma,
    Dot,
    Minus,
    Plus,
    Semicolon,
    Slash,
    Star,
    Bang,
    BangEqual,
    Equal,
    EqualEqual,
    Greater,
    GreaterEqual,
    Less,
    LessEqual,
    Identifier,
    String,
    Number,
    And,
    Class,
    Else,
    False,
    Fun,
    For,
    If,
    Nil,
    Or,
    Print,
    Return,
    Super,
    This,
    True,
    Var,
    While,
    End,
}

/// The value carried by a string or number token.
///
/// A number keeps its decimal text exactly as written (digits, optionally a
/// dot and more digits); turning it into a floating value is left to the
/// consumer.
#[derive(Clone, Debug)]
pub enum Literal {
    String(String),
    Number(String),
}

/// Mathematical form of a literal.
pub ghost enum LiteralView {
    Str(Seq<char>),
    Number(Seq<char>),
}

impl View for Literal {
    type V = LiteralView;

    open spec fn view(&self) -> LiteralView {
        match self {
            Literal::String(s) => LiteralView::Str(s@),
            Literal::Number(s) => LiteralView::Number(s@),
        }
    }
}

pub open spec fn literal_view(l: Option<Literal>) -> Option<LiteralView> {
    match l {
        Some(v) => Some(v@),
        None => None,
    }
}

/// One classified lexeme.
#[derive(Clone, Debug)]
pub struct Token {
    pub token_type: TokenType,
    pub lexeme: String,
    pub literal: Option<Literal>,
    pub line: usize,
}

/// Mathematical form of a token.
pub ghost struct TokenView {
    pub kind: TokenType,
    pub lexeme: Seq<char>,
    pub literal: Option<LiteralView>,
    pub line: int,
}

impl View for Token {
    type V = TokenView;

    open spec fn view(&self) -> TokenView {
        TokenView {
            kind: self.token_type,
            lexeme: self.lexeme@,
            literal: literal_view(self.literal),
            line: self.line as int,
        }
    }
}

impl Token {
    pub fn new(token_type: TokenType, lexeme: String, literal: Option<Literal>, line: usize) -> (r:
        Token)
        ensures
            r.token_type == token_type,
            r.lexeme == lexeme,
            r.literal == literal,
            r.line == line,
    {
        Token { token_type, lexeme, literal, line }
    }
}

} // verus!
