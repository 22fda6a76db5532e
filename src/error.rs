use vstd::prelude::*;

verus! {

/// What went wrong while scanning.
#[derive(Clone, Copy, Debug, PartialEq, Eq, Structural)]
pub enum ErrorKind {
    /// A character that begins no lexeme.
    UnexpectedCharacter,
    /// A string literal whose closing quote never came.
    UnterminatedString,
}

/// A lexical error, recorded without stopping the scan.
#[derive(Clone, Copy, Debug, PartialEq, Eq, Structural)]
pub struct ScanError {
    pub line: usize,
    pub kind: ErrorKind,
}

/// Mathematical form of a lexical error.
pub ghost struct ErrorView {
    pub line: int,
    pub kind: ErrorKind,
}

impl View for ScanError {
    type V = ErrorView;

    open spec fn view(&self) -> ErrorView {
        ErrorView { line: self.line as int, kind: self.kind }
    }
}

pub open spec fn errors_view(v: Seq<ScanError>) -> Seq<ErrorView> {
    v.map_values(|e: ScanError| e@)
}

impl ScanError {
    /// The diagnostic text of this error.
    pub fn message(&self) -> (r: &'static str)
        ensures
            self.kind == ErrorKind::UnexpectedCharacter ==> r@ == "unexpected character!"@,
            self.kind == ErrorKind::UnterminatedString ==> r@ == "unterminated string!"@,
    {
        match self.kind {
            ErrorKind::UnexpectedCharacter => "unexpected character!",
            ErrorKind::UnterminatedString => "unterminated string!",
        }
    }
}

} // verus!
