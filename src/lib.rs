//! A scanner for a small interpreted language: it turns source text into
//! classified tokens, eliding whitespace and comments and recording lexical
//! errors without stopping. Its behaviour is stated by the spec functions of
//! `lexical`, and every executable function is proved against them.

pub mod chars;
pub mod error;
pub mod keywords;
pub mod lexer;
pub mod lexical;
pub mod scanner;
pub mod token;
