use zenith::error::ErrorKind;
use zenith::lexer::Lexer;
use zenith::scanner::Scanner;
use zenith::token::{Literal, Token, TokenType};

fn run(text: &str) -> (Vec<Token>, Vec<(usize, ErrorKind)>, usize) {
    let mut scanner = Scanner::from_source(text.to_string());
    let tokens = scanner.scan_tokens().clone();
    let errors = scanner.errors().iter().map(|e| (e.line, e.kind)).collect();
    (tokens, errors, scanner.line())
}

fn kinds(tokens: &[Token]) -> Vec<TokenType> {
    tokens.iter().map(|t| t.token_type).collect()
}

fn number_value(t: &Token) -> f64 {
    match &t.literal {
        Some(Literal::Number(text)) => text.parse::<f64>().unwrap(),
        other => panic!("not a number literal: {:?}", other),
    }
}

#[test]
fn empty_source_gives_only_end() {
    let (tokens, errors, line) = run("");
    assert_eq!(kinds(&tokens), vec![TokenType::End]);
    assert!(errors.is_empty());
    assert_eq!(tokens[0].lexeme, "");
    assert!(tokens[0].literal.is_none());
    assert_eq!(tokens[0].line, 1);
    assert_eq!(line, 1);
}

#[test]
fn end_is_last_and_unique() {
    for text in ["", "(){},.-+;*", "var x = 1.5; // c\nprint x;", "\"open", "@#$", "a\n\nb"] {
        let (tokens, _, _) = run(text);
        assert_eq!(tokens.last().unwrap().token_type, TokenType::End);
        let ends = tokens.iter().filter(|t| t.token_type == TokenType::End).count();
        assert_eq!(ends, 1);
    }
}

#[test]
fn bang_equal_is_one_token() {
    let (tokens, errors, _) = run("!=");
    assert_eq!(kinds(&tokens), vec![TokenType::BangEqual, TokenType::End]);
    assert_eq!(tokens[0].lexeme, "!=");
    assert!(errors.is_empty());
    let (tokens, _, _) = run("!");
    assert_eq!(kinds(&tokens), vec![TokenType::Bang, TokenType::End]);
}

#[test]
fn all_compound_operators() {
    let (tokens, _, _) = run("== = <= < >= > ! !=");
    assert_eq!(
        kinds(&tokens),
        vec![
            TokenType::EqualEqual,
            TokenType::Equal,
            TokenType::LessEqual,
            TokenType::Less,
            TokenType::GreaterEqual,
            TokenType::Greater,
            TokenType::Bang,
            TokenType::BangEqual,
            TokenType::End
        ]
    );
}

#[test]
fn punctuation() {
    let (tokens, _, _) = run("(){},.-+;*/");
    assert_eq!(
        kinds(&tokens),
        vec![
            TokenType::LeftParen,
            TokenType::RightParen,
            TokenType::LeftBrace,
            TokenType::RightBrace,
            TokenType::Comma,
            TokenType::Dot,
            TokenType::Minus,
            TokenType::Plus,
            TokenType::Semicolon,
            TokenType::Star,
            TokenType::Slash,
            TokenType::End
        ]
    );
}

#[test]
fn identifier_versus_keyword() {
    let (tokens, _, _) = run("ifx");
    assert_eq!(kinds(&tokens), vec![TokenType::Identifier, TokenType::End]);
    assert_eq!(tokens[0].lexeme, "ifx");
    assert!(tokens[0].literal.is_none());
    let (tokens, _, _) = run("if");
    assert_eq!(kinds(&tokens), vec![TokenType::If, TokenType::End]);
}

#[test]
fn every_keyword() {
    let (tokens, _, _) =
        run("and class else false fun for if nil or print return super this true var while");
    assert_eq!(
        kinds(&tokens),
        vec![
            TokenType::And,
            TokenType::Class,
            TokenType::Else,
            TokenType::False,
            TokenType::Fun,
            TokenType::For,
            TokenType::If,
            TokenType::Nil,
            TokenType::Or,
            TokenType::Print,
            TokenType::Return,
            TokenType::Super,
            TokenType::This,
            TokenType::True,
            TokenType::Var,
            TokenType::While,
            TokenType::End
        ]
    );
}

#[test]
fn identifiers_with_digits_and_underscores() {
    let (tokens, _, _) = run("_a1 And x_y9");
    assert_eq!(
        kinds(&tokens),
        vec![TokenType::Identifier, TokenType::Identifier, TokenType::Identifier, TokenType::End]
    );
    assert_eq!(tokens[0].lexeme, "_a1");
    assert_eq!(tokens[1].lexeme, "And");
    assert_eq!(tokens[2].lexeme, "x_y9");
}

#[test]
fn comment_is_dropped() {
    let (tokens, errors, line) = run("1 // comment\n2");
    assert_eq!(kinds(&tokens), vec![TokenType::Number, TokenType::Number, TokenType::End]);
    assert_eq!(number_value(&tokens[0]), 1.0);
    assert_eq!(number_value(&tokens[1]), 2.0);
    assert_eq!(tokens[0].line, 1);
    assert_eq!(tokens[1].line, 2);
    assert_eq!(line, 2);
    assert!(errors.is_empty());
}

#[test]
fn comment_at_end_of_text() {
    let (tokens, errors, _) = run("+ // @ \"");
    assert_eq!(kinds(&tokens), vec![TokenType::Plus, TokenType::End]);
    assert!(errors.is_empty());
}

#[test]
fn trailing_dot_is_not_part_of_number() {
    let (tokens, _, _) = run("1.");
    assert_eq!(kinds(&tokens), vec![TokenType::Number, TokenType::Dot, TokenType::End]);
    assert_eq!(number_value(&tokens[0]), 1.0);
    assert_eq!(tokens[0].lexeme, "1");
    let (tokens, _, _) = run("1.5");
    assert_eq!(kinds(&tokens), vec![TokenType::Number, TokenType::End]);
    assert_eq!(number_value(&tokens[0]), 1.5);
    assert_eq!(tokens[0].lexeme, "1.5");
}

#[test]
fn number_literal_keeps_its_text() {
    let (tokens, _, _) = run("123.456.7");
    assert_eq!(
        kinds(&tokens),
        vec![TokenType::Number, TokenType::Dot, TokenType::Number, TokenType::End]
    );
    match &tokens[0].literal {
        Some(Literal::Number(text)) => assert_eq!(text, "123.456"),
        other => panic!("unexpected literal {:?}", other),
    }
    assert_eq!(number_value(&tokens[2]), 7.0);
}

#[test]
fn multi_line_string() {
    let (tokens, errors, line) = run("\"a\nb\"");
    assert_eq!(kinds(&tokens), vec![TokenType::String, TokenType::End]);
    match &tokens[0].literal {
        Some(Literal::String(text)) => assert_eq!(text, "a\nb"),
        other => panic!("unexpected literal {:?}", other),
    }
    assert_eq!(tokens[0].lexeme, "\"a\nb\"");
    assert_eq!(line, 2);
    assert!(errors.is_empty());
}

#[test]
fn string_with_multibyte_characters() {
    let (tokens, _, _) = run("\"héllo\" x");
    assert_eq!(kinds(&tokens), vec![TokenType::String, TokenType::Identifier, TokenType::End]);
    match &tokens[0].literal {
        Some(Literal::String(text)) => assert_eq!(text, "héllo"),
        other => panic!("unexpected literal {:?}", other),
    }
    assert_eq!(tokens[1].lexeme, "x");
}

#[test]
fn unterminated_string() {
    let (tokens, errors, _) = run("\"abc");
    assert_eq!(kinds(&tokens), vec![TokenType::End]);
    assert_eq!(errors, vec![(1, ErrorKind::UnterminatedString)]);
}

#[test]
fn unexpected_character() {
    let (tokens, errors, _) = run("@");
    assert_eq!(kinds(&tokens), vec![TokenType::End]);
    assert_eq!(errors, vec![(1, ErrorKind::UnexpectedCharacter)]);
    let (tokens, errors, _) = run("@1");
    assert_eq!(kinds(&tokens), vec![TokenType::Number, TokenType::End]);
    assert_eq!(number_value(&tokens[0]), 1.0);
    assert_eq!(errors, vec![(1, ErrorKind::UnexpectedCharacter)]);
}

#[test]
fn errors_carry_their_line() {
    let mut scanner = Scanner::from_source("a\n#\n\"x".to_string());
    scanner.scan_tokens();
    assert!(scanner.had_error());
    let errors = scanner.errors();
    assert_eq!(errors.len(), 2);
    assert_eq!(errors[0].line, 2);
    assert_eq!(errors[0].kind, ErrorKind::UnexpectedCharacter);
    assert_eq!(errors[0].message(), "unexpected character!");
    assert_eq!(errors[1].line, 3);
    assert_eq!(errors[1].message(), "unterminated string!");
}

#[test]
fn whitespace_and_lines() {
    let (tokens, errors, line) = run(" \t\r\nx\n");
    assert_eq!(kinds(&tokens), vec![TokenType::Identifier, TokenType::End]);
    assert_eq!(tokens[0].line, 2);
    assert_eq!(tokens[1].line, 3);
    assert_eq!(line, 3);
    assert!(errors.is_empty());
}

#[test]
fn scanning_twice_agrees() {
    let text = "var s = \"a\nb\"; @ 3.25 // x\n\"open";
    let (t1, e1, l1) = run(text);
    let (t2, e2, l2) = run(text);
    assert_eq!(format!("{:?}", t1), format!("{:?}", t2));
    assert_eq!(e1, e2);
    assert_eq!(l1, l2);
}

#[test]
fn lexer_yields_tokens_on_demand() {
    let mut lexer = Lexer::new("var x = 1; @".to_string());
    let mut got = Vec::new();
    loop {
        let t = lexer.next_token();
        let done = t.token_type == TokenType::End;
        got.push(t);
        if done {
            break;
        }
    }
    assert_eq!(
        kinds(&got),
        vec![
            TokenType::Var,
            TokenType::Identifier,
            TokenType::Equal,
            TokenType::Number,
            TokenType::Semicolon,
            TokenType::End
        ]
    );
    assert!(lexer.is_at_end());
    assert_eq!(lexer.errors().len(), 1);
    assert_eq!(lexer.next_token().token_type, TokenType::End);
    assert_eq!(lexer.next_token().token_type, TokenType::End);
}

#[test]
fn lexer_matches_scanner() {
    let text = "fun f(a, b) { return a >= b; }\n// done\n\"s\"";
    let (tokens, _, _) = run(text);
    let mut lexer = Lexer::new(text.to_string());
    for expected in &tokens {
        let t = lexer.next_token();
        assert_eq!(t.token_type, expected.token_type);
        assert_eq!(t.lexeme, expected.lexeme);
        assert_eq!(t.line, expected.line);
    }
}
