use arith_ast::ast::lexer::{Lexer, TextSpan, Token, TokenKind, tokenize};

fn span(start: usize, end: usize, literal: &str) -> TextSpan {
    TextSpan::new(start, end, literal.to_string())
}

#[test]
fn tokenize_single_number() {
    let tokens = tokenize("1234");
    assert_eq!(
        tokens,
        vec![
            Token::new(TokenKind::Number(1234), span(0, 4, "1234")),
            Token::new(TokenKind::EOF, span(0, 0, "")),
        ]
    );
}

#[test]
fn tokenize_expression_with_spans() {
    let tokens = tokenize("12 + 3");
    assert_eq!(
        tokens,
        vec![
            Token::new(TokenKind::Number(12), span(0, 2, "12")),
            Token::new(TokenKind::Whitespace, span(2, 3, " ")),
            Token::new(TokenKind::Plus, span(3, 4, "+")),
            Token::new(TokenKind::Whitespace, span(4, 5, " ")),
            Token::new(TokenKind::Number(3), span(5, 6, "3")),
            Token::new(TokenKind::EOF, span(0, 0, "")),
        ]
    );
}

#[test]
fn tokenize_all_punctuation() {
    let tokens = tokenize("+-*/()");
    let kinds: Vec<TokenKind> = tokens.into_iter().map(|t| t.kind).collect();
    assert_eq!(
        kinds,
        vec![
            TokenKind::Plus,
            TokenKind::Minus,
            TokenKind::Asterisk,
            TokenKind::Slash,
            TokenKind::LeftParen,
            TokenKind::RightParen,
            TokenKind::EOF,
        ]
    );
}

#[test]
fn tokenize_empty_input() {
    let tokens = tokenize("");
    assert_eq!(tokens, vec![Token::new(TokenKind::EOF, span(0, 0, ""))]);
}

#[test]
fn tokenize_bad_character() {
    let tokens = tokenize("@");
    assert_eq!(
        tokens,
        vec![
            Token::new(TokenKind::Bad, span(0, 1, "@")),
            Token::new(TokenKind::EOF, span(0, 0, "")),
        ]
    );
}

#[test]
fn whitespace_tokens_are_not_merged() {
    let tokens = tokenize("  ");
    assert_eq!(
        tokens,
        vec![
            Token::new(TokenKind::Whitespace, span(0, 1, " ")),
            Token::new(TokenKind::Whitespace, span(1, 2, " ")),
            Token::new(TokenKind::EOF, span(0, 0, "")),
        ]
    );
}

#[test]
fn spans_count_characters_not_bytes() {
    let tokens = tokenize("µ+1");
    assert_eq!(
        tokens,
        vec![
            Token::new(TokenKind::Bad, span(0, 1, "µ")),
            Token::new(TokenKind::Plus, span(1, 2, "+")),
            Token::new(TokenKind::Number(1), span(2, 3, "1")),
            Token::new(TokenKind::EOF, span(0, 0, "")),
        ]
    );
}

#[test]
fn number_literal_saturates_at_i64_max() {
    let tokens = tokenize("99999999999999999999");
    assert_eq!(tokens[0].kind, TokenKind::Number(i64::MAX));
}

#[test]
fn number_literal_at_i64_max_is_exact() {
    let tokens = tokenize("9223372036854775807");
    assert_eq!(tokens[0].kind, TokenKind::Number(i64::MAX));
}

#[test]
fn next_token_returns_none_after_eof() {
    let mut lexer = Lexer::new("1");
    let first = lexer.next_token().unwrap();
    assert_eq!(first.kind, TokenKind::Number(1));
    let second = lexer.next_token().unwrap();
    assert_eq!(second.kind, TokenKind::EOF);
    assert_eq!(lexer.next_token(), None);
    assert_eq!(lexer.next_token(), None);
}

#[test]
fn lexer_consume_advances_one_character() {
    let mut lexer = Lexer::new("ab");
    assert_eq!(lexer.current_char(), Some('a'));
    assert_eq!(lexer.consume(), Some('a'));
    assert_eq!(lexer.current_char(), Some('b'));
    assert_eq!(lexer.consume(), Some('b'));
    assert_eq!(lexer.current_char(), None);
    assert_eq!(lexer.consume(), None);
}

#[test]
fn character_classes() {
    assert!(Lexer::is_number_start(&'0'));
    assert!(Lexer::is_number_start(&'9'));
    assert!(!Lexer::is_number_start(&'a'));
    assert!(Lexer::is_whitespace(&' '));
    assert!(Lexer::is_whitespace(&'\t'));
    assert!(Lexer::is_whitespace(&'\u{00A0}'));
    assert!(!Lexer::is_whitespace(&'+'));
}

#[test]
fn text_span_length() {
    let s = span(3, 7, "abcd");
    assert_eq!(s.length(), 4);
}
