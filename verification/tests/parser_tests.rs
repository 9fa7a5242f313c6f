use arith_ast::ast::lexer::{TextSpan, Token, TokenKind, tokenize};
use arith_ast::ast::parser::{ParseErrorKind, Parser};

fn parser_for(input: &str) -> Parser {
    Parser::new(tokenize(input))
}

#[test]
fn empty_input_yields_zero_statements() {
    let mut parser = parser_for("");
    assert!(matches!(parser.next_statement(), Ok(None)));
    let mut parser = parser_for("");
    let ast = parser.parse_program().unwrap();
    assert_eq!(ast.statements.len(), 0);
}

#[test]
fn whitespace_only_input_yields_zero_statements() {
    let mut parser = parser_for("   ");
    let ast = parser.parse_program().unwrap();
    assert_eq!(ast.statements.len(), 0);
}

#[test]
fn lone_left_paren_is_a_reported_error() {
    let mut parser = parser_for("(");
    let err = parser.next_statement().unwrap_err();
    assert_eq!(err.kind, ParseErrorKind::UnexpectedEndOfInput);
}

#[test]
fn missing_right_paren_is_a_reported_error() {
    let mut parser = parser_for("(1");
    let err = parser.next_statement().unwrap_err();
    assert_eq!(err.kind, ParseErrorKind::ExpectedRightParen);
}

#[test]
fn mismatched_close_paren_carries_its_span() {
    let mut parser = parser_for("(1 2");
    let err = parser.next_statement().unwrap_err();
    assert_eq!(err.kind, ParseErrorKind::ExpectedRightParen);
    assert_eq!(err.span, TextSpan::new(3, 4, "2".to_string()));
}

#[test]
fn bad_character_is_a_reported_error() {
    let mut parser = parser_for("@");
    let err = parser.next_statement().unwrap_err();
    assert_eq!(err.kind, ParseErrorKind::UnexpectedToken);
    assert_eq!(err.span, TextSpan::new(0, 1, "@".to_string()));
}

#[test]
fn operator_without_left_operand_is_an_error() {
    let mut parser = parser_for("+ 5");
    let err = parser.next_statement().unwrap_err();
    assert_eq!(err.kind, ParseErrorKind::UnexpectedToken);
}

#[test]
fn trailing_operator_is_an_error() {
    let mut parser = parser_for("1 +");
    let err = parser.next_statement().unwrap_err();
    assert_eq!(err.kind, ParseErrorKind::UnexpectedEndOfInput);
}

#[test]
fn statements_parse_one_after_another() {
    let mut parser = parser_for("1 2");
    assert!(matches!(parser.next_statement(), Ok(Some(_))));
    assert!(matches!(parser.next_statement(), Ok(Some(_))));
    assert!(matches!(parser.next_statement(), Ok(None)));
}

#[test]
fn unfiltered_whitespace_cannot_start_an_expression() {
    let mut parser = Parser::from_tokens(tokenize("1 2"));
    assert!(matches!(parser.next_statement(), Ok(Some(_))));
    let err = parser.next_statement().unwrap_err();
    assert_eq!(err.kind, ParseErrorKind::UnexpectedToken);
}

#[test]
fn peek_current_and_consume() {
    let tokens = vec![
        Token::new(TokenKind::Number(1), TextSpan::new(0, 1, "1".to_string())),
        Token::new(TokenKind::Plus, TextSpan::new(1, 2, "+".to_string())),
        Token::new(TokenKind::EOF, TextSpan::new(0, 0, "".to_string())),
    ];
    let mut parser = Parser::from_tokens(tokens.clone());
    assert_eq!(parser.peek(-1), None);
    assert_eq!(parser.peek(0), Some(&tokens[0]));
    assert_eq!(parser.peek(1), Some(&tokens[1]));
    assert_eq!(parser.peek(3), None);
    assert_eq!(parser.current(), Some(&tokens[0]));
    assert_eq!(parser.consume(), Some(tokens[0].clone()));
    assert_eq!(parser.current(), Some(&tokens[1]));
    assert_eq!(parser.peek(-1), Some(&tokens[0]));
    assert_eq!(parser.consume(), Some(tokens[1].clone()));
    assert_eq!(parser.consume(), Some(tokens[2].clone()));
    // consuming at the end still moves the cursor one past the end, so
    // the token behind it is no longer the last one
    assert_eq!(parser.peek(-1), Some(&tokens[2]));
    assert_eq!(parser.consume(), None);
    assert_eq!(parser.peek(-1), None);
    assert_eq!(parser.peek(-2), Some(&tokens[2]));
    assert_eq!(parser.consume(), None);
}

#[test]
fn parse_binary_operator_reads_without_consuming() {
    let tokens = vec![Token::new(TokenKind::Asterisk, TextSpan::new(0, 1, "*".to_string()))];
    let mut parser = Parser::from_tokens(tokens);
    let op = parser.parse_binary_operator().unwrap();
    assert_eq!(op.precedence(), 2);
    assert_eq!(op.token.kind, TokenKind::Asterisk);
    // still not consumed
    let again = parser.parse_binary_operator().unwrap();
    assert_eq!(again.token.kind, TokenKind::Asterisk);
}

#[test]
fn operator_precedences() {
    for (input, expected) in [("+", 1u8), ("-", 1), ("*", 2), ("/", 2)] {
        let mut parser = Parser::new(tokenize(input));
        let op = parser.parse_binary_operator().unwrap();
        assert_eq!(op.precedence(), expected);
    }
}
