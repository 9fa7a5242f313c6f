use arith_ast::ast::evaluator::{ASTEvaluator, EvalError, EvalErrorKind};
use arith_ast::ast::lexer::{TextSpan, Token, TokenKind, tokenize};
use arith_ast::ast::parser::Parser;
use arith_ast::ast::{ASTBinaryOperator, ASTBinaryOperatorKind, ASTExpression, Ast};

fn run(input: &str) -> Result<Option<i64>, EvalError> {
    let mut parser = Parser::new(tokenize(input));
    let ast = parser.parse_program().expect("the input should parse");
    ast.evaluate()
}

#[test]
fn evaluates_mixed_expression() {
    assert_eq!(run("7 - (30 + 7) * 8 / 2"), Ok(Some(-141)));
}

#[test]
fn evaluates_sum_with_parenthesized_difference() {
    assert_eq!(run("7 * 9 + (6 - 9)"), Ok(Some(60)));
}

#[test]
fn multiplication_binds_tighter_than_addition() {
    assert_eq!(run("2 + 3 * 4"), Ok(Some(14)));
}

#[test]
fn subtraction_is_left_associative() {
    assert_eq!(run("7 - 3 - 2"), Ok(Some(2)));
}

#[test]
fn parentheses_override_precedence() {
    assert_eq!(run("(1 + 2) * 3"), Ok(Some(9)));
}

#[test]
fn division_truncates_toward_zero() {
    assert_eq!(run("7 / 2"), Ok(Some(3)));
    assert_eq!(run("(0 - 7) / 2"), Ok(Some(-3)));
    assert_eq!(run("7 / (0 - 2)"), Ok(Some(-3)));
    assert_eq!(run("(0 - 7) / (0 - 2)"), Ok(Some(3)));
}

#[test]
fn division_by_zero_is_fatal_and_carries_its_span() {
    let err = run("1 / 0").unwrap_err();
    assert_eq!(err.kind, EvalErrorKind::DivisionByZero);
    assert_eq!(err.span, TextSpan::new(2, 3, "/".to_string()));
}

#[test]
fn addition_overflow_is_fatal_and_carries_its_span() {
    let err = run("9223372036854775807 + 1").unwrap_err();
    assert_eq!(err.kind, EvalErrorKind::Overflow);
    assert_eq!(err.span, TextSpan::new(20, 21, "+".to_string()));
}

#[test]
fn negating_i64_min_by_division_is_fatal() {
    let err = run("(0 - 9223372036854775807 - 1) / (0 - 1)").unwrap_err();
    assert_eq!(err.kind, EvalErrorKind::Overflow);
}

#[test]
fn multiplication_overflow_is_fatal() {
    let err = run("3037000500 * 3037000500").unwrap_err();
    assert_eq!(err.kind, EvalErrorKind::Overflow);
}

#[test]
fn a_fatal_condition_in_any_statement_terminates_evaluation() {
    let err = run("1 / 0 5").unwrap_err();
    assert_eq!(err.kind, EvalErrorKind::DivisionByZero);
    assert_eq!(err.span, TextSpan::new(2, 3, "/".to_string()));
}

#[test]
fn empty_program_has_no_value() {
    assert_eq!(run(""), Ok(None));
}

#[test]
fn value_of_a_program_is_its_last_statement() {
    assert_eq!(run("1 2 3"), Ok(Some(3)));
}

#[test]
fn evaluator_through_the_visitor() {
    let mut parser = Parser::new(tokenize("6 * 7"));
    let mut ast = Ast::new();
    loop {
        match parser.next_statement() {
            Ok(Some(statement)) => ast.add_statement(statement),
            Ok(None) => break,
            Err(err) => panic!("unexpected parse error: {:?}", err),
        }
    }
    let mut evaluator = ASTEvaluator::new();
    assert_eq!(evaluator.last_value, None);
    ast.visit(&mut evaluator);
    assert_eq!(evaluator.last_value, Some(42));
    assert_eq!(evaluator.last_error, None);
}

#[test]
fn visitor_records_the_fatal_condition_and_its_span() {
    let mut parser = Parser::new(tokenize("8 / (5 - 5)"));
    let ast = parser.parse_program().unwrap();
    let mut evaluator = ASTEvaluator::new();
    ast.visit(&mut evaluator);
    assert_eq!(evaluator.last_value, None);
    let err = evaluator.last_error.unwrap();
    assert_eq!(err.kind, EvalErrorKind::DivisionByZero);
    assert_eq!(err.span, TextSpan::new(2, 3, "/".to_string()));
}

#[test]
fn evaluator_on_a_hand_built_expression() {
    let operator = ASTBinaryOperator::new(
        ASTBinaryOperatorKind::Divide,
        Token::new(TokenKind::Slash, TextSpan::new(1, 2, "/".to_string())),
    );
    let expr = ASTExpression::binary(operator, ASTExpression::number(9), ASTExpression::number(2));
    let mut evaluator = ASTEvaluator::new();
    evaluator.eval_expression(&expr);
    assert_eq!(evaluator.last_value, Some(4));
}

#[test]
fn running_the_pipeline_twice_gives_identical_results() {
    let input = "7 - (30 + 7) * 8 / 2";
    assert_eq!(tokenize(input), tokenize(input));
    assert_eq!(run(input), run(input));
    let mut parser1 = Parser::new(tokenize(input));
    let mut parser2 = Parser::new(tokenize(input));
    let ast1 = parser1.parse_program().unwrap();
    let ast2 = parser2.parse_program().unwrap();
    assert_eq!(ast1.visualize(), ast2.visualize());
}
