use arith_ast::ast::lexer::tokenize;
use arith_ast::ast::parser::Parser;
use arith_ast::ast::{ASTPrintor, Ast};

fn parse(input: &str) -> Ast {
    let mut parser = Parser::new(tokenize(input));
    parser.parse_program().expect("the input should parse")
}

#[test]
fn renders_a_single_number() {
    let rendered = parse("42").visualize();
    assert_eq!(rendered, "Statement\n  Expression\n    Number: 42\n");
}

#[test]
fn renders_precedence_as_tree_shape() {
    let rendered = parse("1 + 2 * 3").visualize();
    let expected = "Statement\n\
                    \x20 Expression\n\
                    \x20   Binary Expression\n\
                    \x20     Operator: Plus\n\
                    \x20     Expression\n\
                    \x20       Number: 1\n\
                    \x20     Expression\n\
                    \x20       Binary Expression\n\
                    \x20         Operator: Multiply\n\
                    \x20         Expression\n\
                    \x20           Number: 2\n\
                    \x20         Expression\n\
                    \x20           Number: 3\n";
    assert_eq!(rendered, expected);
}

#[test]
fn renders_left_associative_chain() {
    let rendered = parse("7 - 3 - 2").visualize();
    let expected = "Statement\n\
                    \x20 Expression\n\
                    \x20   Binary Expression\n\
                    \x20     Operator: Minus\n\
                    \x20     Expression\n\
                    \x20       Binary Expression\n\
                    \x20         Operator: Minus\n\
                    \x20         Expression\n\
                    \x20           Number: 7\n\
                    \x20         Expression\n\
                    \x20           Number: 3\n\
                    \x20     Expression\n\
                    \x20       Number: 2\n";
    assert_eq!(rendered, expected);
}

#[test]
fn renders_parenthesized_group() {
    let rendered = parse("(1 + 2) * 3").visualize();
    let expected = "Statement\n\
                    \x20 Expression\n\
                    \x20   Binary Expression\n\
                    \x20     Operator: Multiply\n\
                    \x20     Expression\n\
                    \x20       Parenthesized Expression\n\
                    \x20         Expression\n\
                    \x20           Binary Expression\n\
                    \x20             Operator: Plus\n\
                    \x20             Expression\n\
                    \x20               Number: 1\n\
                    \x20             Expression\n\
                    \x20               Number: 2\n\
                    \x20     Expression\n\
                    \x20       Number: 3\n";
    assert_eq!(rendered, expected);
}

#[test]
fn renders_negative_number() {
    let operator = arith_ast::ast::ASTBinaryOperator::new(
        arith_ast::ast::ASTBinaryOperatorKind::Minus,
        arith_ast::ast::lexer::Token::new(
            arith_ast::ast::lexer::TokenKind::Minus,
            arith_ast::ast::lexer::TextSpan::new(1, 2, "-".to_string()),
        ),
    );
    let expr = arith_ast::ast::ASTExpression::binary(
        operator,
        arith_ast::ast::ASTExpression::number(0),
        arith_ast::ast::ASTExpression::number(5),
    );
    let mut ast = Ast::new();
    ast.add_statement(arith_ast::ast::ASTStatement::expression(expr));
    assert_eq!(ast.evaluate(), Ok(Some(-5)));
    let mut printor = ASTPrintor::new();
    printor.print_number(&number_expression(-5));
    assert_eq!(printor.into_output(), "Number: -5\n");
}

fn number_expression(n: i64) -> arith_ast::ast::ASTNumberExpression {
    match arith_ast::ast::ASTExpression::number(n).kind {
        arith_ast::ast::ASTExpressionKind::Number(num) => num,
        _ => unreachable!(),
    }
}

#[test]
fn renders_each_statement_in_order() {
    let rendered = parse("1 2").visualize();
    let expected = "Statement\n\
                    \x20 Expression\n\
                    \x20   Number: 1\n\
                    Statement\n\
                    \x20 Expression\n\
                    \x20   Number: 2\n";
    assert_eq!(rendered, expected);
}

#[test]
fn empty_program_renders_nothing() {
    assert_eq!(parse("").visualize(), "");
}

#[test]
fn printer_through_the_visitor_matches_visualize() {
    let ast = parse("7 * (9 - 2)");
    let mut printor = ASTPrintor::new();
    ast.visit(&mut printor);
    assert_eq!(printor.into_output(), ast.visualize());
}
