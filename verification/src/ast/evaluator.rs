//! The evaluator: a visitor that reduces an expression tree to a single
//! integer, using checked `i64` arithmetic and truncating division.
//!
//! A division by zero or an intermediate value outside the `i64` range is
//! a fatal condition: the value slot becomes `None`, and the evaluator
//! records which condition it was together with the span of the operator
//! token at which it arose.

use vstd::prelude::*;

use crate::ast::lexer::{SpanView, TextSpan};
use crate::ast::{
    ASTBinaryExpression, ASTBinaryOperatorKind, ASTExpression, ASTExpressionKind,
    ASTNumberExpression, ASTParanthesizedExpression, ASTStatement, ASTStatementKind, ASTVisitor,
    ExprView, StatementView, visits_fold,
};

verus! {

#[derive(Debug, Clone, Copy, PartialEq, Eq, Structural)]
pub enum EvalErrorKind {
    /// The right operand of a division was zero.
    DivisionByZero,
    /// The exact result of an operation fell outside the `i64` range.
    Overflow,
}

/// A fatal arithmetic condition, with the span of the operator token at
/// which it arose.
#[derive(Debug, PartialEq)]
pub struct EvalError {
    pub kind: EvalErrorKind,
    pub span: TextSpan,
}

/// Mathematical model of an evaluation error.
pub struct EvalErrorView {
    pub kind: EvalErrorKind,
    pub span: SpanView,
}

impl View for EvalError {
    type V = EvalErrorView;

    open spec fn view(&self) -> EvalErrorView {
        EvalErrorView { kind: self.kind, span: self.span@ }
    }
}

impl Clone for EvalError {
    fn clone(&self) -> (r: Self)
        ensures
            r@ == self@,
    {
        EvalError { kind: self.kind, span: self.span.clone() }
    }
}

/// What evaluating an expression comes to: its value, or the first fatal
/// condition met in a depth-first, left-to-right walk.
pub enum EvalOutcome {
    Value(i64),
    Failed(EvalErrorKind, SpanView),
}

/// Integer division truncated toward zero, as the `/` operator of `i64`
/// behaves.
pub open spec fn spec_div_trunc(x: int, d: int) -> int {
    if x == 0 {
        0
    } else if x > 0 && d > 0 {
        x / d
    } else if x < 0 && d < 0 {
        (x * -1) / (d * -1)
    } else if x < 0 {
        ((x * -1) / d) * -1
    } else {
        (x / (d * -1)) * -1
    }
}

/// The value of one binary operation, `None` on division by zero or when
/// the exact result falls outside the `i64` range.
pub open spec fn spec_eval_op(kind: ASTBinaryOperatorKind, left: i64, right: i64) -> Option<i64> {
    match kind {
        ASTBinaryOperatorKind::Plus => if left + right > i64::MAX || left + right < i64::MIN {
            None
        } else {
            Some((left + right) as i64)
        },
        ASTBinaryOperatorKind::Minus => if left - right > i64::MAX || left - right < i64::MIN {
            None
        } else {
            Some((left - right) as i64)
        },
        ASTBinaryOperatorKind::Multiply => if left * right > i64::MAX || left * right
            < i64::MIN {
            None
        } else {
            Some((left * right) as i64)
        },
        ASTBinaryOperatorKind::Divide => if right == 0 {
            None
        } else {
            let q = spec_div_trunc(left as int, right as int);
            if q < i64::MIN || q > i64::MAX {
                None
            } else {
                Some(q as i64)
            }
        },
    }
}

/// Which fatal condition a failed operation is: a zero divisor, else a
/// result outside the `i64` range.
pub open spec fn spec_eval_op_error(kind: ASTBinaryOperatorKind, right: i64) -> EvalErrorKind {
    if kind == ASTBinaryOperatorKind::Divide && right == 0 {
        EvalErrorKind::DivisionByZero
    } else {
        EvalErrorKind::Overflow
    }
}

/// The outcome of an expression: literals evaluate to themselves,
/// parentheses forward their inner outcome, and a binary node combines
/// both operands, failing with the span of its operator token when the
/// operation has no `i64` value; a failure in an operand propagates.
pub open spec fn spec_eval_expr_outcome(e: ExprView) -> EvalOutcome
    decreases e,
{
    match e {
        ExprView::Number(n) => EvalOutcome::Value(n),
        ExprView::Binary(op, l, r) => match spec_eval_expr_outcome(*l) {
            EvalOutcome::Failed(k, s) => EvalOutcome::Failed(k, s),
            EvalOutcome::Value(a) => match spec_eval_expr_outcome(*r) {
                EvalOutcome::Failed(k, s) => EvalOutcome::Failed(k, s),
                EvalOutcome::Value(b) => match spec_eval_op(op.kind, a, b) {
                    Some(v) => EvalOutcome::Value(v),
                    None => EvalOutcome::Failed(spec_eval_op_error(op.kind, b), op.token.span),
                },
            },
        },
        ExprView::Parenthesized(inner) => spec_eval_expr_outcome(*inner),
    }
}

pub open spec fn spec_outcome_value(o: EvalOutcome) -> Option<i64> {
    match o {
        EvalOutcome::Value(v) => Some(v),
        EvalOutcome::Failed(_, _) => None,
    }
}

pub open spec fn spec_outcome_error(o: EvalOutcome) -> Option<EvalErrorView> {
    match o {
        EvalOutcome::Value(_) => None,
        EvalOutcome::Failed(k, s) => Some(EvalErrorView { kind: k, span: s }),
    }
}

/// The value of an expression, `None` exactly when its outcome is a
/// fatal condition.
pub open spec fn spec_eval_expr(e: ExprView) -> Option<i64> {
    spec_outcome_value(spec_eval_expr_outcome(e))
}

pub open spec fn spec_eval_statement_outcome(s: StatementView) -> EvalOutcome {
    match s {
        StatementView::Expression(e) => spec_eval_expr_outcome(e),
    }
}

pub open spec fn spec_eval_statement(s: StatementView) -> Option<i64> {
    spec_outcome_value(spec_eval_statement_outcome(s))
}

/// What evaluating a program comes to: no value for an empty program, the
/// value of the last statement, or the first statement's fatal condition
/// — a failure terminates the evaluation and the statements after it are
/// not reached.
pub enum ProgramEval {
    NoStatements,
    Value(i64),
    Failed(EvalErrorKind, SpanView),
}

pub open spec fn spec_eval_program_outcome(stmts: Seq<StatementView>) -> ProgramEval
    decreases stmts.len(),
{
    if stmts.len() == 0 {
        ProgramEval::NoStatements
    } else {
        match spec_eval_statement_outcome(stmts[0]) {
            EvalOutcome::Failed(k, s) => ProgramEval::Failed(k, s),
            EvalOutcome::Value(v) => if stmts.len() == 1 {
                ProgramEval::Value(v)
            } else {
                spec_eval_program_outcome(stmts.skip(1))
            },
        }
    }
}

/// The value of a program, `None` for an empty program or when a fatal
/// condition arose.
pub open spec fn spec_eval_program(stmts: Seq<StatementView>) -> Option<i64> {
    match spec_eval_program_outcome(stmts) {
        ProgramEval::Value(v) => Some(v),
        _ => None,
    }
}

/// The views of a recorded error slot.
pub open spec fn error_view(e: Option<EvalError>) -> Option<EvalErrorView> {
    match e {
        Some(err) => Some(err@),
        None => None,
    }
}

/// A tree-walking evaluator; `last_value` holds the value of the node
/// visited most recently, and `last_error` the fatal condition that made
/// that value `None`, if one did.
pub struct ASTEvaluator {
    pub last_value: Option<i64>,
    pub last_error: Option<EvalError>,
}

impl ASTEvaluator {
    pub fn new() -> (r: Self)
        ensures
            r.last_value is None,
            r.last_error is None,
    {
        Self { last_value: None, last_error: None }
    }

    pub fn eval_number(&mut self, number: &ASTNumberExpression)
        ensures
            final(self).last_value == Some(number.number),
            final(self).last_error is None,
    {
        self.last_value = Some(number.number);
        self.last_error = None;
    }

    pub fn eval_binary_expression(&mut self, expr: &ASTBinaryExpression)
        ensures
            ({
                let e = ExprView::Binary(
                    expr.operator@,
                    Box::new(expr.left@),
                    Box::new(expr.right@),
                );
                final(self).last_value == spec_eval_expr(e) && error_view(final(self).last_error)
                    == spec_outcome_error(spec_eval_expr_outcome(e))
            }),
        decreases *expr, 0int,
    {
        self.eval_expression(&expr.left);
        let left = match self.last_value {
            Some(v) => v,
            None => { return ; },
        };
        self.eval_expression(&expr.right);
        let right = match self.last_value {
            Some(v) => v,
            None => { return ; },
        };
        let result = match expr.operator.kind {
            ASTBinaryOperatorKind::Plus => left.checked_add(right),
            ASTBinaryOperatorKind::Minus => left.checked_sub(right),
            ASTBinaryOperatorKind::Multiply => left.checked_mul(right),
            ASTBinaryOperatorKind::Divide => left.checked_div(right),
        };
        match result {
            Some(v) => {
                self.last_value = Some(v);
                self.last_error = None;
            },
            None => {
                let kind = if expr.operator.kind == ASTBinaryOperatorKind::Divide && right == 0 {
                    EvalErrorKind::DivisionByZero
                } else {
                    EvalErrorKind::Overflow
                };
                self.last_value = None;
                self.last_error = Some(
                    EvalError { kind, span: expr.operator.token.span.clone() },
                );
            },
        }
    }

    pub fn eval_parenthesized_expression(&mut self, paren_expr: &ASTParanthesizedExpression)
        ensures
            ({
                let e = ExprView::Parenthesized(Box::new(paren_expr.expression@));
                final(self).last_value == spec_eval_expr(e) && error_view(final(self).last_error)
                    == spec_outcome_error(spec_eval_expr_outcome(e))
            }),
        decreases *paren_expr, 0int,
    {
        self.eval_expression(&paren_expr.expression);
    }

    pub fn eval_expression(&mut self, expression: &ASTExpression)
        ensures
            final(self).last_value == spec_eval_expr(expression@),
            error_view(final(self).last_error) == spec_outcome_error(
                spec_eval_expr_outcome(expression@),
            ),
        decreases *expression, 1int,
    {
        match &expression.kind {
            ASTExpressionKind::Number(number) => self.eval_number(number),
            ASTExpressionKind::Binary(expr) => self.eval_binary_expression(expr),
            ASTExpressionKind::Paranthesized(paren_expr) => self.eval_parenthesized_expression(
                paren_expr,
            ),
        }
    }

    pub fn eval_statement(&mut self, statement: &ASTStatement)
        ensures
            final(self).last_value == spec_eval_statement(statement@),
            error_view(final(self).last_error) == spec_outcome_error(
                spec_eval_statement_outcome(statement@),
            ),
    {
        match &statement.kind {
            ASTStatementKind::Expression(expr) => self.eval_expression(expr),
        }
    }
}

impl ASTVisitor for ASTEvaluator {
    open spec fn visit_statement_post(pre: Self, statement: StatementView, post: Self) -> bool {
        post.last_value == spec_eval_statement(statement) && error_view(post.last_error)
            == spec_outcome_error(spec_eval_statement_outcome(statement))
    }

    open spec fn visit_expression_post(pre: Self, expression: ExprView, post: Self) -> bool {
        post.last_value == spec_eval_expr(expression) && error_view(post.last_error)
            == spec_outcome_error(spec_eval_expr_outcome(expression))
    }

    open spec fn visit_number_post(pre: Self, number: i64, post: Self) -> bool {
        post.last_value == Some(number) && post.last_error is None
    }

    open spec fn visit_binary_expression_post(pre: Self, expression: ExprView, post: Self) -> bool {
        Self::visit_expression_post(pre, expression, post)
    }

    open spec fn visit_parenthesized_expression_post(
        pre: Self,
        expression: ExprView,
        post: Self,
    ) -> bool {
        Self::visit_expression_post(pre, expression, post)
    }

    fn visit_statement(&mut self, statement: &ASTStatement) {
        self.eval_statement(statement);
    }

    fn visit_expression(&mut self, expression: &ASTExpression) {
        self.eval_expression(expression);
    }

    fn visit_number(&mut self, number: &ASTNumberExpression) {
        self.eval_number(number);
    }

    fn visit_binary_expression(&mut self, expr: &ASTBinaryExpression) {
        self.eval_binary_expression(expr);
    }

    fn visit_parenthesized_expression(&mut self, paren_expr: &ASTParanthesizedExpression) {
        self.eval_parenthesized_expression(paren_expr);
    }
}

/// Walking a program with a fresh-or-used evaluator leaves in it exactly
/// the value of the last statement, and that statement's fatal condition
/// if one arose; an empty walk leaves the evaluator untouched.
pub proof fn lemma_evaluator_visit(
    pre: ASTEvaluator,
    stmts: Seq<StatementView>,
    post: ASTEvaluator,
)
    requires
        visits_fold(pre, stmts, post),
    ensures
        stmts.len() == 0 ==> post == pre,
        stmts.len() > 0 ==> post.last_value == spec_eval_statement(stmts.last()) && error_view(
            post.last_error,
        ) == spec_outcome_error(spec_eval_statement_outcome(stmts.last())),
    decreases stmts.len(),
{
    if stmts.len() > 0 {
        let mid = choose|m: ASTEvaluator|
            #[trigger] ASTEvaluator::visit_statement_post(pre, stmts[0], m) && visits_fold(
                m,
                stmts.skip(1),
                post,
            );
        if stmts.len() == 1 {
            assert(post == mid);
            assert(stmts.last() == stmts[0]);
        } else {
            lemma_evaluator_visit(mid, stmts.skip(1), post);
            assert(stmts.skip(1).last() == stmts.last());
        }
    }
}

/// Evaluation is deterministic: two independent evaluator walks over the
/// same statement sequence end with the same value and the same recorded
/// condition. Two runs of the pipeline over one source string reach this
/// from the tokenizer's and parser's contracts, which fix their results
/// as functions of the source alone.
pub proof fn lemma_evaluation_deterministic(
    pre1: ASTEvaluator,
    pre2: ASTEvaluator,
    stmts: Seq<StatementView>,
    post1: ASTEvaluator,
    post2: ASTEvaluator,
)
    requires
        visits_fold(pre1, stmts, post1),
        visits_fold(pre2, stmts, post2),
        stmts.len() > 0,
    ensures
        post1.last_value == post2.last_value,
        error_view(post1.last_error) == error_view(post2.last_error),
{
    lemma_evaluator_visit(pre1, stmts, post1);
    lemma_evaluator_visit(pre2, stmts, post2);
}

} // verus!
