//! The abstract syntax tree: statements, expressions, the visitor
//! abstraction, and the tree printer.

pub mod evaluator;
pub mod lexer;
pub mod parser;

use vstd::prelude::*;
use vstd::string::*;

use crate::ast::evaluator::{ASTEvaluator, EvalError, ProgramEval, spec_eval_program_outcome};
use crate::ast::lexer::{Token, TokenView};

verus! {

/// Mathematical model of a binary operator: its kind together with the
/// token it originated from.
pub struct OperatorView {
    pub kind: ASTBinaryOperatorKind,
    pub token: TokenView,
}

/// Mathematical model of an expression tree.
pub enum ExprView {
    Number(i64),
    Binary(OperatorView, Box<ExprView>, Box<ExprView>),
    Parenthesized(Box<ExprView>),
}

/// Mathematical model of a statement.
pub enum StatementView {
    Expression(ExprView),
}

#[derive(Debug, Clone, Copy, PartialEq, Eq, Structural)]
pub enum ASTBinaryOperatorKind {
    Plus,
    Minus,
    Multiply,
    Divide,
}

#[derive(Debug)]
pub struct ASTBinaryOperator {
    pub kind: ASTBinaryOperatorKind,
    pub token: Token,
}

#[derive(Debug)]
pub struct ASTNumberExpression {
    pub number: i64,
}

#[derive(Debug)]
pub struct ASTBinaryExpression {
    pub left: Box<ASTExpression>,
    pub operator: ASTBinaryOperator,
    pub right: Box<ASTExpression>,
}

#[derive(Debug)]
pub struct ASTParanthesizedExpression {
    pub expression: Box<ASTExpression>,
}

#[derive(Debug)]
pub enum ASTExpressionKind {
    Number(ASTNumberExpression),
    Binary(ASTBinaryExpression),
    Paranthesized(ASTParanthesizedExpression),
}

#[derive(Debug)]
pub struct ASTExpression {
    pub kind: ASTExpressionKind,
}

#[derive(Debug)]
pub enum ASTStatementKind {
    Expression(ASTExpression),
}

#[derive(Debug)]
pub struct ASTStatement {
    pub kind: ASTStatementKind,
}

#[derive(Debug)]
pub struct Ast {
    pub statements: Vec<ASTStatement>,
}

pub open spec fn expr_view(e: ASTExpression) -> ExprView
    decreases e,
{
    match e.kind {
        ASTExpressionKind::Number(n) => ExprView::Number(n.number),
        ASTExpressionKind::Binary(b) => ExprView::Binary(
            OperatorView { kind: b.operator.kind, token: b.operator.token@ },
            Box::new(expr_view(*b.left)),
            Box::new(expr_view(*b.right)),
        ),
        ASTExpressionKind::Paranthesized(p) => ExprView::Parenthesized(
            Box::new(expr_view(*p.expression)),
        ),
    }
}

pub open spec fn statement_view(s: ASTStatement) -> StatementView {
    match s.kind {
        ASTStatementKind::Expression(e) => StatementView::Expression(expr_view(e)),
    }
}

impl View for ASTBinaryOperator {
    type V = OperatorView;

    open spec fn view(&self) -> OperatorView {
        OperatorView { kind: self.kind, token: self.token@ }
    }
}

impl View for ASTExpression {
    type V = ExprView;

    open spec fn view(&self) -> ExprView {
        expr_view(*self)
    }
}

impl View for ASTStatement {
    type V = StatementView;

    open spec fn view(&self) -> StatementView {
        statement_view(*self)
    }
}

impl View for Ast {
    type V = Seq<StatementView>;

    open spec fn view(&self) -> Seq<StatementView> {
        self.statements@.map_values(|s: ASTStatement| s@)
    }
}

/// Precedence of a binary operator: multiplicative operators bind tighter
/// than additive ones.
pub open spec fn spec_precedence(kind: ASTBinaryOperatorKind) -> int {
    match kind {
        ASTBinaryOperatorKind::Plus => 1,
        ASTBinaryOperatorKind::Minus => 1,
        ASTBinaryOperatorKind::Multiply => 2,
        ASTBinaryOperatorKind::Divide => 2,
    }
}

impl ASTBinaryOperator {
    pub fn new(kind: ASTBinaryOperatorKind, token: Token) -> (r: Self)
        ensures
            r@ == (OperatorView { kind, token: token@ }),
    {
        ASTBinaryOperator { kind, token }
    }

    pub fn precedence(&self) -> (r: u8)
        ensures
            r as int == spec_precedence(self.kind),
    {
        match self.kind {
            ASTBinaryOperatorKind::Plus | ASTBinaryOperatorKind::Minus => 1,
            ASTBinaryOperatorKind::Multiply | ASTBinaryOperatorKind::Divide => 2,
        }
    }
}

impl ASTExpression {
    pub fn new(kind: ASTExpressionKind) -> (r: Self)
        ensures
            r == (ASTExpression { kind }),
    {
        ASTExpression { kind }
    }

    pub fn number(number: i64) -> (r: Self)
        ensures
            r@ == ExprView::Number(number),
    {
        ASTExpression::new(ASTExpressionKind::Number(ASTNumberExpression { number }))
    }

    pub fn binary(operator: ASTBinaryOperator, left: ASTExpression, right: ASTExpression) -> (r:
        Self)
        ensures
            r@ == ExprView::Binary(operator@, Box::new(left@), Box::new(right@)),
    {
        ASTExpression::new(
            ASTExpressionKind::Binary(
                ASTBinaryExpression {
                    left: Box::new(left),
                    operator,
                    right: Box::new(right),
                },
            ),
        )
    }

    pub fn paranthesized(expression: ASTExpression) -> (r: Self)
        ensures
            r@ == ExprView::Parenthesized(Box::new(expression@)),
    {
        ASTExpression::new(
            ASTExpressionKind::Paranthesized(
                ASTParanthesizedExpression { expression: Box::new(expression) },
            ),
        )
    }
}

impl ASTStatement {
    pub fn new(kind: ASTStatementKind) -> (r: Self)
        ensures
            r == (ASTStatement { kind }),
    {
        ASTStatement { kind }
    }

    pub fn expression(expr: ASTExpression) -> (r: Self)
        ensures
            r@ == StatementView::Expression(expr@),
    {
        ASTStatement::new(ASTStatementKind::Expression(expr))
    }
}

/// The traversal capability over the node kinds of the tree: a concrete
/// visitor reacts to each kind of node, and states as a transition
/// relation what each reaction does to it.
pub trait ASTVisitor: Sized {
    /// What visiting a statement does to the visitor.
    spec fn visit_statement_post(pre: Self, statement: StatementView, post: Self) -> bool;

    /// What visiting an expression does to the visitor.
    spec fn visit_expression_post(pre: Self, expression: ExprView, post: Self) -> bool;

    /// What visiting a number literal does to the visitor.
    spec fn visit_number_post(pre: Self, number: i64, post: Self) -> bool;

    /// What visiting a binary node does to the visitor.
    spec fn visit_binary_expression_post(pre: Self, expression: ExprView, post: Self) -> bool;

    /// What visiting a parenthesized node does to the visitor.
    spec fn visit_parenthesized_expression_post(
        pre: Self,
        expression: ExprView,
        post: Self,
    ) -> bool;

    fn visit_statement(&mut self, statement: &ASTStatement)
        ensures
            Self::visit_statement_post(*old(self), statement@, *final(self)),
    ;

    fn visit_expression(&mut self, expression: &ASTExpression)
        ensures
            Self::visit_expression_post(*old(self), expression@, *final(self)),
    ;

    fn visit_number(&mut self, number: &ASTNumberExpression)
        ensures
            Self::visit_number_post(*old(self), number.number, *final(self)),
    ;

    fn visit_binary_expression(&mut self, expr: &ASTBinaryExpression)
        ensures
            Self::visit_binary_expression_post(
                *old(self),
                ExprView::Binary(expr.operator@, Box::new(expr.left@), Box::new(expr.right@)),
                *final(self),
            ),
    ;

    fn visit_parenthesized_expression(&mut self, paren_expr: &ASTParanthesizedExpression)
        ensures
            Self::visit_parenthesized_expression_post(
                *old(self),
                ExprView::Parenthesized(Box::new(paren_expr.expression@)),
                *final(self),
            ),
    ;
}

/// A visitor walk over a statement sequence: `post` is reachable from
/// `pre` by visiting each statement in order, each step related by the
/// visitor's own transition relation.
pub open spec fn visits_fold<V: ASTVisitor>(pre: V, stmts: Seq<StatementView>, post: V) -> bool
    decreases stmts.len(),
{
    if stmts.len() == 0 {
        post == pre
    } else {
        exists|mid: V|
            #[trigger] V::visit_statement_post(pre, stmts[0], mid) && visits_fold(
                mid,
                stmts.skip(1),
                post,
            )
    }
}

/// Extending a walk by one more visited statement.
pub proof fn lemma_visits_fold_push<V: ASTVisitor>(
    pre: V,
    stmts: Seq<StatementView>,
    mid: V,
    s: StatementView,
    post: V,
)
    requires
        visits_fold(pre, stmts, mid),
        V::visit_statement_post(mid, s, post),
    ensures
        visits_fold(pre, stmts.push(s), post),
    decreases stmts.len(),
{
    if stmts.len() == 0 {
        assert(stmts.push(s)[0] == s);
        assert(stmts.push(s).skip(1) =~= Seq::<StatementView>::empty());
        assert(visits_fold(post, stmts.push(s).skip(1), post));
        assert(V::visit_statement_post(pre, stmts.push(s)[0], post));
        assert(visits_fold(pre, stmts.push(s), post));
    } else {
        let mid0 = choose|m: V|
            #[trigger] V::visit_statement_post(pre, stmts[0], m) && visits_fold(
                m,
                stmts.skip(1),
                mid,
            );
        lemma_visits_fold_push(mid0, stmts.skip(1), mid, s, post);
        assert(stmts.push(s)[0] == stmts[0]);
        assert(stmts.push(s).skip(1) =~= stmts.skip(1).push(s));
        assert(V::visit_statement_post(pre, stmts.push(s)[0], mid0));
        assert(visits_fold(pre, stmts.push(s), post));
    }
}

/// Indentation added for each nesting level of the rendered tree.
pub const LEVEL_INDENT: usize = 2;

pub open spec fn spec_spaces(n: int) -> Seq<char>
    decreases n,
{
    if n <= 0 {
        Seq::empty()
    } else {
        spec_spaces(n - 1).push(' ')
    }
}

/// One rendered line: indentation, the text, and a line break.
pub open spec fn spec_line(indent: int, text: Seq<char>) -> Seq<char> {
    spec_spaces(indent) + text + seq!['\n']
}

/// The indentation of the next nesting level; it stops growing at the
/// machine's limit so that rendering is total.
pub open spec fn spec_next_indent(indent: int) -> int {
    if indent + LEVEL_INDENT <= usize::MAX {
        indent + LEVEL_INDENT
    } else {
        indent
    }
}

pub open spec fn spec_digit_char(d: int) -> char {
    if d == 0 {
        '0'
    } else if d == 1 {
        '1'
    } else if d == 2 {
        '2'
    } else if d == 3 {
        '3'
    } else if d == 4 {
        '4'
    } else if d == 5 {
        '5'
    } else if d == 6 {
        '6'
    } else if d == 7 {
        '7'
    } else if d == 8 {
        '8'
    } else {
        '9'
    }
}

/// The decimal digits of a non-negative integer.
pub open spec fn spec_digits_text(n: int) -> Seq<char>
    decreases n,
{
    if n < 0 {
        Seq::empty()
    } else if n < 10 {
        seq![spec_digit_char(n)]
    } else {
        spec_digits_text(n / 10).push(spec_digit_char(n % 10))
    }
}

/// A signed integer in decimal notation.
pub open spec fn spec_number_text(n: i64) -> Seq<char> {
    if n < 0 {
        seq!['-'] + spec_digits_text(-(n as int))
    } else {
        spec_digits_text(n as int)
    }
}

/// The name of a binary operator, as the printer shows it.
pub open spec fn spec_operator_text(kind: ASTBinaryOperatorKind) -> Seq<char> {
    match kind {
        ASTBinaryOperatorKind::Plus => "Plus"@,
        ASTBinaryOperatorKind::Minus => "Minus"@,
        ASTBinaryOperatorKind::Multiply => "Multiply"@,
        ASTBinaryOperatorKind::Divide => "Divide"@,
    }
}

/// The rendering of an expression: its header line, then the node itself
/// one level deeper.
pub open spec fn spec_render_expr(e: ExprView, indent: int) -> Seq<char>
    decreases e, 1int,
{
    spec_line(indent, "Expression"@) + spec_render_expr_kind(e, spec_next_indent(indent))
}

/// The rendering of the node under an expression header, depth-first and
/// left to right.
pub open spec fn spec_render_expr_kind(e: ExprView, indent: int) -> Seq<char>
    decreases e, 0int,
{
    match e {
        ExprView::Number(n) => spec_line(indent, "Number: "@ + spec_number_text(n)),
        ExprView::Binary(op, l, r) => spec_line(indent, "Binary Expression"@) + spec_line(
            spec_next_indent(indent),
            "Operator: "@ + spec_operator_text(op.kind),
        ) + spec_render_expr(*l, spec_next_indent(indent)) + spec_render_expr(
            *r,
            spec_next_indent(indent),
        ),
        ExprView::Parenthesized(inner) => spec_line(indent, "Parenthesized Expression"@)
            + spec_render_expr(*inner, spec_next_indent(indent)),
    }
}

pub open spec fn spec_render_statement(s: StatementView, indent: int) -> Seq<char> {
    match s {
        StatementView::Expression(e) => spec_line(indent, "Statement"@) + spec_render_expr(
            e,
            spec_next_indent(indent),
        ),
    }
}

/// The rendering of a whole program: each statement in order, starting at
/// indentation zero.
pub open spec fn spec_render_program(stmts: Seq<StatementView>) -> Seq<char>
    decreases stmts.len(),
{
    if stmts.len() == 0 {
        Seq::empty()
    } else {
        spec_render_program(stmts.drop_last()) + spec_render_statement(stmts.last(), 0)
    }
}

fn append_digit(s: &mut String, d: u64)
    requires
        d < 10,
    ensures
        final(s)@ == old(s)@ + seq![spec_digit_char(d as int)],
{
    proof {
        reveal_strlit("0");
        reveal_strlit("1");
        reveal_strlit("2");
        reveal_strlit("3");
        reveal_strlit("4");
        reveal_strlit("5");
        reveal_strlit("6");
        reveal_strlit("7");
        reveal_strlit("8");
        reveal_strlit("9");
    }
    let ghost before = s@;
    if d == 0 {
        s.append("0");
    } else if d == 1 {
        s.append("1");
    } else if d == 2 {
        s.append("2");
    } else if d == 3 {
        s.append("3");
    } else if d == 4 {
        s.append("4");
    } else if d == 5 {
        s.append("5");
    } else if d == 6 {
        s.append("6");
    } else if d == 7 {
        s.append("7");
    } else if d == 8 {
        s.append("8");
    } else {
        s.append("9");
    }
    proof {
        assert(s@ =~= before + seq![spec_digit_char(d as int)]);
    }
}

fn append_digits(s: &mut String, n: u64)
    ensures
        final(s)@ == old(s)@ + spec_digits_text(n as int),
    decreases n,
{
    let ghost before = s@;
    if n < 10 {
        append_digit(s, n);
    } else {
        append_digits(s, n / 10);
        append_digit(s, n % 10);
        proof {
            assert(s@ =~= before + spec_digits_text(n as int));
        }
    }
}

fn append_number_text(s: &mut String, n: i64)
    ensures
        final(s)@ == old(s)@ + spec_number_text(n),
{
    let ghost before = s@;
    if n >= 0 {
        append_digits(s, n as u64);
    } else {
        proof {
            reveal_strlit("-");
        }
        s.append("-");
        let magnitude: u64 = ((-(n + 1)) as u64) + 1;
        proof {
            assert(magnitude as int == -(n as int));
        }
        append_digits(s, magnitude);
        proof {
            assert(s@ =~= before + spec_number_text(n));
        }
    }
}

fn append_operator_text(s: &mut String, kind: ASTBinaryOperatorKind)
    ensures
        final(s)@ == old(s)@ + spec_operator_text(kind),
{
    match kind {
        ASTBinaryOperatorKind::Plus => s.append("Plus"),
        ASTBinaryOperatorKind::Minus => s.append("Minus"),
        ASTBinaryOperatorKind::Multiply => s.append("Multiply"),
        ASTBinaryOperatorKind::Divide => s.append("Divide"),
    }
}

/// A visitor that renders the tree as indented text, one node per line.
pub struct ASTPrintor {
    pub indent: usize,
    pub output: String,
}

impl ASTPrintor {
    /// A printer that starts at indentation zero with empty output.
    pub fn new() -> (r: Self)
        ensures
            r.indent == 0,
            r.output@ == Seq::<char>::empty(),
    {
        ASTPrintor { indent: 0, output: String::new() }
    }

    /// Gives up the printer and hands out what it has rendered.
    pub fn into_output(self) -> (r: String)
        ensures
            r@ == self.output@,
    {
        self.output
    }

    fn print_with_indent(&mut self, text: &str)
        ensures
            final(self).indent == old(self).indent,
            final(self).output@ == old(self).output@ + spec_line(
                old(self).indent as int,
                text@,
            ),
    {
        let ghost start = self.output@;
        let mut i: usize = 0;
        proof {
            assert(start + spec_spaces(0) =~= start);
        }
        while i < self.indent
            invariant
                i <= self.indent,
                self.indent == old(self).indent,
                start == old(self).output@,
                self.output@ == start + spec_spaces(i as int),
            decreases self.indent - i,
        {
            self.output.append(" ");
            proof {
                reveal_strlit(" ");
                assert(start + spec_spaces(i as int) + " "@ =~= start + spec_spaces(i + 1));
            }
            i = i + 1;
        }
        self.output.append(text);
        self.output.append("\n");
        proof {
            reveal_strlit("\n");
            assert(self.output@ =~= start + spec_line(old(self).indent as int, text@));
        }
    }

    /// Raises the indentation by one level, holding at the machine's
    /// limit.
    fn increase_indent(&mut self)
        ensures
            final(self).output == old(self).output,
            final(self).indent as int == spec_next_indent(old(self).indent as int),
    {
        if self.indent <= usize::MAX - LEVEL_INDENT {
            self.indent = self.indent + LEVEL_INDENT;
        }
    }

    pub fn print_number(&mut self, number: &ASTNumberExpression)
        ensures
            final(self).indent == old(self).indent,
            final(self).output@ == old(self).output@ + spec_render_expr_kind(
                ExprView::Number(number.number),
                old(self).indent as int,
            ),
    {
        let mut text = String::from_str("Number: ");
        append_number_text(&mut text, number.number);
        self.print_with_indent(text.as_str());
    }

    pub fn print_binary_expression(&mut self, expr: &ASTBinaryExpression)
        ensures
            final(self).indent == old(self).indent,
            final(self).output@ == old(self).output@ + spec_render_expr_kind(
                ExprView::Binary(
                    expr.operator@,
                    Box::new(expr.left@),
                    Box::new(expr.right@),
                ),
                old(self).indent as int,
            ),
        decreases *expr, 0int,
    {
        let ghost start = self.output@;
        self.print_with_indent("Binary Expression");
        let saved = self.indent;
        self.increase_indent();
        let mut text = String::from_str("Operator: ");
        append_operator_text(&mut text, expr.operator.kind);
        self.print_with_indent(text.as_str());
        self.print_expression(&expr.left);
        self.print_expression(&expr.right);
        self.indent = saved;
        proof {
            assert(self.output@ =~= start + spec_render_expr_kind(
                ExprView::Binary(
                    expr.operator@,
                    Box::new(expr.left@),
                    Box::new(expr.right@),
                ),
                saved as int,
            ));
        }
    }

    pub fn print_parenthesized_expression(&mut self, paren_expr: &ASTParanthesizedExpression)
        ensures
            final(self).indent == old(self).indent,
            final(self).output@ == old(self).output@ + spec_render_expr_kind(
                ExprView::Parenthesized(Box::new(paren_expr.expression@)),
                old(self).indent as int,
            ),
        decreases *paren_expr, 0int,
    {
        let ghost start = self.output@;
        self.print_with_indent("Parenthesized Expression");
        let saved = self.indent;
        self.increase_indent();
        self.print_expression(&paren_expr.expression);
        self.indent = saved;
        proof {
            assert(self.output@ =~= start + spec_render_expr_kind(
                ExprView::Parenthesized(Box::new(paren_expr.expression@)),
                saved as int,
            ));
        }
    }

    pub fn print_expression(&mut self, expression: &ASTExpression)
        ensures
            final(self).indent == old(self).indent,
            final(self).output@ == old(self).output@ + spec_render_expr(
                expression@,
                old(self).indent as int,
            ),
        decreases *expression, 1int,
    {
        let ghost start = self.output@;
        self.print_with_indent("Expression");
        let saved = self.indent;
        self.increase_indent();
        match &expression.kind {
            ASTExpressionKind::Number(number) => self.print_number(number),
            ASTExpressionKind::Binary(expr) => self.print_binary_expression(expr),
            ASTExpressionKind::Paranthesized(paren_expr) => self.print_parenthesized_expression(
                paren_expr,
            ),
        }
        self.indent = saved;
        proof {
            assert(self.output@ =~= start + spec_render_expr(expression@, saved as int));
        }
    }

    pub fn print_statement(&mut self, statement: &ASTStatement)
        ensures
            final(self).indent == old(self).indent,
            final(self).output@ == old(self).output@ + spec_render_statement(
                statement@,
                old(self).indent as int,
            ),
    {
        let ghost start = self.output@;
        self.print_with_indent("Statement");
        let saved = self.indent;
        self.increase_indent();
        match &statement.kind {
            ASTStatementKind::Expression(expr) => self.print_expression(expr),
        }
        self.indent = saved;
        proof {
            assert(self.output@ =~= start + spec_render_statement(statement@, saved as int));
        }
    }
}

impl ASTVisitor for ASTPrintor {
    open spec fn visit_statement_post(pre: Self, statement: StatementView, post: Self) -> bool {
        post.indent == pre.indent && post.output@ == pre.output@ + spec_render_statement(
            statement,
            pre.indent as int,
        )
    }

    open spec fn visit_expression_post(pre: Self, expression: ExprView, post: Self) -> bool {
        post.indent == pre.indent && post.output@ == pre.output@ + spec_render_expr(
            expression,
            pre.indent as int,
        )
    }

    open spec fn visit_number_post(pre: Self, number: i64, post: Self) -> bool {
        post.indent == pre.indent && post.output@ == pre.output@ + spec_render_expr_kind(
            ExprView::Number(number),
            pre.indent as int,
        )
    }

    open spec fn visit_binary_expression_post(pre: Self, expression: ExprView, post: Self) -> bool {
        post.indent == pre.indent && post.output@ == pre.output@ + spec_render_expr_kind(
            expression,
            pre.indent as int,
        )
    }

    open spec fn visit_parenthesized_expression_post(
        pre: Self,
        expression: ExprView,
        post: Self,
    ) -> bool {
        post.indent == pre.indent && post.output@ == pre.output@ + spec_render_expr_kind(
            expression,
            pre.indent as int,
        )
    }

    fn visit_statement(&mut self, statement: &ASTStatement) {
        self.print_statement(statement);
    }

    fn visit_expression(&mut self, expression: &ASTExpression) {
        self.print_expression(expression);
    }

    fn visit_number(&mut self, number: &ASTNumberExpression) {
        self.print_number(number);
    }

    fn visit_binary_expression(&mut self, expr: &ASTBinaryExpression) {
        self.print_binary_expression(expr);
    }

    fn visit_parenthesized_expression(&mut self, paren_expr: &ASTParanthesizedExpression) {
        self.print_parenthesized_expression(paren_expr);
    }
}

/// A rendering seen from the front: the first statement's lines, then
/// the rest of the program.
pub proof fn lemma_render_program_front(stmts: Seq<StatementView>)
    requires
        stmts.len() > 0,
    ensures
        spec_render_program(stmts) == spec_render_statement(stmts[0], 0) + spec_render_program(
            stmts.skip(1),
        ),
    decreases stmts.len(),
{
    let head = spec_render_statement(stmts[0], 0);
    if stmts.len() == 1 {
        assert(stmts.drop_last().len() == 0);
        assert(spec_render_program(stmts.drop_last()) == Seq::<char>::empty());
        assert(stmts.skip(1) =~= Seq::<StatementView>::empty());
        assert(spec_render_program(stmts.skip(1)) == Seq::<char>::empty());
        assert(stmts.last() == stmts[0]);
        assert(Seq::<char>::empty() + head =~= head + Seq::<char>::empty());
    } else {
        lemma_render_program_front(stmts.drop_last());
        let mid = spec_render_program(stmts.drop_last().skip(1));
        let tail = spec_render_statement(stmts.last(), 0);
        assert(stmts.drop_last()[0] == stmts[0]);
        assert(stmts.drop_last().skip(1) =~= stmts.skip(1).drop_last());
        assert(stmts.skip(1).last() == stmts.last());
        // the whole program from the back, its front part from the
        // recursive call
        assert(spec_render_program(stmts) == (head + mid) + tail);
        // the trailing program from the back
        assert(spec_render_program(stmts.skip(1)) == mid + tail);
        assert((head + mid) + tail =~= head + (mid + tail));
    }
}

/// Walking a program with a printer at indentation zero appends exactly
/// the program's rendering to its output; an empty walk leaves the
/// printer untouched.
pub proof fn lemma_printer_visit(pre: ASTPrintor, stmts: Seq<StatementView>, post: ASTPrintor)
    requires
        visits_fold(pre, stmts, post),
    ensures
        post.indent == pre.indent,
        pre.indent == 0 ==> post.output@ == pre.output@ + spec_render_program(stmts),
    decreases stmts.len(),
{
    if stmts.len() == 0 {
        assert(post == pre);
        assert(pre.output@ + spec_render_program(stmts) =~= pre.output@);
    } else {
        let mid = choose|m: ASTPrintor|
            #[trigger] ASTPrintor::visit_statement_post(pre, stmts[0], m) && visits_fold(
                m,
                stmts.skip(1),
                post,
            );
        lemma_printer_visit(mid, stmts.skip(1), post);
        if pre.indent == 0 {
            lemma_render_program_front(stmts);
            assert(post.output@ =~= pre.output@ + spec_render_program(stmts));
        }
    }
}

impl Ast {
    pub fn new() -> (r: Self)
        ensures
            r@ == Seq::<StatementView>::empty(),
    {
        let ast = Ast { statements: Vec::new() };
        proof {
            assert(ast@ =~= Seq::<StatementView>::empty());
        }
        ast
    }

    pub fn add_statement(&mut self, statement: ASTStatement)
        ensures
            final(self)@ == old(self)@.push(statement@),
    {
        let ghost before = self@;
        self.statements.push(statement);
        proof {
            assert(self@ =~= before.push(statement@));
        }
    }

    /// Walks every statement in source order with the given visitor: the
    /// visitor ends as the fold of its own statement transition over the
    /// program.
    pub fn visit<V: ASTVisitor>(&self, visitor: &mut V)
        ensures
            visits_fold(*old(visitor), self@, *final(visitor)),
    {
        let ghost v0 = *visitor;
        let mut i: usize = 0;
        proof {
            assert(self@.subrange(0, 0) =~= Seq::<StatementView>::empty());
        }
        while i < self.statements.len()
            invariant
                i <= self.statements.len(),
                v0 == *old(visitor),
                visits_fold(v0, self@.subrange(0, i as int), *visitor),
            decreases self.statements@.len() - i,
        {
            let ghost before = *visitor;
            visitor.visit_statement(&self.statements[i]);
            proof {
                assert(self@.subrange(0, i + 1) =~= self@.subrange(0, i as int).push(
                    self@[i as int],
                ));
                lemma_visits_fold_push(
                    v0,
                    self@.subrange(0, i as int),
                    before,
                    self@[i as int],
                    *visitor,
                );
            }
            i = i + 1;
        }
        proof {
            assert(self@.subrange(0, self@.len() as int) =~= self@);
        }
    }

    /// Renders the whole program as an indented textual tree.
    pub fn visualize(&self) -> (r: String)
        ensures
            r@ == spec_render_program(self@),
    {
        let mut printor = ASTPrintor { indent: 0, output: String::new() };
        let mut i: usize = 0;
        proof {
            assert(self@.subrange(0, 0) =~= Seq::<StatementView>::empty());
        }
        while i < self.statements.len()
            invariant
                i <= self.statements.len(),
                printor.indent == 0,
                printor.output@ == spec_render_program(self@.subrange(0, i as int)),
            decreases self.statements@.len() - i,
        {
            printor.print_statement(&self.statements[i]);
            proof {
                assert(self@.subrange(0, i + 1).drop_last() =~= self@.subrange(0, i as int));
                assert(self@.subrange(0, i + 1).last() == self@[i as int]);
            }
            i = i + 1;
        }
        proof {
            assert(self@.subrange(0, self@.len() as int) =~= self@);
        }
        printor.output
    }

    /// Reduces the whole program to the value of its last statement.
    /// `Ok(None)` for an empty program; the first fatal arithmetic
    /// condition terminates the evaluation and comes back with the span
    /// of the operator token at which it arose.
    pub fn evaluate(&self) -> (r: Result<Option<i64>, EvalError>)
        ensures
            spec_eval_program_outcome(self@) is NoStatements ==> (r matches Ok(opt) && opt
                is None),
            spec_eval_program_outcome(self@) matches ProgramEval::Value(v) ==> (r matches Ok(
                opt,
            ) && opt == Some(v)),
            spec_eval_program_outcome(self@) matches ProgramEval::Failed(k, s) ==> (r matches Err(
                err,
            ) && err@.kind == k && err@.span == s),
    {
        let ghost stmts = self@;
        let mut evaluator = ASTEvaluator::new();
        let mut i: usize = 0;
        proof {
            assert(stmts.skip(0) =~= stmts);
        }
        while i < self.statements.len()
            invariant
                stmts == self@,
                i <= self.statements.len(),
                stmts.len() == self.statements@.len(),
                i < stmts.len() ==> spec_eval_program_outcome(stmts) == spec_eval_program_outcome(
                    stmts.skip(i as int),
                ),
                i == stmts.len() && stmts.len() > 0 ==> (spec_eval_program_outcome(stmts)
                    matches ProgramEval::Value(v) && evaluator.last_value == Some(v)),
                i == 0 ==> evaluator.last_value is None,
            decreases self.statements@.len() - i,
        {
            evaluator.eval_statement(&self.statements[i]);
            proof {
                assert(stmts.skip(i as int)[0] == stmts[i as int]);
                assert(stmts.skip(i as int).skip(1) =~= stmts.skip(i as int + 1));
            }
            match &evaluator.last_error {
                Some(err) => {
                    return Err(err.clone());
                },
                None => {},
            }
            i = i + 1;
        }
        Ok(evaluator.last_value)
    }
}

} // verus!
