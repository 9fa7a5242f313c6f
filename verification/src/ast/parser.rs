//! The parser: recursive descent with precedence climbing over a token
//! sequence, producing statements until the end token is reached.
//!
//! A token that cannot start an expression, a source that ends inside an
//! expression, and a parenthesized expression without its closing
//! parenthesis are all reported as parse errors carrying the offending
//! token's span; nothing is discarded silently.

use vstd::prelude::*;

use crate::ast::lexer::{
    SpanView, TextSpan, Token, TokenKind, TokenView, eof_token_view, token_views, tokens_from, tokens_of,
};
use crate::ast::{
    ASTBinaryOperator, ASTBinaryOperatorKind, ASTExpression, ASTStatement, Ast, ExprView,
    OperatorView, StatementView, spec_precedence,
};

verus! {

#[derive(Debug, Clone, Copy, PartialEq, Eq, Structural)]
pub enum ParseErrorKind {
    /// A token that cannot start an expression stood where an expression
    /// was required.
    UnexpectedToken,
    /// The token sequence ended where an expression was required.
    UnexpectedEndOfInput,
    /// A parenthesized expression was not followed by a closing
    /// parenthesis.
    ExpectedRightParen,
}

/// A fatal parse condition, with the span of the offending token.
#[derive(Debug, PartialEq)]
pub struct ParseError {
    pub kind: ParseErrorKind,
    pub span: TextSpan,
}

/// Mathematical model of a parse error.
pub struct ParseErrorView {
    pub kind: ParseErrorKind,
    pub span: SpanView,
}

impl View for ParseError {
    type V = ParseErrorView;

    open spec fn view(&self) -> ParseErrorView {
        ParseErrorView { kind: self.kind, span: self.span@ }
    }
}

impl ParseError {
    pub fn new(kind: ParseErrorKind, span: TextSpan) -> (r: Self)
        ensures
            r@ == (ParseErrorView { kind, span: span@ }),
    {
        ParseError { kind, span }
    }
}

/// The binary operator a token stands for, if any.
pub open spec fn spec_binop_kind(kind: TokenKind) -> Option<ASTBinaryOperatorKind> {
    match kind {
        TokenKind::Plus => Some(ASTBinaryOperatorKind::Plus),
        TokenKind::Minus => Some(ASTBinaryOperatorKind::Minus),
        TokenKind::Asterisk => Some(ASTBinaryOperatorKind::Multiply),
        TokenKind::Slash => Some(ASTBinaryOperatorKind::Divide),
        _ => None,
    }
}

pub open spec fn spec_empty_span() -> SpanView {
    SpanView { start: 0, end: 0, literal: Seq::empty() }
}

/// Outcome of parsing one expression: the expression with the position
/// that follows it, or a fatal condition.
pub enum ExprParse {
    Parsed(ExprView, int),
    Fail(ParseErrorKind, SpanView),
}

/// Outcome of parsing one statement: a statement with the position that
/// follows it, the end of the statement sequence, or a fatal condition.
pub enum StmtParse {
    StmtParsed(StatementView, int),
    NoMore,
    StmtFail(ParseErrorKind, SpanView),
}

/// Outcome of parsing a whole program.
pub enum ProgramParse {
    ProgramParsed(Seq<StatementView>),
    ProgramFail(ParseErrorKind, SpanView),
}

/// Parses a primary expression at `pos`: a number literal, or a
/// parenthesized expression that must be followed by a closing
/// parenthesis.
pub open spec fn spec_parse_primary(toks: Seq<TokenView>, pos: int) -> ExprParse
    decreases toks.len() - pos, 0int,
{
    if pos < 0 || pos >= toks.len() {
        ExprParse::Fail(ParseErrorKind::UnexpectedEndOfInput, spec_empty_span())
    } else {
        let t = toks[pos];
        match t.kind {
            TokenKind::Number(n) => ExprParse::Parsed(ExprView::Number(n), pos + 1),
            TokenKind::LeftParen => match spec_parse_binary(toks, pos + 1, 0) {
                ExprParse::Parsed(inner, p2) => if 0 <= p2 < toks.len() {
                    if toks[p2].kind == TokenKind::RightParen {
                        ExprParse::Parsed(ExprView::Parenthesized(Box::new(inner)), p2 + 1)
                    } else {
                        ExprParse::Fail(ParseErrorKind::ExpectedRightParen, toks[p2].span)
                    }
                } else {
                    ExprParse::Fail(ParseErrorKind::ExpectedRightParen, spec_empty_span())
                },
                fail => fail,
            },
            TokenKind::EOF => ExprParse::Fail(ParseErrorKind::UnexpectedEndOfInput, t.span),
            _ => ExprParse::Fail(ParseErrorKind::UnexpectedToken, t.span),
        }
    }
}

/// Parses a binary-operator chain at `pos`: a primary expression followed
/// by every operator that binds tighter than `min_prec`.
pub open spec fn spec_parse_binary(toks: Seq<TokenView>, pos: int, min_prec: int) -> ExprParse
    decreases toks.len() - pos, 1int,
{
    match spec_parse_primary(toks, pos) {
        // a successful parse always lands past `pos` and inside the
        // sequence; the bound is restated here so the recursion visibly
        // shrinks
        ExprParse::Parsed(left, p1) => if pos < p1 <= toks.len() {
            spec_parse_climb(toks, p1, min_prec, left)
        } else {
            ExprParse::Parsed(left, p1)
        },
        fail => fail,
    }
}

/// The climbing loop: with `left` already parsed and the position at
/// `pos`, folds in operators whose precedence exceeds `min_prec`; each
/// right operand is parsed with the operator's own precedence as the new
/// floor, which makes operators of equal precedence associate to the
/// left.
pub open spec fn spec_parse_climb(
    toks: Seq<TokenView>,
    pos: int,
    min_prec: int,
    left: ExprView,
) -> ExprParse
    decreases toks.len() - pos, 2int,
{
    if 0 <= pos < toks.len() {
        match spec_binop_kind(toks[pos].kind) {
            Some(opk) => if spec_precedence(opk) > min_prec {
                let op = OperatorView { kind: opk, token: toks[pos] };
                match spec_parse_binary(toks, pos + 1, spec_precedence(opk)) {
                    ExprParse::Parsed(right, p2) => {
                        let folded = ExprView::Binary(op, Box::new(left), Box::new(right));
                        if pos + 1 < p2 <= toks.len() {
                            spec_parse_climb(toks, p2, min_prec, folded)
                        } else {
                            ExprParse::Parsed(folded, p2)
                        }
                    },
                    fail => fail,
                }
            } else {
                ExprParse::Parsed(left, pos)
            },
            None => ExprParse::Parsed(left, pos),
        }
    } else {
        ExprParse::Parsed(left, pos)
    }
}

/// Parses one statement at `pos`; the end token (or a position past the
/// end) means the statement sequence is over, which is not an error.
pub open spec fn spec_parse_statement(toks: Seq<TokenView>, pos: int) -> StmtParse {
    if pos < 0 || pos >= toks.len() {
        StmtParse::NoMore
    } else if toks[pos].kind == TokenKind::EOF {
        StmtParse::NoMore
    } else {
        match spec_parse_binary(toks, pos, 0) {
            ExprParse::Parsed(e, p) => StmtParse::StmtParsed(StatementView::Expression(e), p),
            ExprParse::Fail(k, s) => StmtParse::StmtFail(k, s),
        }
    }
}

/// Parses statements from `pos` until the end token, in source order.
pub open spec fn spec_parse_program(toks: Seq<TokenView>, pos: int) -> ProgramParse
    decreases toks.len() + 1 - pos,
{
    match spec_parse_statement(toks, pos) {
        StmtParse::NoMore => ProgramParse::ProgramParsed(Seq::empty()),
        StmtParse::StmtFail(k, s) => ProgramParse::ProgramFail(k, s),
        StmtParse::StmtParsed(st, p) => if pos < p <= toks.len() {
            match spec_parse_program(toks, p) {
                ProgramParse::ProgramParsed(rest) => ProgramParse::ProgramParsed(
                    seq![st] + rest,
                ),
                fail => fail,
            }
        } else {
            ProgramParse::ProgramParsed(seq![st])
        },
    }
}

/// A cursor over a token sequence from which statements are parsed one at
/// a time.
pub struct Parser {
    pub tokens: Vec<Token>,
    pub current: usize,
}

impl Parser {
    /// The token sequence the parser works on, as its mathematical model.
    pub open spec fn toks(self) -> Seq<TokenView> {
        token_views(self.tokens@)
    }

    pub open spec fn pos(self) -> int {
        self.current as int
    }

    /// The cursor may stand one position past the end, after the token
    /// there has been consumed; the token count must therefore fit below
    /// `usize::MAX`.
    pub open spec fn wf(self) -> bool {
        self.current as int <= self.tokens@.len() + 1 && self.tokens@.len() < usize::MAX
    }

    /// Builds a parser over a token sequence, dropping whitespace tokens.
    pub fn new(tokens: Vec<Token>) -> (r: Self)
        requires
            tokens@.len() < usize::MAX,
        ensures
            r.toks() == token_views(tokens@).filter(
                |t: TokenView| t.kind != TokenKind::Whitespace,
            ),
            r.pos() == 0,
            r.wf(),
    {
        let ghost all = token_views(tokens@);
        let ghost pred = |t: TokenView| t.kind != TokenKind::Whitespace;
        let mut filtered: Vec<Token> = Vec::new();
        let mut i: usize = 0;
        proof {
            assert(all.subrange(0, 0) =~= Seq::<TokenView>::empty());
            assert(Seq::<TokenView>::empty().filter(pred) =~= Seq::<TokenView>::empty());
            assert(token_views(filtered@) =~= Seq::<TokenView>::empty());
        }
        while i < tokens.len()
            invariant
                i <= tokens.len(),
                filtered@.len() <= i,
                all == token_views(tokens@),
                pred == (|t: TokenView| t.kind != TokenKind::Whitespace),
                token_views(filtered@) == all.subrange(0, i as int).filter(pred),
            decreases tokens.len() - i,
        {
            let ghost prefix = all.subrange(0, i as int);
            let t = &tokens[i];
            proof {
                assert(all.subrange(0, i + 1).drop_last() =~= prefix);
                assert(all.subrange(0, i + 1).last() == t@);
                reveal_with_fuel(Seq::filter, 2);
            }
            if t.kind != TokenKind::Whitespace {
                let copy = t.clone();
                let ghost before = token_views(filtered@);
                filtered.push(copy);
                proof {
                    assert(token_views(filtered@) =~= before.push(t@));
                    assert(all.subrange(0, i + 1).filter(pred) =~= prefix.filter(pred).push(t@));
                }
            } else {
                proof {
                    assert(all.subrange(0, i + 1).filter(pred) =~= prefix.filter(pred));
                }
            }
            i = i + 1;
        }
        proof {
            assert(all.subrange(0, tokens@.len() as int) =~= all);
        }
        Parser { tokens: filtered, current: 0 }
    }

    /// Builds a parser over a token sequence exactly as given.
    pub fn from_tokens(tokens: Vec<Token>) -> (r: Self)
        requires
            tokens@.len() < usize::MAX,
        ensures
            r.toks() == token_views(tokens@),
            r.pos() == 0,
            r.wf(),
    {
        Parser { tokens, current: 0 }
    }

    /// The token `offset` positions away from the cursor, if it exists.
    pub fn peek(&self, offset: isize) -> (r: Option<&Token>)
        ensures
            0 <= self.pos() + offset < self.toks().len() ==> (r matches Some(t) && t@
                == self.toks()[self.pos() + offset]),
            !(0 <= self.pos() + offset < self.toks().len()) ==> r is None,
    {
        if offset >= 0 {
            let off = offset as usize;
            if off < self.tokens.len() && self.current < self.tokens.len() - off {
                Some(&self.tokens[self.current + off])
            } else {
                None
            }
        } else {
            let back = ((-(offset + 1)) as usize) + 1;
            if back <= self.current && self.current - back < self.tokens.len() {
                Some(&self.tokens[self.current - back])
            } else {
                None
            }
        }
    }

    /// The token under the cursor, if any.
    pub fn current(&self) -> (r: Option<&Token>)
        ensures
            self.pos() < self.toks().len() ==> (r matches Some(t) && t@
                == self.toks()[self.pos()]),
            self.pos() >= self.toks().len() ==> r is None,
    {
        self.peek(0)
    }

    /// Consumes the token under the cursor, if one is there, and moves
    /// the cursor one position forward, never past one beyond the end.
    pub fn consume(&mut self) -> (r: Option<Token>)
        requires
            old(self).wf(),
        ensures
            final(self).wf(),
            final(self).toks() == old(self).toks(),
            old(self).pos() < old(self).toks().len() ==> (r matches Some(t) && t@
                == old(self).toks()[old(self).pos()]),
            old(self).pos() >= old(self).toks().len() ==> r is None,
            old(self).pos() <= old(self).toks().len() ==> final(self).pos() == old(self).pos()
                + 1,
            old(self).pos() > old(self).toks().len() ==> final(self).pos() == old(self).pos(),
    {
        if self.current < self.tokens.len() {
            let t = self.tokens[self.current].clone();
            self.current = self.current + 1;
            Some(t)
        } else if self.current == self.tokens.len() {
            self.current = self.current + 1;
            None
        } else {
            None
        }
    }

    /// Reads a binary operator at the cursor without consuming it.
    pub fn parse_binary_operator(&mut self) -> (r: Option<ASTBinaryOperator>)
        ensures
            *final(self) == *old(self),
            ({
                let at = if old(self).pos() < old(self).toks().len() {
                    spec_binop_kind(old(self).toks()[old(self).pos()].kind)
                } else {
                    None
                };
                match at {
                    Some(opk) => r matches Some(op) && op@ == (OperatorView {
                        kind: opk,
                        token: old(self).toks()[old(self).pos()],
                    }),
                    None => r is None,
                }
            }),
    {
        let token = match self.current() {
            Some(t) => t,
            None => { return None; },
        };
        let kind = match token.kind {
            TokenKind::Plus => Some(ASTBinaryOperatorKind::Plus),
            TokenKind::Minus => Some(ASTBinaryOperatorKind::Minus),
            TokenKind::Asterisk => Some(ASTBinaryOperatorKind::Multiply),
            TokenKind::Slash => Some(ASTBinaryOperatorKind::Divide),
            _ => None,
        };
        match kind {
            Some(kind) => Some(ASTBinaryOperator::new(kind, token.clone())),
            None => None,
        }
    }

    /// Parses a primary expression: a number, or a parenthesized
    /// expression followed by its closing parenthesis.
    pub fn parse_primary_expression(&mut self) -> (r: Result<ASTExpression, ParseError>)
        requires
            old(self).wf(),
        ensures
            final(self).wf(),
            final(self).toks() == old(self).toks(),
            spec_parse_primary(old(self).toks(), old(self).pos()) matches ExprParse::Parsed(e, p)
                ==> r matches Ok(expr) && expr@ == e && final(self).pos() == p,
            spec_parse_primary(old(self).toks(), old(self).pos()) matches ExprParse::Fail(k, s)
                ==> r matches Err(err) && err@.kind == k && err@.span == s,
            r matches Ok(_) ==> old(self).pos() < final(self).pos() <= old(self).toks().len(),
        decreases old(self).tokens@.len() - old(self).current, 0int,
    {
        let token = match self.consume() {
            Some(t) => t,
            None => {
                return Err(
                    ParseError::new(
                        ParseErrorKind::UnexpectedEndOfInput,
                        TextSpan::new(0, 0, String::new()),
                    ),
                );
            },
        };
        match token.kind {
            TokenKind::Number(number) => Ok(ASTExpression::number(number)),
            TokenKind::LeftParen => {
                let expression = self.parse_expression()?;
                match self.consume() {
                    None => Err(
                        ParseError::new(
                            ParseErrorKind::ExpectedRightParen,
                            TextSpan::new(0, 0, String::new()),
                        ),
                    ),
                    Some(close) => {
                        if close.kind == TokenKind::RightParen {
                            Ok(ASTExpression::paranthesized(expression))
                        } else {
                            Err(ParseError::new(ParseErrorKind::ExpectedRightParen, close.span))
                        }
                    },
                }
            },
            TokenKind::EOF => Err(
                ParseError::new(ParseErrorKind::UnexpectedEndOfInput, token.span),
            ),
            _ => Err(ParseError::new(ParseErrorKind::UnexpectedToken, token.span)),
        }
    }

    /// Parses an expression: a primary expression and then every operator
    /// whose precedence exceeds `precedence`, folded left-associatively.
    pub fn parse_binary_expression(&mut self, precedence: u8) -> (r: Result<
        ASTExpression,
        ParseError,
    >)
        requires
            old(self).wf(),
        ensures
            final(self).wf(),
            final(self).toks() == old(self).toks(),
            spec_parse_binary(old(self).toks(), old(self).pos(), precedence as int)
                matches ExprParse::Parsed(e, p) ==> r matches Ok(expr) && expr@ == e
                && final(self).pos() == p,
            spec_parse_binary(old(self).toks(), old(self).pos(), precedence as int)
                matches ExprParse::Fail(k, s) ==> r matches Err(err) && err@.kind == k && err@.span
                == s,
            r matches Ok(_) ==> old(self).pos() < final(self).pos() <= old(self).toks().len(),
        decreases old(self).tokens@.len() - old(self).current, 2int,
    {
        let ghost toks0 = self.toks();
        let ghost pos0 = self.pos();
        let mut left = self.parse_primary_expression()?;
        loop
            invariant
                self.wf(),
                toks0 == old(self).toks(),
                pos0 == old(self).pos(),
                self.toks() == toks0,
                0 <= pos0 < self.pos() <= toks0.len(),
                spec_parse_climb(toks0, self.pos(), precedence as int, left@) == spec_parse_binary(
                    toks0,
                    pos0,
                    precedence as int,
                ),
            ensures
                self.wf(),
                self.toks() == toks0,
                pos0 < self.pos() <= toks0.len(),
                spec_parse_binary(toks0, pos0, precedence as int) == ExprParse::Parsed(
                    left@,
                    self.pos(),
                ),
            decreases toks0.len() - self.pos(),
        {
            let operator = self.parse_binary_operator();
            let operator_precedence = match &operator {
                Some(op) => op.precedence(),
                None => { break ; },
            };
            if operator_precedence <= precedence {
                break ;
            }
            self.consume();
            let right = self.parse_binary_expression(operator_precedence)?;
            left = ASTExpression::binary(operator.unwrap(), left, right);
        }
        Ok(left)
    }

    /// Parses an expression with no precedence floor.
    pub fn parse_expression(&mut self) -> (r: Result<ASTExpression, ParseError>)
        requires
            old(self).wf(),
        ensures
            final(self).wf(),
            final(self).toks() == old(self).toks(),
            spec_parse_binary(old(self).toks(), old(self).pos(), 0) matches ExprParse::Parsed(
                e,
                p,
            ) ==> r matches Ok(expr) && expr@ == e && final(self).pos() == p,
            spec_parse_binary(old(self).toks(), old(self).pos(), 0) matches ExprParse::Fail(k, s)
                ==> r matches Err(err) && err@.kind == k && err@.span == s,
            r matches Ok(_) ==> old(self).pos() < final(self).pos() <= old(self).toks().len(),
        decreases old(self).tokens@.len() - old(self).current, 3int,
    {
        self.parse_binary_expression(0)
    }

    /// Parses one statement, `Ok(None)` once the end token is reached.
    pub fn parse_statement(&mut self) -> (r: Result<Option<ASTStatement>, ParseError>)
        requires
            old(self).wf(),
        ensures
            final(self).wf(),
            final(self).toks() == old(self).toks(),
            spec_parse_statement(old(self).toks(), old(self).pos()) matches StmtParse::StmtParsed(
                st,
                p,
            ) ==> r matches Ok(Some(stmt)) && stmt@ == st && final(self).pos() == p,
            spec_parse_statement(old(self).toks(), old(self).pos()) is NoMore ==> (r matches Ok(
                opt,
            ) && opt is None && *final(self) == *old(self)),
            spec_parse_statement(old(self).toks(), old(self).pos()) matches StmtParse::StmtFail(
                k,
                s,
            ) ==> r matches Err(err) && err@.kind == k && err@.span == s,
            r matches Ok(Some(_)) ==> old(self).pos() < final(self).pos()
                <= old(self).toks().len(),
    {
        let at_end = match self.current() {
            None => true,
            Some(token) => matches!(token.kind, TokenKind::EOF),
        };
        if at_end {
            return Ok(None);
        }
        let expr = self.parse_expression()?;
        Ok(Some(ASTStatement::expression(expr)))
    }

    /// Parses the next statement, `Ok(None)` once none remain.
    pub fn next_statement(&mut self) -> (r: Result<Option<ASTStatement>, ParseError>)
        requires
            old(self).wf(),
        ensures
            final(self).wf(),
            final(self).toks() == old(self).toks(),
            spec_parse_statement(old(self).toks(), old(self).pos()) matches StmtParse::StmtParsed(
                st,
                p,
            ) ==> r matches Ok(Some(stmt)) && stmt@ == st && final(self).pos() == p,
            spec_parse_statement(old(self).toks(), old(self).pos()) is NoMore ==> (r matches Ok(
                opt,
            ) && opt is None && *final(self) == *old(self)),
            spec_parse_statement(old(self).toks(), old(self).pos()) matches StmtParse::StmtFail(
                k,
                s,
            ) ==> r matches Err(err) && err@.kind == k && err@.span == s,
    {
        self.parse_statement()
    }

    /// Parses every remaining statement into a program, in source order.
    pub fn parse_program(&mut self) -> (r: Result<Ast, ParseError>)
        requires
            old(self).wf(),
        ensures
            final(self).wf(),
            final(self).toks() == old(self).toks(),
            spec_parse_program(old(self).toks(), old(self).pos())
                matches ProgramParse::ProgramParsed(sts) ==> r matches Ok(ast) && ast@ == sts,
            spec_parse_program(old(self).toks(), old(self).pos())
                matches ProgramParse::ProgramFail(k, s) ==> r matches Err(err) && err@.kind == k
                && err@.span == s,
    {
        let ghost toks0 = self.toks();
        let ghost pos0 = self.pos();
        let mut ast = Ast::new();
        loop
            invariant
                self.wf(),
                toks0 == old(self).toks(),
                pos0 == old(self).pos(),
                self.toks() == toks0,
                0 <= pos0 <= self.pos() <= toks0.len() + 1,
                spec_parse_program(toks0, self.pos()) matches ProgramParse::ProgramParsed(rest)
                    ==> spec_parse_program(toks0, pos0) == ProgramParse::ProgramParsed(
                    ast@ + rest,
                ),
                spec_parse_program(toks0, self.pos()) matches ProgramParse::ProgramFail(k, s)
                    ==> spec_parse_program(toks0, pos0) == ProgramParse::ProgramFail(k, s),
            ensures
                spec_parse_program(toks0, pos0) == ProgramParse::ProgramParsed(ast@),
            decreases toks0.len() + 1 - self.pos(),
        {
            let ghost cur = self.pos();
            let statement = match self.parse_statement() {
                Err(err) => { return Err(err); },
                Ok(None) => {
                    proof {
                        assert(spec_parse_program(toks0, cur) == ProgramParse::ProgramParsed(
                            Seq::<StatementView>::empty(),
                        ));
                        assert(ast@ + Seq::<StatementView>::empty() =~= ast@);
                    }
                    break ;
                },
                Ok(Some(statement)) => statement,
            };
            let ghost st = statement@;
            let ghost before = ast@;
            ast.add_statement(statement);
            proof {
                let p = self.pos();
                assert(spec_parse_program(toks0, cur) == (match spec_parse_program(toks0, p) {
                    ProgramParse::ProgramParsed(rest) => ProgramParse::ProgramParsed(
                        seq![st] + rest,
                    ),
                    fail => fail,
                }));
                match spec_parse_program(toks0, p) {
                    ProgramParse::ProgramParsed(rest) => {
                        assert(before + (seq![st] + rest) =~= (before.push(st)) + rest);
                    },
                    _ => {},
                }
            }
        }
        Ok(ast)
    }
}


/// Multiplication binds tighter than addition: for any number tokens
/// `a`, `b`, `c`, parsing `a + b * c` yields an addition whose right
/// operand is the multiplication of `b` and `c`.
pub proof fn lemma_multiplication_binds_tighter(
    a: TokenView,
    plus: TokenView,
    b: TokenView,
    star: TokenView,
    c: TokenView,
    eof: TokenView,
    na: i64,
    nb: i64,
    nc: i64,
)
    requires
        a.kind == TokenKind::Number(na),
        b.kind == TokenKind::Number(nb),
        c.kind == TokenKind::Number(nc),
        plus.kind == TokenKind::Plus,
        star.kind == TokenKind::Asterisk,
        eof.kind == TokenKind::EOF,
    ensures
        ({
            let mul = ExprView::Binary(
                OperatorView { kind: ASTBinaryOperatorKind::Multiply, token: star },
                Box::new(ExprView::Number(nb)),
                Box::new(ExprView::Number(nc)),
            );
            let total = ExprView::Binary(
                OperatorView { kind: ASTBinaryOperatorKind::Plus, token: plus },
                Box::new(ExprView::Number(na)),
                Box::new(mul),
            );
            spec_parse_statement(seq![a, plus, b, star, c, eof], 0) == StmtParse::StmtParsed(
                StatementView::Expression(total),
                5,
            )
        }),
{
    let toks = seq![a, plus, b, star, c, eof];
    let mul = ExprView::Binary(
        OperatorView { kind: ASTBinaryOperatorKind::Multiply, token: star },
        Box::new(ExprView::Number(nb)),
        Box::new(ExprView::Number(nc)),
    );
    let total = ExprView::Binary(
        OperatorView { kind: ASTBinaryOperatorKind::Plus, token: plus },
        Box::new(ExprView::Number(na)),
        Box::new(mul),
    );
    assert(spec_parse_primary(toks, 4) == ExprParse::Parsed(ExprView::Number(nc), 5));
    assert(spec_parse_climb(toks, 5, 2, ExprView::Number(nc)) == ExprParse::Parsed(
        ExprView::Number(nc),
        5,
    ));
    assert(spec_parse_binary(toks, 4, 2) == ExprParse::Parsed(ExprView::Number(nc), 5));
    assert(spec_parse_climb(toks, 5, 1, mul) == ExprParse::Parsed(mul, 5));
    assert(spec_parse_climb(toks, 3, 1, ExprView::Number(nb)) == ExprParse::Parsed(mul, 5));
    assert(spec_parse_primary(toks, 2) == ExprParse::Parsed(ExprView::Number(nb), 3));
    assert(spec_parse_binary(toks, 2, 1) == ExprParse::Parsed(mul, 5));
    assert(spec_parse_climb(toks, 5, 0, total) == ExprParse::Parsed(total, 5));
    assert(spec_parse_climb(toks, 1, 0, ExprView::Number(na)) == ExprParse::Parsed(total, 5));
    assert(spec_parse_primary(toks, 0) == ExprParse::Parsed(ExprView::Number(na), 1));
    assert(spec_parse_binary(toks, 0, 0) == ExprParse::Parsed(total, 5));
}

/// Operators of equal precedence associate to the left: for any number
/// tokens `a`, `b`, `c`, parsing `a - b - c` nests the first subtraction
/// inside the second, not the other way round.
pub proof fn lemma_left_associativity(
    a: TokenView,
    minus1: TokenView,
    b: TokenView,
    minus2: TokenView,
    c: TokenView,
    eof: TokenView,
    na: i64,
    nb: i64,
    nc: i64,
)
    requires
        a.kind == TokenKind::Number(na),
        b.kind == TokenKind::Number(nb),
        c.kind == TokenKind::Number(nc),
        minus1.kind == TokenKind::Minus,
        minus2.kind == TokenKind::Minus,
        eof.kind == TokenKind::EOF,
    ensures
        ({
            let inner = ExprView::Binary(
                OperatorView { kind: ASTBinaryOperatorKind::Minus, token: minus1 },
                Box::new(ExprView::Number(na)),
                Box::new(ExprView::Number(nb)),
            );
            let outer = ExprView::Binary(
                OperatorView { kind: ASTBinaryOperatorKind::Minus, token: minus2 },
                Box::new(inner),
                Box::new(ExprView::Number(nc)),
            );
            spec_parse_statement(seq![a, minus1, b, minus2, c, eof], 0) == StmtParse::StmtParsed(
                StatementView::Expression(outer),
                5,
            )
        }),
{
    let toks = seq![a, minus1, b, minus2, c, eof];
    let inner = ExprView::Binary(
        OperatorView { kind: ASTBinaryOperatorKind::Minus, token: minus1 },
        Box::new(ExprView::Number(na)),
        Box::new(ExprView::Number(nb)),
    );
    let outer = ExprView::Binary(
        OperatorView { kind: ASTBinaryOperatorKind::Minus, token: minus2 },
        Box::new(inner),
        Box::new(ExprView::Number(nc)),
    );
    assert(spec_parse_primary(toks, 4) == ExprParse::Parsed(ExprView::Number(nc), 5));
    assert(spec_parse_climb(toks, 5, 1, ExprView::Number(nc)) == ExprParse::Parsed(
        ExprView::Number(nc),
        5,
    ));
    assert(spec_parse_binary(toks, 4, 1) == ExprParse::Parsed(ExprView::Number(nc), 5));
    assert(spec_parse_primary(toks, 2) == ExprParse::Parsed(ExprView::Number(nb), 3));
    // the right operand of the first subtraction refuses the second one:
    // equal precedence does not exceed the floor
    assert(spec_parse_climb(toks, 3, 1, ExprView::Number(nb)) == ExprParse::Parsed(
        ExprView::Number(nb),
        3,
    ));
    assert(spec_parse_binary(toks, 2, 1) == ExprParse::Parsed(ExprView::Number(nb), 3));
    assert(spec_parse_climb(toks, 5, 0, outer) == ExprParse::Parsed(outer, 5));
    assert(spec_parse_climb(toks, 3, 0, inner) == ExprParse::Parsed(outer, 5));
    assert(spec_parse_climb(toks, 1, 0, ExprView::Number(na)) == ExprParse::Parsed(outer, 5));
    assert(spec_parse_primary(toks, 0) == ExprParse::Parsed(ExprView::Number(na), 1));
    assert(spec_parse_binary(toks, 0, 0) == ExprParse::Parsed(outer, 5));
}

/// Parentheses override precedence: for any number tokens `a`, `b`, `c`,
/// parsing `(a + b) * c` multiplies the parenthesized sum by `c`.
pub proof fn lemma_parentheses_override_precedence(
    lp: TokenView,
    a: TokenView,
    plus: TokenView,
    b: TokenView,
    rp: TokenView,
    star: TokenView,
    c: TokenView,
    eof: TokenView,
    na: i64,
    nb: i64,
    nc: i64,
)
    requires
        a.kind == TokenKind::Number(na),
        b.kind == TokenKind::Number(nb),
        c.kind == TokenKind::Number(nc),
        lp.kind == TokenKind::LeftParen,
        rp.kind == TokenKind::RightParen,
        plus.kind == TokenKind::Plus,
        star.kind == TokenKind::Asterisk,
        eof.kind == TokenKind::EOF,
    ensures
        ({
            let sum = ExprView::Binary(
                OperatorView { kind: ASTBinaryOperatorKind::Plus, token: plus },
                Box::new(ExprView::Number(na)),
                Box::new(ExprView::Number(nb)),
            );
            let grouped = ExprView::Parenthesized(Box::new(sum));
            let product = ExprView::Binary(
                OperatorView { kind: ASTBinaryOperatorKind::Multiply, token: star },
                Box::new(grouped),
                Box::new(ExprView::Number(nc)),
            );
            spec_parse_statement(seq![lp, a, plus, b, rp, star, c, eof], 0)
                == StmtParse::StmtParsed(StatementView::Expression(product), 7)
        }),
{
    let toks = seq![lp, a, plus, b, rp, star, c, eof];
    let sum = ExprView::Binary(
        OperatorView { kind: ASTBinaryOperatorKind::Plus, token: plus },
        Box::new(ExprView::Number(na)),
        Box::new(ExprView::Number(nb)),
    );
    let grouped = ExprView::Parenthesized(Box::new(sum));
    let product = ExprView::Binary(
        OperatorView { kind: ASTBinaryOperatorKind::Multiply, token: star },
        Box::new(grouped),
        Box::new(ExprView::Number(nc)),
    );
    assert(spec_parse_primary(toks, 3) == ExprParse::Parsed(ExprView::Number(nb), 4));
    assert(spec_parse_climb(toks, 4, 1, ExprView::Number(nb)) == ExprParse::Parsed(
        ExprView::Number(nb),
        4,
    ));
    assert(spec_parse_binary(toks, 3, 1) == ExprParse::Parsed(ExprView::Number(nb), 4));
    assert(spec_parse_climb(toks, 4, 0, sum) == ExprParse::Parsed(sum, 4));
    assert(spec_parse_climb(toks, 2, 0, ExprView::Number(na)) == ExprParse::Parsed(sum, 4));
    assert(spec_parse_primary(toks, 1) == ExprParse::Parsed(ExprView::Number(na), 2));
    assert(spec_parse_binary(toks, 1, 0) == ExprParse::Parsed(sum, 4));
    assert(spec_parse_primary(toks, 0) == ExprParse::Parsed(grouped, 5));
    assert(spec_parse_primary(toks, 6) == ExprParse::Parsed(ExprView::Number(nc), 7));
    assert(spec_parse_climb(toks, 7, 2, ExprView::Number(nc)) == ExprParse::Parsed(
        ExprView::Number(nc),
        7,
    ));
    assert(spec_parse_binary(toks, 6, 2) == ExprParse::Parsed(ExprView::Number(nc), 7));
    assert(spec_parse_climb(toks, 7, 0, product) == ExprParse::Parsed(product, 7));
    assert(spec_parse_climb(toks, 5, 0, grouped) == ExprParse::Parsed(product, 7));
    assert(spec_parse_binary(toks, 0, 0) == ExprParse::Parsed(product, 7));
}

/// Empty input tokenizes to the end token alone and yields zero
/// statements, which is not an error.
pub proof fn lemma_empty_input()
    ensures
        tokens_of(Seq::<char>::empty()) == seq![eof_token_view()],
        spec_parse_statement(seq![eof_token_view()], 0) == StmtParse::NoMore,
        spec_parse_program(seq![eof_token_view()], 0) == ProgramParse::ProgramParsed(
            Seq::<StatementView>::empty(),
        ),
{
    let s = Seq::<char>::empty();
    assert(tokens_of(s) == seq![eof_token_view()] + tokens_from(s, 1));
    assert(tokens_from(s, 1) =~= Seq::<TokenView>::empty());
    assert(tokens_of(s) =~= seq![eof_token_view()]);
}

/// A lone unmatched opening parenthesis is a reported fatal parse
/// condition, never a silent default.
pub proof fn lemma_unmatched_left_paren(lp: TokenView, eof: TokenView)
    requires
        lp.kind == TokenKind::LeftParen,
        eof.kind == TokenKind::EOF,
    ensures
        spec_parse_statement(seq![lp, eof], 0) == StmtParse::StmtFail(
            ParseErrorKind::UnexpectedEndOfInput,
            eof.span,
        ),
{
    let toks = seq![lp, eof];
    assert(spec_parse_primary(toks, 1) == ExprParse::Fail(
        ParseErrorKind::UnexpectedEndOfInput,
        eof.span,
    ));
    assert(spec_parse_binary(toks, 1, 0) == ExprParse::Fail(
        ParseErrorKind::UnexpectedEndOfInput,
        eof.span,
    ));
    assert(spec_parse_primary(toks, 0) == ExprParse::Fail(
        ParseErrorKind::UnexpectedEndOfInput,
        eof.span,
    ));
    assert(spec_parse_binary(toks, 0, 0) == ExprParse::Fail(
        ParseErrorKind::UnexpectedEndOfInput,
        eof.span,
    ));
}

} // verus!
