//! The tokenizer: turns a source string into a sequence of spanned tokens.
//!
//! Number literals saturate at `i64::MAX`: a decimal literal whose value
//! does not fit in an `i64` is lexed as `i64::MAX`.

use vstd::prelude::*;
use vstd::string::*;

verus! {

#[derive(Debug, Clone, Copy, PartialEq, Eq, Structural)]
pub enum TokenKind {
    Number(i64),
    Plus,
    Minus,
    Asterisk,
    Slash,
    LeftParen,
    RightParen,
    Bad,
    EOF,
    Whitespace,
}

/// Mathematical model of a text span.
pub struct SpanView {
    pub start: int,
    pub end: int,
    pub literal: Seq<char>,
}

/// Mathematical model of a token.
pub struct TokenView {
    pub kind: TokenKind,
    pub span: SpanView,
}

/// A region of the source text: character offsets and the text in between.
#[derive(Debug, PartialEq)]
pub struct TextSpan {
    pub start: usize,
    pub end: usize,
    pub literal: String,
}

impl View for TextSpan {
    type V = SpanView;

    open spec fn view(&self) -> SpanView {
        SpanView { start: self.start as int, end: self.end as int, literal: self.literal@ }
    }
}

impl Clone for TextSpan {
    fn clone(&self) -> (r: Self)
        ensures
            r@ == self@,
    {
        TextSpan { start: self.start, end: self.end, literal: self.literal.clone() }
    }
}

impl TextSpan {
    pub fn new(start: usize, end: usize, literal: String) -> (r: Self)
        ensures
            r@ == (SpanView { start: start as int, end: end as int, literal: literal@ }),
    {
        TextSpan { start, end, literal }
    }

    pub fn length(&self) -> (r: usize)
        requires
            self@.start <= self@.end,
        ensures
            r == self@.end - self@.start,
    {
        self.end - self.start
    }
}

/// A classified, spanned lexical unit of the source text.
#[derive(Debug, PartialEq)]
pub struct Token {
    pub kind: TokenKind,
    pub span: TextSpan,
}

impl View for Token {
    type V = TokenView;

    open spec fn view(&self) -> TokenView {
        TokenView { kind: self.kind, span: self.span@ }
    }
}

impl Clone for Token {
    fn clone(&self) -> (r: Self)
        ensures
            r@ == self@,
    {
        Token { kind: self.kind, span: self.span.clone() }
    }
}

impl Token {
    pub fn new(kind: TokenKind, span: TextSpan) -> (r: Self)
        ensures
            r@ == (TokenView { kind, span: span@ }),
    {
        Token { kind, span }
    }
}

/// The views of a sequence of tokens.
pub open spec fn token_views(tokens: Seq<Token>) -> Seq<TokenView> {
    tokens.map_values(|t: Token| t@)
}

pub open spec fn spec_is_digit(c: char) -> bool {
    48 <= c as u32 <= 57
}

/// The numeric value of a decimal digit character.
pub open spec fn spec_digit_val(c: char) -> int {
    c as u32 - 48
}

/// The characters with the Unicode `White_Space` property, which is what
/// `char::is_whitespace` recognizes.
pub open spec fn spec_is_whitespace(c: char) -> bool {
    c == ' ' || c == '\u{0009}' || c == '\u{000A}' || c == '\u{000B}' || c == '\u{000C}'
        || c == '\u{000D}' || c == '\u{0085}' || c == '\u{00A0}' || c == '\u{1680}'
        || c == '\u{2000}' || c == '\u{2001}' || c == '\u{2002}' || c == '\u{2003}'
        || c == '\u{2004}' || c == '\u{2005}' || c == '\u{2006}' || c == '\u{2007}'
        || c == '\u{2008}' || c == '\u{2009}' || c == '\u{200A}' || c == '\u{2028}'
        || c == '\u{2029}' || c == '\u{202F}' || c == '\u{205F}' || c == '\u{3000}'
}

/// The token kind of a single punctuation character; anything that is not
/// an operator or a parenthesis is unrecognized input.
pub open spec fn spec_punctuation_kind(c: char) -> TokenKind {
    if c == '+' {
        TokenKind::Plus
    } else if c == '-' {
        TokenKind::Minus
    } else if c == '*' {
        TokenKind::Asterisk
    } else if c == '/' {
        TokenKind::Slash
    } else if c == '(' {
        TokenKind::LeftParen
    } else if c == ')' {
        TokenKind::RightParen
    } else {
        TokenKind::Bad
    }
}

/// First position at or after `pos` that does not hold a decimal digit.
pub open spec fn digit_run_end(s: Seq<char>, pos: int) -> int
    decreases s.len() - pos,
{
    if pos < 0 || pos >= s.len() {
        pos
    } else if spec_is_digit(s[pos]) {
        digit_run_end(s, pos + 1)
    } else {
        pos
    }
}

/// The value of a string of decimal digits.
pub open spec fn spec_decimal_value(digits: Seq<char>) -> int
    decreases digits.len(),
{
    if digits.len() == 0 {
        0
    } else {
        spec_decimal_value(digits.drop_last()) * 10 + spec_digit_val(digits.last())
    }
}

/// The value carried by a number token: the literal's value, saturated at
/// `i64::MAX`.
pub open spec fn spec_number_value(digits: Seq<char>) -> int {
    if spec_decimal_value(digits) > i64::MAX {
        i64::MAX as int
    } else {
        spec_decimal_value(digits)
    }
}

/// The token that ends every token sequence, with an empty span.
pub open spec fn eof_token_view() -> TokenView {
    TokenView { kind: TokenKind::EOF, span: SpanView { start: 0, end: 0, literal: Seq::empty() } }
}

/// One step of tokenization: the token produced at position `pos` of the
/// source, with the position of the next step, or `None` once the end
/// token has already been produced.
pub open spec fn next_token_view(s: Seq<char>, pos: int) -> Option<(TokenView, int)> {
    if pos < 0 || pos > s.len() {
        None
    } else if pos == s.len() {
        Some((eof_token_view(), pos + 1))
    } else {
        let c = s[pos];
        if spec_is_digit(c) {
            let e = digit_run_end(s, pos);
            let lit = s.subrange(pos, e);
            Some(
                (
                    TokenView {
                        kind: TokenKind::Number(spec_number_value(lit) as i64),
                        span: SpanView { start: pos, end: e, literal: lit },
                    },
                    e,
                ),
            )
        } else {
            let kind = if spec_is_whitespace(c) {
                TokenKind::Whitespace
            } else {
                spec_punctuation_kind(c)
            };
            Some(
                (
                    TokenView {
                        kind,
                        span: SpanView { start: pos, end: pos + 1, literal: s.subrange(pos, pos + 1) },
                    },
                    pos + 1,
                ),
            )
        }
    }
}

/// All tokens produced from position `pos` on, ending with the end token.
pub open spec fn tokens_from(s: Seq<char>, pos: int) -> Seq<TokenView>
    decreases s.len() + 1 - pos,
{
    match next_token_view(s, pos) {
        None => Seq::empty(),
        Some(tp) => if pos < tp.1 <= s.len() + 1 {
            seq![tp.0] + tokens_from(s, tp.1)
        } else {
            seq![tp.0]
        },
    }
}

/// The full token sequence of a source string.
pub open spec fn tokens_of(s: Seq<char>) -> Seq<TokenView> {
    tokens_from(s, 0)
}

pub proof fn lemma_digit_run_end_bounds(s: Seq<char>, pos: int)
    requires
        0 <= pos <= s.len(),
    ensures
        pos <= digit_run_end(s, pos) <= s.len(),
        pos < s.len() && spec_is_digit(s[pos]) ==> pos + 1 <= digit_run_end(s, pos),
    decreases s.len() - pos,
{
    if pos < s.len() && spec_is_digit(s[pos]) {
        lemma_digit_run_end_bounds(s, pos + 1);
    }
}

/// A pull-based tokenizer over a source string; `current_pos` counts
/// characters, not bytes.
pub struct Lexer<'o> {
    pub input: &'o str,
    pub current_pos: usize,
}

impl<'o> Lexer<'o> {
    /// The positions the cursor can take run one past the character count,
    /// so that count must itself fit in `usize`.
    pub open spec fn wf(self) -> bool {
        self.input@.len() < usize::MAX
    }

    pub fn new(input: &'o str) -> (r: Self)
        ensures
            r.input@ == input@,
            r.current_pos == 0,
    {
        Lexer { input, current_pos: 0 }
    }

    pub fn is_whitespace(c: &char) -> (r: bool)
        ensures
            r == spec_is_whitespace(*c),
    {
        let c = *c;
        c == ' ' || c == '\u{0009}' || c == '\u{000A}' || c == '\u{000B}' || c == '\u{000C}'
            || c == '\u{000D}' || c == '\u{0085}' || c == '\u{00A0}' || c == '\u{1680}'
            || c == '\u{2000}' || c == '\u{2001}' || c == '\u{2002}' || c == '\u{2003}'
            || c == '\u{2004}' || c == '\u{2005}' || c == '\u{2006}' || c == '\u{2007}'
            || c == '\u{2008}' || c == '\u{2009}' || c == '\u{200A}' || c == '\u{2028}'
            || c == '\u{2029}' || c == '\u{202F}' || c == '\u{205F}' || c == '\u{3000}'
    }

    pub fn is_number_start(c: &char) -> (r: bool)
        ensures
            r == spec_is_digit(*c),
    {
        let u = *c as u32;
        48 <= u && u <= 57
    }

    pub fn current_char(&self) -> (r: Option<char>)
        ensures
            r == if self.current_pos < self.input@.len() {
                Some(self.input@[self.current_pos as int])
            } else {
                None::<char>
            },
    {
        if self.current_pos < self.input.unicode_len() {
            Some(self.input.get_char(self.current_pos))
        } else {
            None
        }
    }

    /// Consumes one character: returns the character under the cursor and
    /// moves the cursor one position forward, never past one beyond the end.
    pub fn consume(&mut self) -> (r: Option<char>)
        requires
            old(self).wf(),
        ensures
            final(self).input == old(self).input,
            final(self).wf(),
            old(self).current_pos > old(self).input@.len() ==> r is None
                && final(self).current_pos == old(self).current_pos,
            old(self).current_pos <= old(self).input@.len() ==> final(self).current_pos
                == old(self).current_pos + 1,
            old(self).current_pos == old(self).input@.len() ==> r is None,
            old(self).current_pos < old(self).input@.len() ==> r == Some(
                old(self).input@[old(self).current_pos as int],
            ),
    {
        let len = self.input.unicode_len();
        if self.current_pos > len {
            return None;
        }
        let c = self.current_char();
        self.current_pos = self.current_pos + 1;
        c
    }

    pub fn consume_punctuation(&mut self) -> (kind: TokenKind)
        requires
            old(self).wf(),
            old(self).current_pos < old(self).input@.len(),
        ensures
            final(self).input == old(self).input,
            final(self).current_pos == old(self).current_pos + 1,
            kind == spec_punctuation_kind(old(self).input@[old(self).current_pos as int]),
    {
        let c = match self.consume() {
            Some(c) => c,
            None => { return TokenKind::Bad; },
        };
        match c {
            '+' => TokenKind::Plus,
            '-' => TokenKind::Minus,
            '*' => TokenKind::Asterisk,
            '/' => TokenKind::Slash,
            '(' => TokenKind::LeftParen,
            ')' => TokenKind::RightParen,
            _ => TokenKind::Bad,
        }
    }

    /// Consumes a run of decimal digits, accumulating their value and
    /// saturating at `i64::MAX`.
    pub fn consume_number(&mut self) -> (number: i64)
        requires
            old(self).wf(),
        ensures
            final(self).input == old(self).input,
            old(self).current_pos <= old(self).input@.len() ==> {
                let e = digit_run_end(old(self).input@, old(self).current_pos as int);
                final(self).current_pos == e && number == spec_number_value(
                    old(self).input@.subrange(old(self).current_pos as int, e),
                )
            },
            old(self).current_pos > old(self).input@.len() ==> *final(self) == *old(self) && number
                == 0,
    {
        let ghost s = self.input@;
        let ghost p0 = self.current_pos as int;
        let cap: u64 = i64::MAX as u64;
        let mut value: u64 = 0;
        proof {
            if p0 <= s.len() {
                assert(s.subrange(p0, p0) =~= Seq::<char>::empty());
            }
        }
        loop
            invariant
                self.wf(),
                self.input == old(self).input,
                self.input@ == s,
                0 <= p0 <= self.current_pos as int,
                p0 <= s.len() ==> self.current_pos as int <= s.len(),
                p0 > s.len() ==> *self == *old(self) && value == 0,
                digit_run_end(s, p0) == digit_run_end(s, self.current_pos as int),
                p0 <= s.len() ==> value == spec_number_value(
                    s.subrange(p0, self.current_pos as int),
                ),
                value <= cap,
                cap == i64::MAX,
            ensures
                self.wf(),
                self.input == old(self).input,
                p0 <= s.len() ==> self.current_pos as int == digit_run_end(s, p0) && value
                    == spec_number_value(s.subrange(p0, digit_run_end(s, p0))),
                p0 > s.len() ==> *self == *old(self) && value == 0,
                value <= i64::MAX,
            decreases s.len() + 1 - self.current_pos as int,
        {
            let ghost p = self.current_pos as int;
            let c = match self.current_char() {
                Some(c) => c,
                None => {
                    proof {
                        if p0 <= s.len() {
                            assert(p == s.len());
                            assert(digit_run_end(s, p) == p);
                        }
                    }
                    break ;
                },
            };
            if !Lexer::is_number_start(&c) {
                proof {
                    assert(p0 <= p < s.len());
                    assert(!spec_is_digit(s[p]));
                    assert(digit_run_end(s, p) == p);
                }
                break ;
            }
            let d: u64 = ((c as u32) - 48) as u64;
            proof {
                assert(p0 <= p < s.len());
                assert(s.subrange(p0, p + 1).drop_last() =~= s.subrange(p0, p));
                assert(s.subrange(p0, p + 1).last() == c);
            }
            let ghost prev = spec_decimal_value(s.subrange(p0, p));
            let ghost next = spec_decimal_value(s.subrange(p0, p + 1));
            proof {
                assert(next == prev * 10 + d);
            }
            let limit: u64 = (cap - d) / 10;
            proof {
                assert(10 * (limit as int) + ((cap - d) as u64 % 10) as int == cap - d);
                assert(limit < cap);
            }
            if value > limit {
                proof {
                    assert(10 * (value as int) + d > cap);
                    if prev <= cap {
                        assert(prev == value);
                        assert(next > cap);
                    } else {
                        assert(value == cap);
                        assert(prev * 10 >= prev) by (nonlinear_arith)
                            requires
                                prev > 0,
                        ;
                        assert(next > cap);
                    }
                    assert(spec_number_value(s.subrange(p0, p + 1)) == cap);
                }
                value = cap;
            } else {
                proof {
                    assert(10 * (value as int) + d <= cap);
                    if prev > cap {
                        // saturated value is `cap`, yet `cap <= limit < cap`
                        assert(value == cap);
                        assert(false);
                    }
                    assert(prev == value);
                    assert(spec_number_value(s.subrange(p0, p + 1)) == next);
                }
                value = value * 10 + d;
            }
            self.consume();
            proof {
                assert(digit_run_end(s, p) == digit_run_end(s, p + 1));
            }
        }
        value as i64
    }

    /// Produces the next token, or `None` once the end token has been
    /// produced.
    pub fn next_token(&mut self) -> (r: Option<Token>)
        requires
            old(self).wf(),
        ensures
            final(self).input == old(self).input,
            final(self).wf(),
            match next_token_view(old(self).input@, old(self).current_pos as int) {
                None => r is None && final(self).current_pos == old(self).current_pos,
                Some(tp) => r matches Some(t) && t@ == tp.0 && final(self).current_pos as int
                    == tp.1,
            },
    {
        let ghost s = self.input@;
        let len = self.input.unicode_len();
        if self.current_pos > len {
            return None;
        }
        if self.current_pos == len {
            self.current_pos = self.current_pos + 1;
            return Some(Token::new(TokenKind::EOF, TextSpan::new(0, 0, String::new())));
        }
        let c = self.input.get_char(self.current_pos);
        let start = self.current_pos;
        let kind: TokenKind;
        if Lexer::is_number_start(&c) {
            let number = self.consume_number();
            kind = TokenKind::Number(number);
            proof {
                lemma_digit_run_end_bounds(s, start as int);
            }
        } else if Lexer::is_whitespace(&c) {
            self.consume();
            kind = TokenKind::Whitespace;
        } else {
            kind = self.consume_punctuation();
        }
        let end = self.current_pos;
        let literal = String::from_str(self.input.substring_char(start, end));
        let span = TextSpan::new(start, end, literal);
        Some(Token::new(kind, span))
    }
}

/// Runs the tokenizer over a whole source string: every token in order,
/// ending with the end token.
pub fn tokenize(input: &str) -> (r: Vec<Token>)
    requires
        input@.len() < usize::MAX,
    ensures
        token_views(r@) == tokens_of(input@),
{
    let ghost s = input@;
    let mut lexer = Lexer::new(input);
    let mut tokens: Vec<Token> = Vec::new();
    proof {
        assert(token_views(tokens@) =~= Seq::<TokenView>::empty());
    }
    loop
        invariant
            lexer.wf(),
            lexer.input@ == s,
            lexer.current_pos as int <= s.len() + 1,
            token_views(tokens@) + tokens_from(s, lexer.current_pos as int) == tokens_of(s),
        ensures
            token_views(tokens@) + tokens_from(s, lexer.current_pos as int) == tokens_of(s),
            next_token_view(s, lexer.current_pos as int) is None,
        decreases s.len() + 1 - lexer.current_pos as int,
    {
        let ghost pos = lexer.current_pos as int;
        let t = match lexer.next_token() {
            Some(t) => t,
            None => { break ; },
        };
        proof {
            let tp = next_token_view(s, pos).unwrap();
            if pos < s.len() {
                lemma_digit_run_end_bounds(s, pos);
            }
            assert(pos < tp.1 <= s.len() + 1);
            assert(tokens_from(s, pos) == seq![tp.0] + tokens_from(s, tp.1));
            assert(token_views(tokens@.push(t)) =~= token_views(tokens@).push(t@));
            assert(token_views(tokens@).push(t@) + tokens_from(s, tp.1) =~= token_views(tokens@)
                + tokens_from(s, pos));
        }
        tokens.push(t);
    }
    proof {
        assert(tokens_from(s, lexer.current_pos as int) =~= Seq::<TokenView>::empty());
        assert(token_views(tokens@) =~= token_views(tokens@) + Seq::<TokenView>::empty());
    }
    tokens
}

/// A run of digits reaching the end of the source ends the digit run at
/// the end of the source.
pub proof fn lemma_digit_run_all_digits(s: Seq<char>, pos: int)
    requires
        0 <= pos <= s.len(),
        forall|i: int| pos <= i < s.len() ==> spec_is_digit(s[i]),
    ensures
        digit_run_end(s, pos) == s.len(),
    decreases s.len() - pos,
{
    if pos < s.len() {
        lemma_digit_run_all_digits(s, pos + 1);
    }
}

/// A non-negative integer written in decimal with no other characters
/// tokenizes to exactly one number token carrying its value, followed by
/// the end token.
pub proof fn lemma_number_literal_tokens(s: Seq<char>)
    requires
        s.len() > 0,
        forall|i: int| 0 <= i < s.len() ==> spec_is_digit(s[i]),
        spec_decimal_value(s) <= i64::MAX,
    ensures
        tokens_of(s) == seq![
            TokenView {
                kind: TokenKind::Number(spec_decimal_value(s) as i64),
                span: SpanView { start: 0, end: s.len() as int, literal: s },
            },
            eof_token_view(),
        ],
{
    lemma_digit_run_all_digits(s, 0);
    assert(s.subrange(0, s.len() as int) =~= s);
    let numtok = TokenView {
        kind: TokenKind::Number(spec_decimal_value(s) as i64),
        span: SpanView { start: 0, end: s.len() as int, literal: s },
    };
    assert(next_token_view(s, 0) == Some((numtok, s.len() as int)));
    assert(tokens_from(s, s.len() as int + 1) =~= Seq::<TokenView>::empty());
    assert(tokens_from(s, s.len() as int) == seq![eof_token_view()] + tokens_from(
        s,
        s.len() as int + 1,
    ));
    assert(tokens_of(s) == seq![numtok] + tokens_from(s, s.len() as int));
    assert(tokens_of(s) =~= seq![numtok, eof_token_view()]);
}

} // verus!
