//! The parser.
//!
//! [`Parser::parse`] turns a token sequence into one expression by
//! recursive descent over a fixed precedence hierarchy, lowest to highest
//! binding power: equality (`!=` `==`), comparison (`>` `>=` `<` `<=`),
//! term (`+` `-`), factor (`*` `/`) — all left-associative — then
//! right-associative prefix unary (`!` `-`), then primary (literals and
//! parenthesized grouping).  The entry point parses exactly one expression
//! and ignores whatever follows it; the first structural error aborts
//! parsing.  [`expression_spec`] and its companions state the grammar.

use crate::error::{Error, ErrorView};
use crate::expr::{Expr, ExprView};
use crate::lexer::{digit_run_end, is_digit_char, peek_at};
use crate::literal::{Literal, LiteralView};
use crate::token::{Token, TokenKind, TokenView};
use vstd::prelude::*;
use vstd::string::StrSliceExecFns;

verus! {

// ---------------------------------------------------------------------------
// The grammar model: what parsing a token sequence yields.
// ---------------------------------------------------------------------------

/// A parseable token sequence: what the lexer hands over, ending in `Eof`.
pub open spec fn tokens_wf(ts: Seq<TokenView>) -> bool {
    ts.len() >= 1 && ts[ts.len() - 1].kind == TokenKind::Eof
}

/// The token at `i`; reads past the end are absorbed into a bare `Eof`,
/// which no grammar rule accepts.
pub open spec fn tok_at(ts: Seq<TokenView>, i: int) -> TokenView {
    if 0 <= i < ts.len() {
        ts[i]
    } else {
        TokenView {
            kind: TokenKind::Eof,
            lexeme: None,
            position: crate::position::PositionView { start: 0, current: 0, line: 1 },
        }
    }
}

/// The number form the lexer produces and the parser accepts as a number
/// literal's text: one or more digits, optionally followed by a decimal
/// point and one or more digits.
pub open spec fn is_number_text(s: Seq<char>) -> bool {
    let whole = digit_run_end(s, 0);
    &&& whole >= 1
    &&& (whole == s.len() || (peek_at(s, whole) == '.' && whole + 1 < s.len() && digit_run_end(
        s,
        whole + 1,
    ) == s.len()))
}

/// The `primary` rule: `false`, `true`, `nil`, a number, a string, or a
/// parenthesized grouping.  Both `false` and `true` currently produce the
/// boolean value `false`; see the module documentation of
/// [`crate::interpreter`] for this documented quirk.
pub open spec fn primary_spec(ts: Seq<TokenView>, i: int) -> Result<(ExprView, int), Seq<char>>
    decreases ts.len() - i, 0int,
{
    let t = tok_at(ts, i);
    match t.kind {
        TokenKind::False => Ok((ExprView::Literal { value: LiteralView::Boolean(false) }, i + 1)),
        TokenKind::True => Ok((ExprView::Literal { value: LiteralView::Boolean(false) }, i + 1)),
        TokenKind::Nil => Ok((ExprView::Literal { value: LiteralView::Nil }, i + 1)),
        TokenKind::Number => match t.lexeme {
            Some(lx) => if is_number_text(lx) {
                Ok((ExprView::Literal { value: LiteralView::Number(lx) }, i + 1))
            } else {
                Err("Failed to parse number literal."@)
            },
            None => Err("Failed to parse number literal."@),
        },
        TokenKind::StringLiteral => match t.lexeme {
            Some(lx) => Ok((ExprView::Literal { value: LiteralView::Str(lx) }, i + 1)),
            None => Err("Invalid expression"@),
        },
        TokenKind::ParenL => match expression_spec(ts, i + 1) {
            Ok((e, j)) => if tok_at(ts, j).kind == TokenKind::ParenR {
                Ok((ExprView::Grouping { expression: Box::new(e) }, j + 1))
            } else {
                Err("Expected closing )"@)
            },
            Err(m) => Err(m),
        },
        _ => Err("Invalid expression"@),
    }
}

/// The `unary` rule: prefix `!` and `-`, right-associative by direct
/// recursion, else `primary`.
pub open spec fn unary_spec(ts: Seq<TokenView>, i: int) -> Result<(ExprView, int), Seq<char>>
    decreases ts.len() - i, 1int,
{
    let t = tok_at(ts, i);
    if t.kind == TokenKind::Bang || t.kind == TokenKind::Minus {
        match unary_spec(ts, i + 1) {
            Ok((r, k)) => Ok((ExprView::Unary { operator: t, right: Box::new(r) }, k)),
            Err(m) => Err(m),
        }
    } else {
        primary_spec(ts, i)
    }
}

/// Fold further `*` and `/` operands onto `e`, left-associatively.
pub open spec fn factor_rest(ts: Seq<TokenView>, e: ExprView, j: int) -> Result<
    (ExprView, int),
    Seq<char>,
>
    decreases ts.len() - j, 2int,
{
    let t = tok_at(ts, j);
    if t.kind == TokenKind::Slash || t.kind == TokenKind::Star {
        match unary_spec(ts, j + 1) {
            Ok((r, k)) => {
                let folded = ExprView::Binary {
                    left: Box::new(e),
                    operator: t,
                    right: Box::new(r),
                };
                if k > j + 1 && k <= ts.len() {
                    factor_rest(ts, folded, k)
                } else {
                    Ok((folded, k))
                }
            },
            Err(m) => Err(m),
        }
    } else {
        Ok((e, j))
    }
}

/// The `factor` rule: `unary`, then any number of `*`/`/` operands.
pub open spec fn factor_spec(ts: Seq<TokenView>, i: int) -> Result<(ExprView, int), Seq<char>>
    decreases ts.len() - i, 3int,
{
    match unary_spec(ts, i) {
        Ok((e, j)) => if j > i && j <= ts.len() {
            factor_rest(ts, e, j)
        } else {
            Ok((e, j))
        },
        Err(m) => Err(m),
    }
}

/// Fold further binary `+` and `-` operands onto `e`, left-associatively.
pub open spec fn term_rest(ts: Seq<TokenView>, e: ExprView, j: int) -> Result<
    (ExprView, int),
    Seq<char>,
>
    decreases ts.len() - j, 4int,
{
    let t = tok_at(ts, j);
    if t.kind == TokenKind::Minus || t.kind == TokenKind::Plus {
        match factor_spec(ts, j + 1) {
            Ok((r, k)) => {
                let folded = ExprView::Binary {
                    left: Box::new(e),
                    operator: t,
                    right: Box::new(r),
                };
                if k > j + 1 && k <= ts.len() {
                    term_rest(ts, folded, k)
                } else {
                    Ok((folded, k))
                }
            },
            Err(m) => Err(m),
        }
    } else {
        Ok((e, j))
    }
}

/// The `term` rule: `factor`, then any number of `+`/`-` operands.
pub open spec fn term_spec(ts: Seq<TokenView>, i: int) -> Result<(ExprView, int), Seq<char>>
    decreases ts.len() - i, 5int,
{
    match factor_spec(ts, i) {
        Ok((e, j)) => if j > i && j <= ts.len() {
            term_rest(ts, e, j)
        } else {
            Ok((e, j))
        },
        Err(m) => Err(m),
    }
}

/// Fold further comparison operands onto `e`, left-associatively.
pub open spec fn comparison_rest(ts: Seq<TokenView>, e: ExprView, j: int) -> Result<
    (ExprView, int),
    Seq<char>,
>
    decreases ts.len() - j, 6int,
{
    let t = tok_at(ts, j);
    if t.kind == TokenKind::Greater || t.kind == TokenKind::GreaterEqual || t.kind
        == TokenKind::Less || t.kind == TokenKind::LessEqual {
        match term_spec(ts, j + 1) {
            Ok((r, k)) => {
                let folded = ExprView::Binary {
                    left: Box::new(e),
                    operator: t,
                    right: Box::new(r),
                };
                if k > j + 1 && k <= ts.len() {
                    comparison_rest(ts, folded, k)
                } else {
                    Ok((folded, k))
                }
            },
            Err(m) => Err(m),
        }
    } else {
        Ok((e, j))
    }
}

/// The `comparison` rule: `term`, then any number of ordering operands.
pub open spec fn comparison_spec(ts: Seq<TokenView>, i: int) -> Result<(ExprView, int), Seq<char>>
    decreases ts.len() - i, 7int,
{
    match term_spec(ts, i) {
        Ok((e, j)) => if j > i && j <= ts.len() {
            comparison_rest(ts, e, j)
        } else {
            Ok((e, j))
        },
        Err(m) => Err(m),
    }
}

/// Fold further `!=` and `==` operands onto `e`, left-associatively.
pub open spec fn equality_rest(ts: Seq<TokenView>, e: ExprView, j: int) -> Result<
    (ExprView, int),
    Seq<char>,
>
    decreases ts.len() - j, 8int,
{
    let t = tok_at(ts, j);
    if t.kind == TokenKind::BangEqual || t.kind == TokenKind::EqualEqual {
        match comparison_spec(ts, j + 1) {
            Ok((r, k)) => {
                let folded = ExprView::Binary {
                    left: Box::new(e),
                    operator: t,
                    right: Box::new(r),
                };
                if k > j + 1 && k <= ts.len() {
                    equality_rest(ts, folded, k)
                } else {
                    Ok((folded, k))
                }
            },
            Err(m) => Err(m),
        }
    } else {
        Ok((e, j))
    }
}

/// The `equality` rule: `comparison`, then any number of `!=`/`==`
/// operands.
pub open spec fn equality_spec(ts: Seq<TokenView>, i: int) -> Result<(ExprView, int), Seq<char>>
    decreases ts.len() - i, 9int,
{
    match comparison_spec(ts, i) {
        Ok((e, j)) => if j > i && j <= ts.len() {
            equality_rest(ts, e, j)
        } else {
            Ok((e, j))
        },
        Err(m) => Err(m),
    }
}

/// The `expression` rule: the lowest-precedence rule, `equality`.
pub open spec fn expression_spec(ts: Seq<TokenView>, i: int) -> Result<(ExprView, int), Seq<char>>
    decreases ts.len() - i, 10int,
{
    equality_spec(ts, i)
}

/// Where [`Parser::sync`] stops after its initial step: at `Eof`, just
/// past a `;`, or before a token that begins a declaration or statement.
pub open spec fn sync_end(ts: Seq<TokenView>, i: int) -> int
    decreases ts.len() - i,
{
    if i < 0 || i >= ts.len() {
        i
    } else if ts[i].kind == TokenKind::Eof {
        i
    } else if tok_at(ts, i - 1).kind == TokenKind::Semicolon {
        i
    } else if ts[i].kind == TokenKind::Class || ts[i].kind == TokenKind::Fun || ts[i].kind
        == TokenKind::Var || ts[i].kind == TokenKind::For || ts[i].kind == TokenKind::If
        || ts[i].kind == TokenKind::While || ts[i].kind == TokenKind::Print || ts[i].kind
        == TokenKind::Return {
        i
    } else {
        sync_end(ts, i + 1)
    }
}

// ---------------------------------------------------------------------------
// Exec helper.
// ---------------------------------------------------------------------------

/// Decide [`is_number_text`] on a number token's lexeme.
fn is_number_lexeme(s: &str) -> (r: bool)
    ensures
        r == is_number_text(s@),
{
    let len = s.unicode_len();
    let mut i: usize = 0;
    while i < len && '0' <= s.get_char(i) && s.get_char(i) <= '9'
        invariant
            i <= len,
            len == s@.len(),
            digit_run_end(s@, 0) == digit_run_end(s@, i as int),
        decreases len - i,
    {
        i = i + 1;
    }
    let whole = i;
    if whole == 0 {
        return false;
    }
    if whole == len {
        return true;
    }
    if !(s.get_char(whole) == '.') {
        return false;
    }
    if whole + 1 >= len {
        return false;
    }
    let mut j: usize = whole + 1;
    while j < len && '0' <= s.get_char(j) && s.get_char(j) <= '9'
        invariant
            whole + 1 <= j <= len,
            len == s@.len(),
            digit_run_end(s@, whole + 1) == digit_run_end(s@, j as int),
        decreases len - j,
    {
        j = j + 1;
    }
    j == len
}

// ---------------------------------------------------------------------------
// The parser itself.
// ---------------------------------------------------------------------------

/// The parser's state: a read cursor over the token sequence.
#[derive(Debug)]
pub struct Parser<'src> {
    pub next: usize,
    pub tokens: Vec<Token<'src>>,
}

impl<'src> Parser<'src> {
    /// The token sequence holds a final `Eof` that the cursor never moves
    /// past.
    pub open spec fn wf(self) -> bool {
        &&& tokens_wf(crate::lexer::token_views(self.tokens@))
        &&& self.next < self.tokens@.len()
    }

    /// The views of the parser's tokens.
    pub open spec fn views(self) -> Seq<TokenView> {
        crate::lexer::token_views(self.tokens@)
    }

    /// Parse one expression from `tokens`, which must end with `Eof` as
    /// the lexer guarantees.  Tokens after the expression are ignored.
    pub fn parse(tokens: Vec<Token<'src>>) -> (r: Result<Expr<'src>, Error>)
        requires
            tokens_wf(crate::lexer::token_views(tokens@)),
        ensures
            match r {
                Ok(e) => expression_spec(crate::lexer::token_views(tokens@), 0) matches Ok(pair)
                    && e@ == pair.0,
                Err(err) => expression_spec(crate::lexer::token_views(tokens@), 0) matches Err(m)
                    && err@ matches ErrorView::Parser { message } && message == m,
            },
    {
        let mut parser = Self::new(tokens);
        parser.parse_ast()
    }

    /// A fresh parser over `tokens`, its cursor at the first token.
    pub fn new(tokens: Vec<Token<'src>>) -> (parser: Self)
        requires
            tokens_wf(crate::lexer::token_views(tokens@)),
        ensures
            parser.tokens == tokens,
            parser.next == 0,
            parser.wf(),
    {
        Self { next: 0, tokens }
    }

    /// Parse the token stream as a single expression.
    pub fn parse_ast(&mut self) -> (r: Result<Expr<'src>, Error>)
        requires
            old(self).wf(),
        ensures
            final(self).wf(),
            final(self).tokens == old(self).tokens,
            match r {
                Ok(e) => expression_spec(old(self).views(), old(self).next as int) matches Ok(pair)
                    && e@ == pair.0,
                Err(err) => expression_spec(old(self).views(), old(self).next as int) matches Err(
                    m,
                ) && err@ matches ErrorView::Parser { message } && message == m,
            },
    {
        self.expression()
    }

    /// Advance the cursor unless it rests on `Eof`, and return the token
    /// just before its new position.
    pub fn advance(&mut self) -> (t: Token<'src>)
        requires
            old(self).wf(),
            old(self).next >= 1 || old(self).views()[old(self).next as int].kind != TokenKind::Eof,
        ensures
            final(self).wf(),
            final(self).tokens == old(self).tokens,
            old(self).views()[old(self).next as int].kind != TokenKind::Eof ==> final(self).next
                == old(self).next + 1,
            old(self).views()[old(self).next as int].kind == TokenKind::Eof ==> final(self).next
                == old(self).next,
            t@ == final(self).views()[final(self).next - 1],
    {
        if !self.is_end() {
            proof {
                let l = vstd::std_specs::vec::spec_vec_len(&self.tokens);
                assert(self.views()[self.views().len() - 1].kind == TokenKind::Eof);
            }
            self.next = self.next + 1;
        }
        self.prev()
    }

    /// Advance only if the current token is of `kind`, else fail with a
    /// parse error carrying `message`.
    pub fn consume(&mut self, kind: TokenKind, message: &str) -> (r: Result<Token<'src>, Error>)
        requires
            old(self).wf(),
        ensures
            final(self).wf(),
            final(self).tokens == old(self).tokens,
            ({
                let t = old(self).views()[old(self).next as int];
                if t.kind == kind && kind != TokenKind::Eof {
                    &&& r matches Ok(tok) && tok@ == t
                    &&& final(self).next == old(self).next + 1
                } else {
                    &&& r matches Err(e) && e@ matches ErrorView::Parser { message: m } && m
                        == message@
                    &&& final(self).next == old(self).next
                }
            }),
    {
        if self.check(kind) {
            return Ok(self.advance());
        }
        Err(Error::Parser { message: message.to_owned() })
    }

    /// The token just before the cursor.
    pub fn prev(&self) -> (t: Token<'src>)
        requires
            1 <= self.next < self.tokens@.len(),
        ensures
            t@ == self.views()[self.next - 1],
    {
        self.tokens[self.next - 1]
    }

    /// The token under the cursor.
    pub fn peek(&self) -> (t: Token<'src>)
        requires
            self.next < self.tokens@.len(),
        ensures
            t@ == self.views()[self.next as int],
    {
        self.tokens[self.next]
    }

    /// Advance past the current token if its kind is any of `kinds`.
    pub fn match_kinds(&mut self, kinds: Vec<TokenKind>) -> (r: bool)
        requires
            old(self).wf(),
        ensures
            final(self).wf(),
            final(self).tokens == old(self).tokens,
            r == (old(self).views()[old(self).next as int].kind != TokenKind::Eof
                && kinds@.contains(old(self).views()[old(self).next as int].kind)),
            r ==> final(self).next == old(self).next + 1,
            !r ==> final(self).next == old(self).next,
    {
        let n = kinds.len();
        let mut i: usize = 0;
        while i < n
            invariant
                self == old(self),
                self.wf(),
                i <= n,
                n == kinds@.len(),
                forall|j: int|
                    0 <= j < i ==> !(self.views()[self.next as int].kind != TokenKind::Eof
                        && kinds@[j] == self.views()[self.next as int].kind),
            decreases n - i,
    {
            if self.check(kinds[i]) {
                self.advance();
                return true;
            }
            i = i + 1;
        }
        false
    }

    /// Advance past the current token if its kind is `kind`.
    pub fn match_kind(&mut self, kind: TokenKind) -> (r: bool)
        requires
            old(self).wf(),
        ensures
            final(self).wf(),
            final(self).tokens == old(self).tokens,
            r == (old(self).views()[old(self).next as int].kind == kind && kind != TokenKind::Eof),
            r ==> final(self).next == old(self).next + 1,
            !r ==> final(self).next == old(self).next,
    {
        if self.check(kind) {
            self.advance();
            return true;
        }
        false
    }

    /// Whether the current token is of `kind`; `Eof` never matches.
    pub fn check(&self, kind: TokenKind) -> (r: bool)
        requires
            self.wf(),
        ensures
            r == (self.views()[self.next as int].kind == kind && kind != TokenKind::Eof),
    {
        if self.is_end() {
            return false;
        }
        self.peek().kind == kind
    }

    /// Whether the cursor rests on `Eof`.
    pub fn is_end(&self) -> (r: bool)
        requires
            self.wf(),
        ensures
            r == (self.views()[self.next as int].kind == TokenKind::Eof),
    {
        self.peek().kind == TokenKind::Eof
    }

    /// The `expression` rule.
    pub fn expression(&mut self) -> (r: Result<Expr<'src>, Error>)
        requires
            old(self).wf(),
        ensures
            final(self).wf(),
            final(self).tokens == old(self).tokens,
            match r {
                Ok(e) => expression_spec(old(self).views(), old(self).next as int) matches Ok(pair)
                    && e@ == pair.0 && final(self).next == pair.1 && final(self).next > old(
                    self,
                ).next,
                Err(err) => expression_spec(old(self).views(), old(self).next as int) matches Err(
                    m,
                ) && err@ matches ErrorView::Parser { message } && message == m,
            },
        decreases old(self).tokens@.len() - old(self).next, 10int,
    {
        self.equality()
    }

    /// The `equality` rule.
    pub fn equality(&mut self) -> (r: Result<Expr<'src>, Error>)
        requires
            old(self).wf(),
        ensures
            final(self).wf(),
            final(self).tokens == old(self).tokens,
            match r {
                Ok(e) => equality_spec(old(self).views(), old(self).next as int) matches Ok(pair)
                    && e@ == pair.0 && final(self).next == pair.1 && final(self).next > old(
                    self,
                ).next,
                Err(err) => equality_spec(old(self).views(), old(self).next as int) matches Err(m)
                    && err@ matches ErrorView::Parser { message } && message == m,
            },
        decreases old(self).tokens@.len() - old(self).next, 9int,
    {
        let ghost ts = old(self).views();
        let ghost entry = old(self).next as int;
        let mut expr = match self.comparison() {
            Ok(e) => e,
            Err(err) => {
                return Err(err);
            },
        };
        while self.match_kinds(vec![TokenKind::BangEqual, TokenKind::EqualEqual])
            invariant
                self.wf(),
                self.tokens == old(self).tokens,
                ts == old(self).views(),
                entry == old(self).next as int,
                self.next > entry,
                equality_spec(ts, entry) == equality_rest(ts, expr@, self.next as int),
            decreases self.tokens@.len() - self.next,
    {
            let operator = self.prev();
            let right = match self.comparison() {
                Ok(e) => e,
                Err(err) => {
                    return Err(err);
                },
            };
            expr = Expr::Binary {
                left: Box::new(expr),
                operator,
                right: Box::new(right),
            };
        }
        Ok(expr)
    }

    /// The `comparison` rule.
    pub fn comparison(&mut self) -> (r: Result<Expr<'src>, Error>)
        requires
            old(self).wf(),
        ensures
            final(self).wf(),
            final(self).tokens == old(self).tokens,
            match r {
                Ok(e) => comparison_spec(old(self).views(), old(self).next as int) matches Ok(pair)
                    && e@ == pair.0 && final(self).next == pair.1 && final(self).next > old(
                    self,
                ).next,
                Err(err) => comparison_spec(old(self).views(), old(self).next as int) matches Err(
                    m,
                ) && err@ matches ErrorView::Parser { message } && message == m,
            },
        decreases old(self).tokens@.len() - old(self).next, 7int,
    {
        let ghost ts = old(self).views();
        let ghost entry = old(self).next as int;
        let mut expr = match self.term() {
            Ok(e) => e,
            Err(err) => {
                return Err(err);
            },
        };
        while self.match_kinds(
            vec![
                TokenKind::Greater,
                TokenKind::GreaterEqual,
                TokenKind::Less,
                TokenKind::LessEqual,
            ],
        )
            invariant
                self.wf(),
                self.tokens == old(self).tokens,
                ts == old(self).views(),
                entry == old(self).next as int,
                self.next > entry,
                comparison_spec(ts, entry) == comparison_rest(ts, expr@, self.next as int),
            decreases self.tokens@.len() - self.next,
    {
            let operator = self.prev();
            let right = match self.term() {
                Ok(e) => e,
                Err(err) => {
                    return Err(err);
                },
            };
            expr = Expr::Binary {
                left: Box::new(expr),
                operator,
                right: Box::new(right),
            };
        }
        Ok(expr)
    }

    /// The `term` rule.
    pub fn term(&mut self) -> (r: Result<Expr<'src>, Error>)
        requires
            old(self).wf(),
        ensures
            final(self).wf(),
            final(self).tokens == old(self).tokens,
            match r {
                Ok(e) => term_spec(old(self).views(), old(self).next as int) matches Ok(pair)
                    && e@ == pair.0 && final(self).next == pair.1 && final(self).next > old(
                    self,
                ).next,
                Err(err) => term_spec(old(self).views(), old(self).next as int) matches Err(m)
                    && err@ matches ErrorView::Parser { message } && message == m,
            },
        decreases old(self).tokens@.len() - old(self).next, 5int,
    {
        let ghost ts = old(self).views();
        let ghost entry = old(self).next as int;
        let mut expr = match self.factor() {
            Ok(e) => e,
            Err(err) => {
                return Err(err);
            },
        };
        while self.match_kinds(vec![TokenKind::Minus, TokenKind::Plus])
            invariant
                self.wf(),
                self.tokens == old(self).tokens,
                ts == old(self).views(),
                entry == old(self).next as int,
                self.next > entry,
                term_spec(ts, entry) == term_rest(ts, expr@, self.next as int),
            decreases self.tokens@.len() - self.next,
    {
            let operator = self.prev();
            let right = match self.factor() {
                Ok(e) => e,
                Err(err) => {
                    return Err(err);
                },
            };
            expr = Expr::Binary {
                left: Box::new(expr),
                operator,
                right: Box::new(right),
            };
        }
        Ok(expr)
    }

    /// The `factor` rule.
    pub fn factor(&mut self) -> (r: Result<Expr<'src>, Error>)
        requires
            old(self).wf(),
        ensures
            final(self).wf(),
            final(self).tokens == old(self).tokens,
            match r {
                Ok(e) => factor_spec(old(self).views(), old(self).next as int) matches Ok(pair)
                    && e@ == pair.0 && final(self).next == pair.1 && final(self).next > old(
                    self,
                ).next,
                Err(err) => factor_spec(old(self).views(), old(self).next as int) matches Err(m)
                    && err@ matches ErrorView::Parser { message } && message == m,
            },
        decreases old(self).tokens@.len() - old(self).next, 3int,
    {
        let ghost ts = old(self).views();
        let ghost entry = old(self).next as int;
        let mut expr = match self.unary() {
            Ok(e) => e,
            Err(err) => {
                return Err(err);
            },
        };
        while self.match_kinds(vec![TokenKind::Slash, TokenKind::Star])
            invariant
                self.wf(),
                self.tokens == old(self).tokens,
                ts == old(self).views(),
                entry == old(self).next as int,
                self.next > entry,
                factor_spec(ts, entry) == factor_rest(ts, expr@, self.next as int),
            decreases self.tokens@.len() - self.next,
    {
            let operator = self.prev();
            let right = match self.unary() {
                Ok(e) => e,
                Err(err) => {
                    return Err(err);
                },
            };
            expr = Expr::Binary {
                left: Box::new(expr),
                operator,
                right: Box::new(right),
            };
        }
        Ok(expr)
    }

    /// The `unary` rule.
    pub fn unary(&mut self) -> (r: Result<Expr<'src>, Error>)
        requires
            old(self).wf(),
        ensures
            final(self).wf(),
            final(self).tokens == old(self).tokens,
            match r {
                Ok(e) => unary_spec(old(self).views(), old(self).next as int) matches Ok(pair)
                    && e@ == pair.0 && final(self).next == pair.1 && final(self).next > old(
                    self,
                ).next,
                Err(err) => unary_spec(old(self).views(), old(self).next as int) matches Err(m)
                    && err@ matches ErrorView::Parser { message } && message == m,
            },
        decreases old(self).tokens@.len() - old(self).next, 1int,
    {
        if self.match_kinds(vec![TokenKind::Bang, TokenKind::Minus]) {
            let operator = self.prev();
            let right = match self.unary() {
                Ok(e) => e,
                Err(err) => {
                    return Err(err);
                },
            };
            return Ok(Expr::Unary { operator, right: Box::new(right) });
        }
        self.primary()
    }

    /// The `primary` rule.
    pub fn primary(&mut self) -> (r: Result<Expr<'src>, Error>)
        requires
            old(self).wf(),
        ensures
            final(self).wf(),
            final(self).tokens == old(self).tokens,
            match r {
                Ok(e) => primary_spec(old(self).views(), old(self).next as int) matches Ok(pair)
                    && e@ == pair.0 && final(self).next == pair.1 && final(self).next > old(
                    self,
                ).next,
                Err(err) => primary_spec(old(self).views(), old(self).next as int) matches Err(m)
                    && err@ matches ErrorView::Parser { message } && message == m,
            },
        decreases old(self).tokens@.len() - old(self).next, 0int,
    {
        if self.match_kind(TokenKind::False) {
            return Ok(Expr::Literal { value: Literal::Boolean(false) });
        }

        if self.match_kind(TokenKind::Nil) {
            return Ok(Expr::Literal { value: Literal::Nil });
        }

        if self.match_kind(TokenKind::Number) {
            let t = self.prev();
            match t.lexeme {
                Some(lx) => {
                    if is_number_lexeme(lx) {
                        return Ok(Expr::Literal { value: Literal::Number(lx.to_owned()) });
                    }
                    return Err(
                        Error::Parser { message: "Failed to parse number literal.".to_owned() },
                    );
                },
                None => {
                    return Err(
                        Error::Parser { message: "Failed to parse number literal.".to_owned() },
                    );
                },
            }
        }

        if self.match_kind(TokenKind::StringLiteral) {
            let t = self.prev();
            match t.lexeme {
                Some(lx) => {
                    return Ok(Expr::Literal { value: Literal::Str(lx.to_owned()) });
                },
                None => {
                    return Err(Error::Parser { message: "Invalid expression".to_owned() });
                },
            }
        }

        // The literal `true` currently produces the boolean value `false`,
        // matching the behaviour this grammar is specified with.
        if self.match_kind(TokenKind::True) {
            return Ok(Expr::Literal { value: Literal::Boolean(false) });
        }

        if self.match_kind(TokenKind::ParenL) {
            let e = match self.expression() {
                Ok(e) => e,
                Err(err) => {
                    return Err(err);
                },
            };
            match self.consume(TokenKind::ParenR, "Expected closing )") {
                Ok(_) => {},
                Err(err) => {
                    return Err(err);
                },
            }
            return Ok(Expr::Grouping { expression: Box::new(e) });
        }

        Err(Error::Parser { message: "Invalid expression".to_owned() })
    }

    /// Resynchronize after an error: advance until just past a statement
    /// boundary or to a token that begins a new declaration or statement.
    /// This is a primitive for a future statement-level parser; the
    /// expression entry point never invokes it.
    pub fn sync(&mut self)
        requires
            old(self).wf(),
            old(self).next >= 1 || old(self).views()[old(self).next as int].kind != TokenKind::Eof,
        ensures
            final(self).wf(),
            final(self).tokens == old(self).tokens,
            final(self).next == sync_end(
                old(self).views(),
                if tok_at(old(self).views(), old(self).next as int).kind != TokenKind::Eof {
                    old(self).next + 1
                } else {
                    old(self).next as int
                },
            ),
    {
        let ghost ts = old(self).views();
        self.advance();
        let ghost start = self.next as int;
        while !self.is_end()
            invariant
                self.wf(),
                self.tokens == old(self).tokens,
                ts == old(self).views(),
                self.next >= 1,
                start == (if tok_at(ts, old(self).next as int).kind != TokenKind::Eof {
                    old(self).next + 1
                } else {
                    old(self).next as int
                }),
                sync_end(ts, start) == sync_end(ts, self.next as int),
            decreases self.tokens@.len() - self.next,
    {
            if self.prev().kind == TokenKind::Semicolon {
                return;
            }

            match self.peek().kind {
                TokenKind::Class | TokenKind::Fun | TokenKind::Var | TokenKind::For | TokenKind::If
                    | TokenKind::While | TokenKind::Print | TokenKind::Return => {
                    return;
                },
                _ => {},
            }

            self.advance();
        }
    }
}

} // verus!
