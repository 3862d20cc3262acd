//! The lexer.
//!
//! [`Lexer::lex`] scans source text left to right, one Unicode scalar value
//! at a time, into the token sequence that [`scan`] describes: maximal-munch
//! one-character lookahead for the two-character operators, line and block
//! comments discarded, whitespace discarded, newlines counted, string
//! literals stored without their delimiting quotes, numbers as digits with
//! an optional fractional part, identifiers looked up in the keyword table
//! after being fully scanned.  The first lexical error aborts the whole lex;
//! a successful lex always ends with a single `Eof` token.

use crate::error::{Error, ErrorView};
use crate::position::{Position, PositionView};
use crate::literal::str_eq;
use crate::token::{Token, TokenKind, TokenView};
use vstd::prelude::*;
use vstd::string::StrSliceExecFns;
use vstd::string::StringExecFns;

verus! {

// ---------------------------------------------------------------------------
// The scan model: what lexing a character sequence yields.
// ---------------------------------------------------------------------------

/// Decimal digits.
pub open spec fn is_digit_char(c: char) -> bool {
    '0' <= c && c <= '9'
}

/// ASCII letters and underscore: the characters an identifier may start
/// with.
pub open spec fn is_alpha_char(c: char) -> bool {
    ('a' <= c && c <= 'z') || ('A' <= c && c <= 'Z') || c == '_'
}

/// The characters an identifier may continue with.
pub open spec fn is_alnum_char(c: char) -> bool {
    is_digit_char(c) || is_alpha_char(c)
}

/// The keyword table: an exact, case-sensitive, full-lexeme match maps an
/// identifier to its reserved-word kind.
pub open spec fn keyword_kind(s: Seq<char>) -> Option<TokenKind> {
    if s == "and"@ {
        Some(TokenKind::And)
    } else if s == "class"@ {
        Some(TokenKind::Class)
    } else if s == "else"@ {
        Some(TokenKind::Else)
    } else if s == "false"@ {
        Some(TokenKind::False)
    } else if s == "for"@ {
        Some(TokenKind::For)
    } else if s == "fun"@ {
        Some(TokenKind::Fun)
    } else if s == "if"@ {
        Some(TokenKind::If)
    } else if s == "nil"@ {
        Some(TokenKind::Nil)
    } else if s == "or"@ {
        Some(TokenKind::Or)
    } else if s == "print"@ {
        Some(TokenKind::Print)
    } else if s == "return"@ {
        Some(TokenKind::Return)
    } else if s == "super"@ {
        Some(TokenKind::Super)
    } else if s == "this"@ {
        Some(TokenKind::This)
    } else if s == "true"@ {
        Some(TokenKind::True)
    } else if s == "var"@ {
        Some(TokenKind::Var)
    } else if s == "while"@ {
        Some(TokenKind::While)
    } else {
        None
    }
}

/// The character at `i`, or the sentinel `'\0'` outside the text — exactly
/// what the scanner's lookahead sees.
pub open spec fn peek_at(s: Seq<char>, i: int) -> char {
    if 0 <= i < s.len() {
        s[i]
    } else {
        '\0'
    }
}

/// End of a run of decimal digits starting at `i`.
pub open spec fn digit_run_end(s: Seq<char>, i: int) -> int
    decreases s.len() - i,
{
    if i < 0 || i >= s.len() {
        i
    } else if !is_digit_char(s[i]) {
        i
    } else {
        digit_run_end(s, i + 1)
    }
}

/// End of a run of identifier characters starting at `i`.
pub open spec fn alnum_run_end(s: Seq<char>, i: int) -> int
    decreases s.len() - i,
{
    if i < 0 || i >= s.len() {
        i
    } else if !is_alnum_char(s[i]) {
        i
    } else {
        alnum_run_end(s, i + 1)
    }
}

/// End of a number that started at `start`: the digit run that begins with
/// it, and a fractional part only when a decimal point is directly followed
/// by at least one digit.
pub open spec fn number_end(s: Seq<char>, start: int) -> int {
    let whole = digit_run_end(s, start + 1);
    if peek_at(s, whole) == '.' && is_digit_char(peek_at(s, whole + 1)) {
        digit_run_end(s, whole + 1)
    } else {
        whole
    }
}

/// Where a line comment ends: at the next newline, which is not part of the
/// comment, or at the end of the text.
pub open spec fn line_comment_end(s: Seq<char>, i: int) -> int
    decreases s.len() - i,
{
    if i < 0 || i >= s.len() {
        i
    } else if s[i] == '\n' {
        i
    } else {
        line_comment_end(s, i + 1)
    }
}

/// Scan a block comment's body from `i`: on success, the offset just past
/// the closing `*/` and the line counter after the newlines the comment
/// spanned; reaching the end of the text first is an error.  Block comments
/// do not nest.
pub open spec fn block_comment_end(s: Seq<char>, i: int, line: int) -> Result<(int, int), Seq<char>>
    decreases s.len() - i,
{
    if i < 0 || i >= s.len() {
        Err("Unterminated block comment."@)
    } else if s[i] == '*' && i + 1 < s.len() && s[i + 1] == '/' {
        Ok((i + 2, line))
    } else {
        block_comment_end(s, i + 1, if s[i] == '\n' { line + 1 } else { line })
    }
}

/// Scan a string literal's body from `i` (just past the opening quote): on
/// success, the offset of the closing quote and the line counter after the
/// newlines the literal spanned; reaching the end of the text first is an
/// error.  No escape sequences are recognized.
pub open spec fn string_body_end(s: Seq<char>, i: int, line: int) -> Result<(int, int), Seq<char>>
    decreases s.len() - i,
{
    if i < 0 || i >= s.len() {
        Err("Unterminated string."@)
    } else if s[i] == '"' {
        Ok((i, line))
    } else {
        string_body_end(s, i + 1, if s[i] == '\n' { line + 1 } else { line })
    }
}

/// The message for a character no rule recognizes.
pub open spec fn unexpected_char_message(c: char) -> Seq<char> {
    "Unexpected character: "@ + seq![c] + "."@
}

/// The token stamped for the span `[start, end)`: its lexeme is that exact
/// span, except that a string literal drops its delimiting quotes and `Eof`
/// carries no lexeme, and its position records the span's bounds and the
/// line the scanner was on.
pub open spec fn stamped(kind: TokenKind, s: Seq<char>, start: int, end: int, line: int) -> TokenView {
    TokenView {
        kind,
        lexeme: match kind {
            TokenKind::Eof => None,
            TokenKind::StringLiteral => Some(s.subrange(start + 1, end - 1)),
            _ => Some(s.subrange(start, end)),
        },
        position: PositionView { start, current: end, line },
    }
}

/// Prepend a token to the outcome of scanning the rest of the text.
pub open spec fn with_token(
    t: TokenView,
    rest: Result<Seq<TokenView>, Seq<char>>,
) -> Result<Seq<TokenView>, Seq<char>> {
    match rest {
        Ok(ts) => Ok(seq![t] + ts),
        Err(m) => Err(m),
    }
}

/// The scanner: the tokens of `s` from offset `cur` on, on line `line`.
///
/// `last_start` is the `start` bound the scanner most recently recorded; it
/// is observable only in the position stamped on the final `Eof` token.
/// Errors abort the whole scan with their message.
pub open spec fn scan(s: Seq<char>, last_start: int, cur: int, line: int) -> Result<
    Seq<TokenView>,
    Seq<char>,
>
    decreases s.len() - cur,
    via scan_decreases
{
    if cur < 0 || cur >= s.len() {
        Ok(
            seq![
                TokenView {
                    kind: TokenKind::Eof,
                    lexeme: None,
                    position: PositionView { start: last_start, current: cur, line },
                }
            ],
        )
    } else {
        let c = s[cur];
        if c == '(' {
            with_token(stamped(TokenKind::ParenL, s, cur, cur + 1, line), scan(s, cur, cur + 1, line))
        } else if c == ')' {
            with_token(stamped(TokenKind::ParenR, s, cur, cur + 1, line), scan(s, cur, cur + 1, line))
        } else if c == '*' {
            with_token(stamped(TokenKind::Star, s, cur, cur + 1, line), scan(s, cur, cur + 1, line))
        } else if c == '+' {
            with_token(stamped(TokenKind::Plus, s, cur, cur + 1, line), scan(s, cur, cur + 1, line))
        } else if c == ',' {
            with_token(stamped(TokenKind::Comma, s, cur, cur + 1, line), scan(s, cur, cur + 1, line))
        } else if c == '-' {
            with_token(stamped(TokenKind::Minus, s, cur, cur + 1, line), scan(s, cur, cur + 1, line))
        } else if c == ';' {
            with_token(
                stamped(TokenKind::Semicolon, s, cur, cur + 1, line),
                scan(s, cur, cur + 1, line),
            )
        } else if c == '{' {
            with_token(stamped(TokenKind::BraceL, s, cur, cur + 1, line), scan(s, cur, cur + 1, line))
        } else if c == '}' {
            with_token(stamped(TokenKind::BraceR, s, cur, cur + 1, line), scan(s, cur, cur + 1, line))
        } else if c == '!' || c == '<' || c == '=' || c == '>' {
            let matched = cur + 1 < s.len() && s[cur + 1] == '=';
            let end = if matched {
                cur + 2
            } else {
                cur + 1
            };
            let kind = if c == '!' {
                if matched {
                    TokenKind::BangEqual
                } else {
                    TokenKind::Bang
                }
            } else if c == '<' {
                if matched {
                    TokenKind::LessEqual
                } else {
                    TokenKind::Less
                }
            } else if c == '=' {
                if matched {
                    TokenKind::EqualEqual
                } else {
                    TokenKind::Equal
                }
            } else {
                if matched {
                    TokenKind::GreaterEqual
                } else {
                    TokenKind::Greater
                }
            };
            with_token(stamped(kind, s, cur, end, line), scan(s, cur, end, line))
        } else if c == '"' {
            match string_body_end(s, cur + 1, line) {
                Ok((close, line2)) => with_token(
                    stamped(TokenKind::StringLiteral, s, cur, close + 1, line2),
                    scan(s, cur, close + 1, line2),
                ),
                Err(m) => Err(m),
            }
        } else if c == '/' {
            if cur + 1 < s.len() && s[cur + 1] == '/' {
                scan(s, cur, line_comment_end(s, cur + 2), line)
            } else if cur + 1 < s.len() && s[cur + 1] == '*' {
                match block_comment_end(s, cur + 2, line) {
                    Ok((end, line2)) => scan(s, cur, end, line2),
                    Err(m) => Err(m),
                }
            } else {
                with_token(
                    stamped(TokenKind::Slash, s, cur, cur + 1, line),
                    scan(s, cur, cur + 1, line),
                )
            }
        } else if c == '\n' {
            scan(s, cur, cur + 1, line + 1)
        } else if c == ' ' || c == '\t' || c == '\r' {
            scan(s, cur, cur + 1, line)
        } else if is_digit_char(c) {
            let end = number_end(s, cur);
            with_token(stamped(TokenKind::Number, s, cur, end, line), scan(s, cur, end, line))
        } else if is_alpha_char(c) {
            let end = alnum_run_end(s, cur + 1);
            let kind = match keyword_kind(s.subrange(cur, end)) {
                Some(k) => k,
                None => TokenKind::Identifier,
            };
            with_token(stamped(kind, s, cur, end, line), scan(s, cur, end, line))
        } else {
            Err(unexpected_char_message(c))
        }
    }
}

#[via_fn]
proof fn scan_decreases(s: Seq<char>, last_start: int, cur: int, line: int) {
    lemma_digit_run_end(s, cur + 1);
    lemma_digit_run_end(s, digit_run_end(s, cur + 1) + 1);
    lemma_alnum_run_end(s, cur + 1);
    lemma_line_comment_end(s, cur + 2);
    lemma_block_comment_end(s, cur + 2, line);
    lemma_string_body_end(s, cur + 1, line);
}

/// A digit run neither moves backwards nor passes the end of the text.
pub proof fn lemma_digit_run_end(s: Seq<char>, i: int)
    ensures
        i <= digit_run_end(s, i),
        i < s.len() ==> digit_run_end(s, i) <= s.len(),
    decreases s.len() - i,
{
    if 0 <= i && i < s.len() && is_digit_char(s[i]) {
        lemma_digit_run_end(s, i + 1);
    }
}

/// An identifier run neither moves backwards nor passes the end of the
/// text.
pub proof fn lemma_alnum_run_end(s: Seq<char>, i: int)
    ensures
        i <= alnum_run_end(s, i),
        i < s.len() ==> alnum_run_end(s, i) <= s.len(),
    decreases s.len() - i,
{
    if 0 <= i && i < s.len() && is_alnum_char(s[i]) {
        lemma_alnum_run_end(s, i + 1);
    }
}

/// A line comment neither moves backwards nor passes the end of the text.
pub proof fn lemma_line_comment_end(s: Seq<char>, i: int)
    ensures
        i <= line_comment_end(s, i),
        i < s.len() ==> line_comment_end(s, i) <= s.len(),
    decreases s.len() - i,
{
    if 0 <= i && i < s.len() && s[i] != '\n' {
        lemma_line_comment_end(s, i + 1);
    }
}

/// A terminated block comment ends after where it began and within the
/// text.
pub proof fn lemma_block_comment_end(s: Seq<char>, i: int, line: int)
    ensures
        block_comment_end(s, i, line) matches Ok((end, line2)) ==> i < end <= s.len(),
    decreases s.len() - i,
{
    if 0 <= i && i < s.len() && !(s[i] == '*' && i + 1 < s.len() && s[i + 1] == '/') {
        lemma_block_comment_end(s, i + 1, if s[i] == '\n' { line + 1 } else { line });
    }
}

/// A terminated string literal closes at or after where its body began,
/// within the text.
pub proof fn lemma_string_body_end(s: Seq<char>, i: int, line: int)
    ensures
        string_body_end(s, i, line) matches Ok((close, line2)) ==> i <= close < s.len(),
    decreases s.len() - i,
{
    if 0 <= i && i < s.len() && s[i] != '"' {
        lemma_string_body_end(s, i + 1, if s[i] == '\n' { line + 1 } else { line });
    }
}

/// What lexing a whole text yields: the scan from its beginning, on line 1.
pub open spec fn lex_spec(s: Seq<char>) -> Result<Seq<TokenView>, Seq<char>> {
    scan(s, 0, 0, 1)
}

/// The views of a produced token vector.
pub open spec fn token_views(ts: Seq<Token>) -> Seq<TokenView> {
    ts.map(|i: int, t: Token| t@)
}

/// Prepend already-produced tokens to the outcome of scanning the rest of
/// the text.
pub open spec fn with_tokens(
    ds: Seq<TokenView>,
    rest: Result<Seq<TokenView>, Seq<char>>,
) -> Result<Seq<TokenView>, Seq<char>> {
    match rest {
        Ok(ts) => Ok(ds + ts),
        Err(m) => Err(m),
    }
}

proof fn lemma_with_tokens_assoc(
    a: Seq<TokenView>,
    b: Seq<TokenView>,
    rest: Result<Seq<TokenView>, Seq<char>>,
)
    ensures
        with_tokens(a, with_tokens(b, rest)) == with_tokens(a + b, rest),
{
    match rest {
        Ok(ts) => {
            assert(a + (b + ts) =~= (a + b) + ts);
        },
        Err(m) => {},
    }
}

proof fn lemma_token_views_push(ts: Seq<Token>, t: Token)
    ensures
        token_views(ts.push(t)) == token_views(ts).push(t@),
{
    assert(token_views(ts.push(t)) =~= token_views(ts).push(t@));
}

/// What one step of `lex_token` appended: nothing, or exactly the one token
/// it stamped.
proof fn lemma_skip_push(tv_old: Seq<TokenView>, tv_new: Seq<TokenView>)
    ensures
        tv_new == tv_old ==> tv_new.skip(tv_old.len() as int) == Seq::<TokenView>::empty(),
        (exists|t: TokenView| tv_new == tv_old.push(t)) ==> {
            &&& tv_new.skip(tv_old.len() as int) == seq![tv_new.last()]
            &&& tv_new == tv_old + seq![tv_new.last()]
        },
{
    if tv_new == tv_old {
        assert(tv_new.skip(tv_old.len() as int) =~= Seq::<TokenView>::empty());
    }
    if exists|t: TokenView| tv_new == tv_old.push(t) {
        let t = choose|t: TokenView| tv_new == tv_old.push(t);
        assert(tv_new.last() == t);
        assert(tv_new.skip(tv_old.len() as int) =~= seq![t]);
        assert(tv_new =~= tv_old + seq![t]);
    }
}

proof fn lemma_with_tokens_empty(rest: Result<Seq<TokenView>, Seq<char>>)
    ensures
        with_tokens(Seq::<TokenView>::empty(), rest) == rest,
{
    match rest {
        Ok(ts) => {
            assert(Seq::<TokenView>::empty() + ts =~= ts);
        },
        Err(m) => {},
    }
}

// ---------------------------------------------------------------------------
// Exec helpers.
// ---------------------------------------------------------------------------

/// Relies on `char`'s `Display` implementation, through
/// `ToString::to_string`: formatting a character writes exactly that
/// character and nothing else.
#[verifier::external_body]
fn char_text(c: char) -> (text: String)
    ensures
        text@ == seq![c],
{
    c.to_string()
}

/// Look a scanned identifier up in the keyword table.
fn keyword_lookup(text: &str) -> (r: Option<TokenKind>)
    ensures
        r == keyword_kind(text@),
{
    if str_eq(text, "and") {
        Some(TokenKind::And)
    } else if str_eq(text, "class") {
        Some(TokenKind::Class)
    } else if str_eq(text, "else") {
        Some(TokenKind::Else)
    } else if str_eq(text, "false") {
        Some(TokenKind::False)
    } else if str_eq(text, "for") {
        Some(TokenKind::For)
    } else if str_eq(text, "fun") {
        Some(TokenKind::Fun)
    } else if str_eq(text, "if") {
        Some(TokenKind::If)
    } else if str_eq(text, "nil") {
        Some(TokenKind::Nil)
    } else if str_eq(text, "or") {
        Some(TokenKind::Or)
    } else if str_eq(text, "print") {
        Some(TokenKind::Print)
    } else if str_eq(text, "return") {
        Some(TokenKind::Return)
    } else if str_eq(text, "super") {
        Some(TokenKind::Super)
    } else if str_eq(text, "this") {
        Some(TokenKind::This)
    } else if str_eq(text, "true") {
        Some(TokenKind::True)
    } else if str_eq(text, "var") {
        Some(TokenKind::Var)
    } else if str_eq(text, "while") {
        Some(TokenKind::While)
    } else {
        None
    }
}

// ---------------------------------------------------------------------------
// The lexer itself.
// ---------------------------------------------------------------------------

/// The scanner's state: the position being scanned, the source text, and
/// the tokens produced so far.
#[derive(Debug)]
pub struct Lexer<'src> {
    pub position: Position,
    pub src: &'src str,
    pub tokens: Vec<Token<'src>>,
}

impl<'src> Lexer<'src> {
    /// The scan bounds are in order and inside the text, and the character
    /// count leaves room to advance.
    pub open spec fn wf(self) -> bool {
        &&& self.position.start <= self.position.current
        &&& self.position.current <= self.src@.len()
        &&& self.src@.len() < usize::MAX
    }

    /// The line counter cannot have passed the scan cursor by more than its
    /// starting value of one: it grows at most once per character consumed.
    pub open spec fn line_in_bounds(self) -> bool {
        self.position.line <= self.position.current + 1
    }

    /// What scanning on from the current position yields.
    pub open spec fn scan_state(self) -> Result<Seq<TokenView>, Seq<char>> {
        scan(
            self.src@,
            self.position.start as int,
            self.position.current as int,
            self.position.line as int,
        )
    }

    /// Lex `src`: the token sequence that [`lex_spec`] describes, or the
    /// first lexical error.
    pub fn lex(src: &'src str) -> (r: Result<Vec<Token<'src>>, Error>)
        requires
            src@.len() < usize::MAX,
        ensures
            match r {
                Ok(ts) => lex_spec(src@) matches Ok(tvs) && token_views(ts@) == tvs,
                Err(e) => lex_spec(src@) matches Err(m) && e@ matches ErrorView::Lexer {
                    message,
                } && message == m,
            },
    {
        let lexer = Lexer::new(src);
        let ghost fresh = lexer;
        let r = lexer.tokenize();
        proof {
            assert(fresh.scan_state() == lex_spec(src@));
            assert(token_views(fresh.tokens@) =~= Seq::<TokenView>::empty());
            if let Ok(tvs) = lex_spec(src@) {
                assert(Seq::<TokenView>::empty() + tvs =~= tvs);
            }
        }
        r
    }

    /// A fresh lexer over `src`, at the first character of line 1, with no
    /// tokens yet.
    pub fn new(src: &'src str) -> (lexer: Self)
        requires
            src@.len() < usize::MAX,
        ensures
            lexer.src == src,
            lexer.position == (Position { start: 0, current: 0, line: 1 }),
            lexer.tokens@.len() == 0,
            lexer.wf(),
            lexer.line_in_bounds(),
    {
        Self { position: Position { start: 0, current: 0, line: 1 }, src, tokens: Vec::new() }
    }

    /// The main loop: scan token after token until the end of the text,
    /// then stamp the final `Eof` token.
    pub fn tokenize(self) -> (r: Result<Vec<Token<'src>>, Error>)
        requires
            self.wf(),
            self.line_in_bounds(),
        ensures
            match r {
                Ok(ts) => self.scan_state() matches Ok(tvs) && token_views(ts@) == token_views(
                    self.tokens@,
                ) + tvs,
                Err(e) => self.scan_state() matches Err(m) && e@ matches ErrorView::Lexer {
                    message,
                } && message == m,
            },
    {
        let mut lexer = self;
        let ghost s = self.src@;
        let ghost tokens0 = self.tokens@;
        let ghost state0 = self.scan_state();
        while !lexer.is_end()
            invariant
                lexer.wf(),
                lexer.line_in_bounds(),
                lexer.src@ == s,
                lexer.src == self.src,
                s == self.src@,
                tokens0 == self.tokens@,
                state0 == self.scan_state(),
                with_tokens(token_views(lexer.tokens@), lexer.scan_state()) == with_tokens(
                    token_views(tokens0),
                    state0,
                ),
            decreases lexer.src@.len() - lexer.position.current,
    {
            proof {
                // While characters remain, the recorded start bound has no
                // bearing on what the scan yields.
                assert(scan(
                    s,
                    lexer.position.start as int,
                    lexer.position.current as int,
                    lexer.position.line as int,
                ) == scan(
                    s,
                    lexer.position.current as int,
                    lexer.position.current as int,
                    lexer.position.line as int,
                ));
            }
            lexer.position.start = lexer.position.current;
            let ghost before = lexer;
            match lexer.lex_token() {
                Ok(_) => {
                    proof {
                        let delta = token_views(lexer.tokens@).skip(before.tokens@.len() as int);
                        lemma_with_tokens_assoc(token_views(before.tokens@), delta, lexer.scan_state());
                    }
                },
                Err(e) => {
                    proof {
                        let st = before.scan_state();
                        assert(with_tokens(token_views(before.tokens@), st) == with_tokens(
                            token_views(tokens0),
                            state0,
                        ));
                        if let Err(m) = st {
                            assert(with_tokens(token_views(before.tokens@), st) == Err::<
                                Seq<TokenView>,
                                Seq<char>,
                            >(m));
                        }
                    }
                    return Err(e);
                },
            }
        }
        let ghost before_eof = lexer;
        match lexer.token(TokenKind::Eof) {
            Ok(_) => {},
            Err(e) => {
                proof {
                    assert(false);
                }
                return Err(e);
            },
        }
        proof {
            let eof_view = stamped(
                TokenKind::Eof,
                s,
                before_eof.position.start as int,
                before_eof.position.current as int,
                before_eof.position.line as int,
            );
            assert(token_views(lexer.tokens@) =~= token_views(before_eof.tokens@) + seq![eof_view]);
            assert(before_eof.scan_state() matches Ok(tvs) && tvs == seq![eof_view]);
        }
        Ok(lexer.tokens)
    }

    /// Consume the character at the current position and return it; past
    /// the end of the text this is the internal scan-bounds error.
    pub fn advance(&mut self) -> (r: Result<char, Error>)
        requires
            old(self).wf(),
        ensures
            final(self).src == old(self).src,
            final(self).tokens == old(self).tokens,
            final(self).position.start == old(self).position.start,
            final(self).position.line == old(self).position.line,
            final(self).wf(),
            old(self).position.current < old(self).src@.len() ==> {
                &&& final(self).position.current == old(self).position.current + 1
                &&& r matches Ok(c) && c == old(self).src@[old(self).position.current as int]
            },
            old(self).position.current >= old(self).src@.len() ==> {
                &&& final(self).position.current == old(self).position.current
                &&& r is Err
            },
    {
        if self.position.current < self.src.unicode_len() {
            self.position.current = self.position.current + 1;
            self.prev()
        } else {
            Err(Error::Lexer { message: "Lexer advanced passed end of line.".to_owned() })
        }
    }

    /// The character just before the current position; out of bounds this
    /// is the internal scan-bounds error.
    pub fn prev(&self) -> (r: Result<char, Error>)
        ensures
            1 <= self.position.current <= self.src@.len() ==> (r matches Ok(c) && c
                == self.src@[self.position.current - 1]),
            !(1 <= self.position.current <= self.src@.len()) ==> r is Err,
    {
        if 1 <= self.position.current && self.position.current <= self.src.unicode_len() {
            Ok(self.src.get_char(self.position.current - 1))
        } else {
            Err(Error::Lexer { message: "Lexer advanced passed end of line.".to_owned() })
        }
    }

    /// The character at the current position, without consuming it; `'\0'`
    /// at the end of the text.
    pub fn peek(&self) -> (c: char)
        ensures
            c == peek_at(self.src@, self.position.current as int),
    {
        if self.is_end() {
            return '\0';
        }
        self.src.get_char(self.position.current)
    }

    /// The character one past the current position, without consuming
    /// anything; `'\0'` at or past the end of the text.
    pub fn peek_next(&self) -> (c: char)
        ensures
            c == peek_at(self.src@, self.position.current + 1),
    {
        let len = self.src.unicode_len();
        if self.position.current < len && self.position.current + 1 < len {
            self.src.get_char(self.position.current + 1)
        } else {
            '\0'
        }
    }

    /// Whether the current position has reached the end of the text.
    pub fn is_end(&self) -> (r: bool)
        ensures
            r == (self.position.current >= self.src@.len()),
    {
        self.position.current >= self.src.unicode_len()
    }

    /// Whether `c` is a decimal digit.
    pub fn is_digit(&self, c: char) -> (r: bool)
        ensures
            r == is_digit_char(c),
    {
        '0' <= c && c <= '9'
    }

    /// Whether `c` may start an identifier.
    pub fn is_alpha(&self, c: char) -> (r: bool)
        ensures
            r == is_alpha_char(c),
    {
        ('a' <= c && c <= 'z') || ('A' <= c && c <= 'Z') || c == '_'
    }

    /// Whether `c` may continue an identifier.
    pub fn is_alphanumeric(&self, c: char) -> (r: bool)
        ensures
            r == is_alnum_char(c),
    {
        self.is_digit(c) || self.is_alpha(c)
    }

    /// Consume the current character only if it is `expected`.
    pub fn match_token(&mut self, expected: char) -> (r: Result<bool, Error>)
        requires
            old(self).wf(),
        ensures
            final(self).src == old(self).src,
            final(self).tokens == old(self).tokens,
            final(self).position.start == old(self).position.start,
            final(self).position.line == old(self).position.line,
            final(self).wf(),
            r matches Ok(b) && b == (old(self).position.current < old(self).src@.len()
                && old(self).src@[old(self).position.current as int] == expected),
            (r matches Ok(b) && b) ==> final(self).position.current == old(self).position.current + 1,
            (r matches Ok(b) && !b) ==> final(self).position.current == old(self).position.current,
    {
        if self.is_end() {
            return Ok(false);
        }
        if self.peek() != expected {
            return Ok(false);
        }
        self.position.current = self.position.current + 1;
        Ok(true)
    }

    /// Stamp a token for the span between `start` and `current` and append
    /// it: the lexeme is that exact span, except that a string literal
    /// drops its quotes and `Eof` carries none.
    pub fn token(&mut self, kind: TokenKind) -> (r: Result<(), Error>)
        requires
            old(self).wf(),
            kind == TokenKind::StringLiteral ==> old(self).position.start + 2 <= old(
                self,
            ).position.current,
        ensures
            final(self).src == old(self).src,
            final(self).position == old(self).position,
            final(self).wf(),
            r is Ok,
            token_views(final(self).tokens@) == token_views(old(self).tokens@).push(
                stamped(
                    kind,
                    old(self).src@,
                    old(self).position.start as int,
                    old(self).position.current as int,
                    old(self).position.line as int,
                ),
            ),
    {
        let lexeme = match kind {
            TokenKind::StringLiteral => Some(
                self.src.substring_char(self.position.start + 1, self.position.current - 1),
            ),
            TokenKind::Eof => None,
            _ => Some(self.src.substring_char(self.position.start, self.position.current)),
        };
        let ghost tokens0 = self.tokens@;
        let t = Token { kind, lexeme, position: self.position };
        self.tokens.push(t);
        proof {
            lemma_token_views_push(tokens0, t);
        }
        Ok(())
    }

    /// Stamp a single token of the given kind.
    pub fn lex_single(&mut self, kind: TokenKind) -> (r: Result<(), Error>)
        requires
            old(self).wf(),
            kind != TokenKind::StringLiteral,
        ensures
            final(self).src == old(self).src,
            final(self).position == old(self).position,
            final(self).wf(),
            r is Ok,
            token_views(final(self).tokens@) == token_views(old(self).tokens@).push(
                stamped(
                    kind,
                    old(self).src@,
                    old(self).position.start as int,
                    old(self).position.current as int,
                    old(self).position.line as int,
                ),
            ),
    {
        self.token(kind)
    }

    /// Maximal munch for the two-character operators: consume a trailing
    /// character only if it is `expected`, choosing the first kind on a
    /// match and the second otherwise.
    pub fn lex_choice(&mut self, expected: char, choices: (TokenKind, TokenKind)) -> (r: Result<
        (),
        Error,
    >)
        requires
            old(self).wf(),
            choices.0 != TokenKind::StringLiteral,
            choices.1 != TokenKind::StringLiteral,
        ensures
            final(self).src == old(self).src,
            final(self).position.start == old(self).position.start,
            final(self).position.line == old(self).position.line,
            final(self).wf(),
            r is Ok,
            ({
                let matched = old(self).position.current < old(self).src@.len() && old(
                    self,
                ).src@[old(self).position.current as int] == expected;
                let kind = if matched {
                    choices.0
                } else {
                    choices.1
                };
                let end = if matched {
                    old(self).position.current + 1
                } else {
                    old(self).position.current as int
                };
                &&& final(self).position.current == end
                &&& token_views(final(self).tokens@) == token_views(old(self).tokens@).push(
                    stamped(
                        kind,
                        old(self).src@,
                        old(self).position.start as int,
                        end,
                        old(self).position.line as int,
                    ),
                )
            }),
    {
        let (then_kind, otherwise) = choices;
        let matched = match self.match_token(expected) {
            Ok(b) => b,
            Err(e) => {
                proof {
                    assert(false);
                }
                return Err(e);
            },
        };
        if matched {
            self.token(then_kind)
        } else {
            self.token(otherwise)
        }
    }

    /// Discard a line comment: everything up to, but not including, the
    /// next newline or the end of the text.
    pub fn lex_comment(&mut self) -> (r: Result<(), Error>)
        requires
            old(self).wf(),
        ensures
            final(self).src == old(self).src,
            final(self).tokens == old(self).tokens,
            final(self).position.start == old(self).position.start,
            final(self).position.line == old(self).position.line,
            final(self).wf(),
            r is Ok,
            old(self).position.current <= final(self).position.current,
            final(self).position.current == line_comment_end(
                old(self).src@,
                old(self).position.current as int,
            ),
    {
        let ghost s = self.src@;
        let ghost cur0 = self.position.current as int;
        while self.peek() != '\n' && !self.is_end()
            invariant
                self.wf(),
                self.src@ == s,
                self.src == old(self).src,
                self.tokens == old(self).tokens,
                self.position.start == old(self).position.start,
                self.position.line == old(self).position.line,
                cur0 <= self.position.current,
                line_comment_end(s, cur0) == line_comment_end(s, self.position.current as int),
            decreases self.src@.len() - self.position.current,
    {
            match self.advance() {
                Ok(_) => {},
                Err(e) => {
                    proof {
                        assert(false);
                    }
                    return Err(e);
                },
            }
        }
        Ok(())
    }

    /// Discard a block comment: everything through the matching `*/`.
    /// Newlines inside the comment advance the line counter; reaching the
    /// end of the text first is an error.  Block comments do not nest.
    pub fn lex_block_comment(&mut self) -> (r: Result<(), Error>)
        requires
            old(self).wf(),
            old(self).line_in_bounds(),
        ensures
            final(self).src == old(self).src,
            final(self).tokens == old(self).tokens,
            final(self).position.start == old(self).position.start,
            final(self).wf(),
            final(self).line_in_bounds(),
            old(self).position.current <= final(self).position.current,
            match block_comment_end(
                old(self).src@,
                old(self).position.current as int,
                old(self).position.line as int,
            ) {
                Ok((end, line2)) => {
                    &&& r is Ok
                    &&& final(self).position.current == end
                    &&& final(self).position.line == line2
                },
                Err(m) => {
                    &&& r matches Err(e) && e@ matches ErrorView::Lexer { message } && message == m
                },
            },
    {
        let ghost s = self.src@;
        let ghost cur0 = self.position.current as int;
        let ghost line0 = self.position.line as int;
        while !self.is_end()
            invariant
                self.wf(),
                self.line_in_bounds(),
                self.src@ == s,
                self.src == old(self).src,
                self.tokens == old(self).tokens,
                self.position.start == old(self).position.start,
                s == old(self).src@,
                cur0 == old(self).position.current as int,
                line0 == old(self).position.line as int,
                cur0 <= self.position.current,
                block_comment_end(s, cur0, line0) == block_comment_end(
                    s,
                    self.position.current as int,
                    self.position.line as int,
                ),
            decreases self.src@.len() - self.position.current,
    {
            if self.peek() == '*' && self.peek_next() == '/' {
                proof {
                    assert(block_comment_end(s, self.position.current as int, self.position.line as int)
                        == Ok::<(int, int), Seq<char>>((self.position.current + 2, self.position.line as int)));
                }
                self.position.current = self.position.current + 2;
                return Ok(());
            }
            if self.peek() == '\n' {
                self.position.line = self.position.line + 1;
            }
            match self.advance() {
                Ok(_) => {},
                Err(e) => {
                    proof {
                        assert(false);
                    }
                    return Err(e);
                },
            }
        }
        Err(Error::Lexer { message: "Unterminated block comment.".to_owned() })
    }

    /// Scan a string literal's body and stamp its token, with the
    /// delimiting quotes excluded from the lexeme.  Newlines inside the
    /// literal advance the line counter; reaching the end of the text
    /// before the closing quote is an error.
    pub fn lex_string_literal(&mut self) -> (r: Result<(), Error>)
        requires
            old(self).wf(),
            old(self).line_in_bounds(),
            old(self).position.start + 1 == old(self).position.current,
        ensures
            final(self).src == old(self).src,
            final(self).position.start == old(self).position.start,
            final(self).wf(),
            final(self).line_in_bounds(),
            old(self).position.current <= final(self).position.current,
            match string_body_end(
                old(self).src@,
                old(self).position.current as int,
                old(self).position.line as int,
            ) {
                Ok((close, line2)) => {
                    &&& r is Ok
                    &&& final(self).position.current == close + 1
                    &&& final(self).position.line == line2
                    &&& token_views(final(self).tokens@) == token_views(old(self).tokens@).push(
                        stamped(
                            TokenKind::StringLiteral,
                            old(self).src@,
                            old(self).position.start as int,
                            close + 1,
                            line2,
                        ),
                    )
                },
                Err(m) => {
                    &&& r matches Err(e) && e@ matches ErrorView::Lexer { message } && message == m
                    &&& final(self).tokens == old(self).tokens
                },
            },
    {
        let ghost s = self.src@;
        let ghost cur0 = self.position.current as int;
        let ghost line0 = self.position.line as int;
        while self.peek() != '"' && !self.is_end()
            invariant
                self.wf(),
                self.line_in_bounds(),
                self.src@ == s,
                self.src == old(self).src,
                self.tokens == old(self).tokens,
                self.position.start == old(self).position.start,
                cur0 <= self.position.current,
                string_body_end(s, cur0, line0) == string_body_end(
                    s,
                    self.position.current as int,
                    self.position.line as int,
                ),
            decreases self.src@.len() - self.position.current,
    {
            if self.peek() == '\n' {
                self.position.line = self.position.line + 1;
            }
            match self.advance() {
                Ok(_) => {},
                Err(e) => {
                    proof {
                        assert(false);
                    }
                    return Err(e);
                },
            }
        }
        if self.is_end() {
            return Err(Error::Lexer { message: "Unterminated string.".to_owned() });
        }
        match self.advance() {
            Ok(_) => {},
            Err(e) => {
                proof {
                    assert(false);
                }
                return Err(e);
            },
        }
        self.token(TokenKind::StringLiteral)
    }

    /// Scan the rest of a number — the digit run, and a fractional part
    /// only when the decimal point is directly followed by a digit — and
    /// stamp its token.
    pub fn lex_number(&mut self) -> (r: Result<(), Error>)
        requires
            old(self).wf(),
            old(self).position.start + 1 == old(self).position.current,
        ensures
            final(self).src == old(self).src,
            final(self).position.start == old(self).position.start,
            final(self).position.line == old(self).position.line,
            final(self).wf(),
            r is Ok,
            old(self).position.current <= final(self).position.current,
            final(self).position.current == number_end(old(self).src@, old(self).position.start as int),
            token_views(final(self).tokens@) == token_views(old(self).tokens@).push(
                stamped(
                    TokenKind::Number,
                    old(self).src@,
                    old(self).position.start as int,
                    number_end(old(self).src@, old(self).position.start as int),
                    old(self).position.line as int,
                ),
            ),
    {
        let ghost s = self.src@;
        let ghost cur0 = self.position.current as int;
        while self.is_digit(self.peek())
            invariant
                self.wf(),
                self.src@ == s,
                self.src == old(self).src,
                self.tokens == old(self).tokens,
                self.position.start == old(self).position.start,
                self.position.line == old(self).position.line,
                cur0 <= self.position.current,
                digit_run_end(s, cur0) == digit_run_end(s, self.position.current as int),
            decreases self.src@.len() - self.position.current,
    {
            match self.advance() {
                Ok(_) => {},
                Err(e) => {
                    proof {
                        assert(false);
                    }
                    return Err(e);
                },
            }
        }
        let dot = self.peek();
        let after_dot = self.peek_next();
        if dot == '.' && self.is_digit(after_dot) {
            match self.advance() {
                Ok(_) => {},
                Err(e) => {
                    proof {
                        assert(false);
                    }
                    return Err(e);
                },
            }
            let ghost frac0 = self.position.current as int;
            while self.is_digit(self.peek())
                invariant
                    self.wf(),
                    self.src@ == s,
                    self.src == old(self).src,
                    self.tokens == old(self).tokens,
                    self.position.start == old(self).position.start,
                    self.position.line == old(self).position.line,
                    cur0 <= frac0,
                    frac0 <= self.position.current,
                    digit_run_end(s, frac0) == digit_run_end(s, self.position.current as int),
                decreases self.src@.len() - self.position.current,
    {
                match self.advance() {
                    Ok(_) => {},
                    Err(e) => {
                        proof {
                            assert(false);
                        }
                        return Err(e);
                    },
                }
            }
        }
        self.token(TokenKind::Number)
    }

    /// Scan the rest of an identifier, look the full lexeme up in the
    /// keyword table, and stamp the keyword's kind on an exact match or
    /// `Identifier` otherwise.
    pub fn lex_ident(&mut self) -> (r: Result<(), Error>)
        requires
            old(self).wf(),
            old(self).position.start + 1 == old(self).position.current,
        ensures
            final(self).src == old(self).src,
            final(self).position.start == old(self).position.start,
            final(self).position.line == old(self).position.line,
            final(self).wf(),
            r is Ok,
            old(self).position.current <= final(self).position.current,
            final(self).position.current == alnum_run_end(old(self).src@, old(self).position.current as int),
            ({
                let end = alnum_run_end(old(self).src@, old(self).position.current as int);
                let kind = match keyword_kind(
                    old(self).src@.subrange(old(self).position.start as int, end),
                ) {
                    Some(k) => k,
                    None => TokenKind::Identifier,
                };
                token_views(final(self).tokens@) == token_views(old(self).tokens@).push(
                    stamped(
                        kind,
                        old(self).src@,
                        old(self).position.start as int,
                        end,
                        old(self).position.line as int,
                    ),
                )
            }),
    {
        let ghost s = self.src@;
        let ghost cur0 = self.position.current as int;
        while self.is_alphanumeric(self.peek())
            invariant
                self.wf(),
                self.src@ == s,
                self.src == old(self).src,
                self.tokens == old(self).tokens,
                self.position.start == old(self).position.start,
                self.position.line == old(self).position.line,
                cur0 <= self.position.current,
                alnum_run_end(s, cur0) == alnum_run_end(s, self.position.current as int),
            decreases self.src@.len() - self.position.current,
    {
            match self.advance() {
                Ok(_) => {},
                Err(e) => {
                    proof {
                        assert(false);
                    }
                    return Err(e);
                },
            }
        }
        let text = self.src.substring_char(self.position.start, self.position.current);
        match keyword_lookup(text) {
            Some(kind) => self.token(kind),
            None => self.token(TokenKind::Identifier),
        }
    }

    /// Scan one token — or discard one comment, newline or whitespace
    /// character — starting at the current position.
    pub fn lex_token(&mut self) -> (r: Result<(), Error>)
        requires
            old(self).wf(),
            old(self).line_in_bounds(),
            old(self).position.start == old(self).position.current,
            old(self).position.current < old(self).src@.len(),
        ensures
            final(self).src == old(self).src,
            final(self).position.start == old(self).position.start,
            final(self).wf(),
            final(self).line_in_bounds(),
            match r {
                Ok(_) => ({
                    let delta = token_views(final(self).tokens@).skip(old(self).tokens@.len() as int);
                    &&& final(self).position.current > old(self).position.current
                    &&& token_views(final(self).tokens@) == token_views(old(self).tokens@) + delta
                    &&& old(self).scan_state() == with_tokens(
                        delta,
                        scan(
                            old(self).src@,
                            old(self).position.current as int,
                            final(self).position.current as int,
                            final(self).position.line as int,
                        ),
                    )
                }),
                Err(e) => ({
                    &&& final(self).tokens == old(self).tokens
                    &&& old(self).scan_state() matches Err(m) && e@ matches ErrorView::Lexer {
                        message,
                    } && message == m
                }),
            },
    {
        let start = match self.advance() {
            Ok(c) => c,
            Err(e) => {
                proof {
                    assert(false);
                }
                return Err(e);
            },
        };
        match start {
            '(' => {
                let r = self.lex_single(TokenKind::ParenL);
                proof {
                    lemma_skip_push(token_views(old(self).tokens@), token_views(self.tokens@));
                }
                r
            },
            ')' => {
                let r = self.lex_single(TokenKind::ParenR);
                proof {
                    lemma_skip_push(token_views(old(self).tokens@), token_views(self.tokens@));
                }
                r
            },
            '*' => {
                let r = self.lex_single(TokenKind::Star);
                proof {
                    lemma_skip_push(token_views(old(self).tokens@), token_views(self.tokens@));
                }
                r
            },
            '+' => {
                let r = self.lex_single(TokenKind::Plus);
                proof {
                    lemma_skip_push(token_views(old(self).tokens@), token_views(self.tokens@));
                }
                r
            },
            ',' => {
                let r = self.lex_single(TokenKind::Comma);
                proof {
                    lemma_skip_push(token_views(old(self).tokens@), token_views(self.tokens@));
                }
                r
            },
            '-' => {
                let r = self.lex_single(TokenKind::Minus);
                proof {
                    lemma_skip_push(token_views(old(self).tokens@), token_views(self.tokens@));
                }
                r
            },
            ';' => {
                let r = self.lex_single(TokenKind::Semicolon);
                proof {
                    lemma_skip_push(token_views(old(self).tokens@), token_views(self.tokens@));
                }
                r
            },
            '{' => {
                let r = self.lex_single(TokenKind::BraceL);
                proof {
                    lemma_skip_push(token_views(old(self).tokens@), token_views(self.tokens@));
                }
                r
            },
            '}' => {
                let r = self.lex_single(TokenKind::BraceR);
                proof {
                    lemma_skip_push(token_views(old(self).tokens@), token_views(self.tokens@));
                }
                r
            },
            '!' => {
                let r = self.lex_choice('=', (TokenKind::BangEqual, TokenKind::Bang));
                proof {
                    lemma_skip_push(token_views(old(self).tokens@), token_views(self.tokens@));
                }
                r
            },
            '<' => {
                let r = self.lex_choice('=', (TokenKind::LessEqual, TokenKind::Less));
                proof {
                    lemma_skip_push(token_views(old(self).tokens@), token_views(self.tokens@));
                }
                r
            },
            '=' => {
                let r = self.lex_choice('=', (TokenKind::EqualEqual, TokenKind::Equal));
                proof {
                    lemma_skip_push(token_views(old(self).tokens@), token_views(self.tokens@));
                }
                r
            },
            '>' => {
                let r = self.lex_choice('=', (TokenKind::GreaterEqual, TokenKind::Greater));
                proof {
                    lemma_skip_push(token_views(old(self).tokens@), token_views(self.tokens@));
                }
                r
            },
            '"' => {
                let r = self.lex_string_literal();
                proof {
                    lemma_skip_push(token_views(old(self).tokens@), token_views(self.tokens@));
                }
                r
            },
            '/' => {
                let slash_slash = match self.match_token('/') {
                    Ok(b) => b,
                    Err(e) => {
                        proof {
                            assert(false);
                        }
                        return Err(e);
                    },
                };
                let r = if slash_slash {
                    self.lex_comment()
                } else {
                    let slash_star = match self.match_token('*') {
                        Ok(b) => b,
                        Err(e) => {
                            proof {
                                assert(false);
                            }
                            return Err(e);
                        },
                    };
                    if slash_star {
                        self.lex_block_comment()
                    } else {
                        self.lex_single(TokenKind::Slash)
                    }
                };
                proof {
                    lemma_skip_push(token_views(old(self).tokens@), token_views(self.tokens@));
                    lemma_with_tokens_empty(
                        scan(
                            old(self).src@,
                            old(self).position.current as int,
                            self.position.current as int,
                            self.position.line as int,
                        ),
                    );
                }
                r
            },
            '\n' => {
                self.position.line = self.position.line + 1;
                proof {
                    lemma_skip_push(token_views(old(self).tokens@), token_views(self.tokens@));
                    lemma_with_tokens_empty(
                        scan(
                            old(self).src@,
                            old(self).position.current as int,
                            self.position.current as int,
                            self.position.line as int,
                        ),
                    );
                }
                Ok(())
            },
            ' ' | '\t' | '\r' => {
                proof {
                    lemma_skip_push(token_views(old(self).tokens@), token_views(self.tokens@));
                    lemma_with_tokens_empty(
                        scan(
                            old(self).src@,
                            old(self).position.current as int,
                            self.position.current as int,
                            self.position.line as int,
                        ),
                    );
                }
                Ok(())
            },
            c => {
                if self.is_digit(c) {
                    let r = self.lex_number();
                    proof {
                        lemma_skip_push(token_views(old(self).tokens@), token_views(self.tokens@));
                    }
                    r
                } else if self.is_alpha(c) {
                    let r = self.lex_ident();
                    proof {
                        lemma_skip_push(token_views(old(self).tokens@), token_views(self.tokens@));
                    }
                    r
                } else {
                    let message = "Unexpected character: ".to_owned().concat(
                        char_text(c).as_str(),
                    ).concat(".");
                    Err(Error::Lexer { message })
                }
            },
        }
    }
}

// ---------------------------------------------------------------------------
// Order preservation and line tracking.
// ---------------------------------------------------------------------------

/// Scanning a block comment never decreases the line counter.
proof fn lemma_block_comment_line_grows(s: Seq<char>, i: int, line: int)
    ensures
        block_comment_end(s, i, line) matches Ok(p) ==> line <= p.1,
    decreases s.len() - i,
{
    if 0 <= i && i < s.len() && !(s[i] == '*' && i + 1 < s.len() && s[i + 1] == '/') {
        lemma_block_comment_line_grows(s, i + 1, if s[i] == '\n' { line + 1 } else { line });
    }
}

/// Scanning a string literal's body never decreases the line counter.
proof fn lemma_string_body_line_grows(s: Seq<char>, i: int, line: int)
    ensures
        string_body_end(s, i, line) matches Ok(p) ==> line <= p.1,
    decreases s.len() - i,
{
    if 0 <= i && i < s.len() && s[i] != '"' {
        lemma_string_body_line_grows(s, i + 1, if s[i] == '\n' { line + 1 } else { line });
    }
}

/// Tokens tagged in order: start offsets at or after `start`, line tags
/// at or after `line`, and neither ever moving backwards.
pub open spec fn tokens_ordered(ts: Seq<TokenView>, start: int, line: int) -> bool {
    &&& forall|k: int|
        0 <= k < ts.len() ==> start <= (#[trigger] ts[k]).position.start && line
            <= ts[k].position.line
    &&& forall|k: int|
        #![trigger ts[k], ts[k + 1]]
        0 <= k < ts.len() - 1 ==> ts[k].position.start <= ts[k + 1].position.start
            && ts[k].position.line <= ts[k + 1].position.line
}

/// The ordering facts for one emitted token in front of the rest of the
/// scan.
proof fn lemma_ordered_cons(
    tok: TokenView,
    rest: Seq<TokenView>,
    last_start: int,
    line: int,
    start0: int,
    line0: int,
)
    requires
        last_start <= start0,
        line <= line0,
        tok.position.start == start0,
        tok.position.line == line0,
        tokens_ordered(rest, start0, line0),
    ensures
        tokens_ordered(seq![tok] + rest, last_start, line),
{
    let ts = seq![tok] + rest;
    assert forall|k: int|
        0 <= k < ts.len() implies last_start <= (#[trigger] ts[k]).position.start && line
        <= ts[k].position.line by {
        if k >= 1 {
            assert(ts[k] == rest[k - 1]);
        }
    }
    assert forall|k: int|
        #![trigger ts[k], ts[k + 1]]
        0 <= k < ts.len() - 1 implies ts[k].position.start <= ts[k + 1].position.start
        && ts[k].position.line <= ts[k + 1].position.line by {
        if k >= 1 {
            let j = k - 1;
            assert(ts[k] == rest[j]);
            assert(ts[k + 1] == rest[j + 1]);
            assert(rest[j].position.start <= rest[j + 1].position.start && rest[j].position.line
                <= rest[j + 1].position.line);
        } else {
            assert(ts[0] == tok);
            assert(ts[1] == rest[0]);
            assert(start0 <= rest[0].position.start && line0 <= rest[0].position.line);
        }
    }
}

/// Lexing preserves the text's order and tracks lines: in a successful
/// scan the tokens' recorded start offsets never move backwards, and
/// neither do their line tags, which never fall below the line the scan
/// began on.
#[verifier::rlimit(100)]
#[verifier::spinoff_prover]
pub proof fn lemma_scan_ordered(s: Seq<char>, last_start: int, cur: int, line: int)
    requires
        last_start <= cur,
        scan(s, last_start, cur, line) is Ok,
    ensures
        tokens_ordered(scan(s, last_start, cur, line)->Ok_0, last_start, line),
    decreases s.len() - cur,
{
    if cur < 0 || cur >= s.len() {
    } else {
        let c = s[cur];
        if c == '"' {
            let body = string_body_end(s, cur + 1, line);
            lemma_string_body_end(s, cur + 1, line);
            lemma_string_body_line_grows(s, cur + 1, line);
            let close = body->Ok_0.0;
            let line2 = body->Ok_0.1;
            lemma_scan_ordered(s, cur, close + 1, line2);
            lemma_ordered_cons(
                stamped(TokenKind::StringLiteral, s, cur, close + 1, line2),
                scan(s, cur, close + 1, line2)->Ok_0,
                last_start,
                line,
                cur,
                line2,
            );
        } else if c == '/' && cur + 1 < s.len() && s[cur + 1] == '/' {
            lemma_line_comment_end(s, cur + 2);
            lemma_scan_ordered(s, cur, line_comment_end(s, cur + 2), line);
        } else if c == '/' && cur + 1 < s.len() && s[cur + 1] == '*' {
            let body = block_comment_end(s, cur + 2, line);
            lemma_block_comment_end(s, cur + 2, line);
            lemma_block_comment_line_grows(s, cur + 2, line);
            lemma_scan_ordered(s, cur, body->Ok_0.0, body->Ok_0.1);
        } else if c == '\n' {
            lemma_scan_ordered(s, cur, cur + 1, line + 1);
        } else if c == ' ' || c == '\t' || c == '\r' {
            lemma_scan_ordered(s, cur, cur + 1, line);
        } else if c == '!' || c == '<' || c == '=' || c == '>' {
            let matched = cur + 1 < s.len() && s[cur + 1] == '=';
            let end: int = if matched {
                cur + 2
            } else {
                cur + 1
            };
            let kind = if c == '!' {
                if matched {
                    TokenKind::BangEqual
                } else {
                    TokenKind::Bang
                }
            } else if c == '<' {
                if matched {
                    TokenKind::LessEqual
                } else {
                    TokenKind::Less
                }
            } else if c == '=' {
                if matched {
                    TokenKind::EqualEqual
                } else {
                    TokenKind::Equal
                }
            } else {
                if matched {
                    TokenKind::GreaterEqual
                } else {
                    TokenKind::Greater
                }
            };
            lemma_scan_ordered(s, cur, end, line);
            lemma_ordered_cons(
                stamped(kind, s, cur, end, line),
                scan(s, cur, end, line)->Ok_0,
                last_start,
                line,
                cur,
                line,
            );
        } else if is_digit_char(c) {
            let end = number_end(s, cur);
            lemma_digit_run_end(s, cur + 1);
            lemma_digit_run_end(s, digit_run_end(s, cur + 1) + 1);
            lemma_scan_ordered(s, cur, end, line);
            lemma_ordered_cons(
                stamped(TokenKind::Number, s, cur, end, line),
                scan(s, cur, end, line)->Ok_0,
                last_start,
                line,
                cur,
                line,
            );
        } else if is_alpha_char(c) {
            let end = alnum_run_end(s, cur + 1);
            lemma_alnum_run_end(s, cur + 1);
            let kind = match keyword_kind(s.subrange(cur, end)) {
                Some(k) => k,
                None => TokenKind::Identifier,
            };
            lemma_scan_ordered(s, cur, end, line);
            lemma_ordered_cons(
                stamped(kind, s, cur, end, line),
                scan(s, cur, end, line)->Ok_0,
                last_start,
                line,
                cur,
                line,
            );
        } else if c == '(' || c == ')' || c == '*' || c == '+' || c == ',' || c == '-' || c == ';'
            || c == '{' || c == '}' || c == '/' {
            let kind = scan(s, last_start, cur, line)->Ok_0[0].kind;
            lemma_scan_ordered(s, cur, cur + 1, line);
            lemma_ordered_cons(
                stamped(kind, s, cur, cur + 1, line),
                scan(s, cur, cur + 1, line)->Ok_0,
                last_start,
                line,
                cur,
                line,
            );
        }
    }
}

/// The law at the whole-text level: a successful lex tags tokens with
/// start offsets and 1-based line numbers that never move backwards.
pub proof fn lemma_lex_order_and_lines(s: Seq<char>)
    requires
        lex_spec(s) is Ok,
    ensures
        tokens_ordered(lex_spec(s)->Ok_0, 0, 1),
{
    lemma_scan_ordered(s, 0, 0, 1);
}

} // verus!
