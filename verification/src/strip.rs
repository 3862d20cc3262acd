//! Comment stripping.
//!
//! [`strip_comments_and_pad_whitespace`] rewrites source text so that
//! every comment is padded out with blanks — each of its characters
//! becomes a space, except that newlines are kept — while everything
//! else, string literals included, is copied verbatim.  The text keeps
//! its length, so token spans keep their offsets.
//!
//! [`lemma_comments_whitespace_transparent`] is the point of the
//! exercise: on any text that lexes successfully, lexing the stripped
//! text succeeds too and yields the very same kind/lexeme sequence —
//! comments and insignificant whitespace are fully transparent to every
//! stage after the lexer.

use crate::lexer::{
    alnum_run_end, block_comment_end, digit_run_end, is_alnum_char, is_alpha_char, is_digit_char,
    lex_spec, line_comment_end, scan, string_body_end, with_token,
};
use crate::token::{TokenKind, TokenView};
use vstd::prelude::*;
use vstd::string::StrSliceExecFns;
use vstd::string::StringExecFns;

verus! {

/// A region of text with its comments blanked: spaces everywhere, but
/// newlines kept so that line counting survives.
pub open spec fn blanked(region: Seq<char>) -> Seq<char> {
    region.map(|i: int, c: char| if c == '\n' { '\n' } else { ' ' })
}

/// The text from `cur` on with comments padded out: a string literal is
/// copied whole, a line or block comment is blanked, and every other
/// character is copied as it stands.  An unterminated construct — which
/// never lexes — is copied or blanked through the end of the text.
pub open spec fn pad(s: Seq<char>, cur: int) -> Seq<char>
    decreases s.len() - cur,
    via pad_decreases
{
    if cur < 0 || cur >= s.len() {
        Seq::empty()
    } else {
        let c = s[cur];
        if c == '"' {
            match string_body_end(s, cur + 1, 0) {
                Ok((close, _)) => s.subrange(cur, close + 1) + pad(s, close + 1),
                Err(_) => s.subrange(cur, s.len() as int),
            }
        } else if c == '/' && cur + 1 < s.len() && s[cur + 1] == '/' {
            let end = line_comment_end(s, cur + 2);
            blanked(s.subrange(cur, end)) + pad(s, end)
        } else if c == '/' && cur + 1 < s.len() && s[cur + 1] == '*' {
            match block_comment_end(s, cur + 2, 0) {
                Ok((end, _)) => blanked(s.subrange(cur, end)) + pad(s, end),
                Err(_) => blanked(s.subrange(cur, s.len() as int)),
            }
        } else {
            seq![c] + pad(s, cur + 1)
        }
    }
}

#[via_fn]
proof fn pad_decreases(s: Seq<char>, cur: int) {
    crate::lexer::lemma_line_comment_end(s, cur + 2);
    crate::lexer::lemma_block_comment_end(s, cur + 2, 0);
    crate::lexer::lemma_string_body_end(s, cur + 1, 0);
}

/// What of a token sequence survives the comparison: kinds and lexemes,
/// without positions.
pub open spec fn kind_lexemes(ts: Seq<TokenView>) -> Seq<(TokenKind, Option<Seq<char>>)> {
    ts.map(|i: int, t: TokenView| (t.kind, t.lexeme))
}

proof fn lemma_kind_lexemes_concat(a: Seq<TokenView>, b: Seq<TokenView>)
    ensures
        kind_lexemes(a + b) == kind_lexemes(a) + kind_lexemes(b),
{
    assert(kind_lexemes(a + b) =~= kind_lexemes(a) + kind_lexemes(b));
}

/// The padded text has exactly the length of the text it came from.
proof fn lemma_pad_len(s: Seq<char>, cur: int)
    ensures
        0 <= cur <= s.len() ==> pad(s, cur).len() == s.len() - cur,
    decreases s.len() - cur,
{
    if 0 <= cur < s.len() {
        let c = s[cur];
        if c == '"' {
            crate::lexer::lemma_string_body_end(s, cur + 1, 0);
            match string_body_end(s, cur + 1, 0) {
                Ok((close, _)) => {
                    lemma_pad_len(s, close + 1);
                },
                Err(_) => {},
            }
        } else if c == '/' && cur + 1 < s.len() && s[cur + 1] == '/' {
            crate::lexer::lemma_line_comment_end(s, cur + 2);
            lemma_pad_len(s, line_comment_end(s, cur + 2));
        } else if c == '/' && cur + 1 < s.len() && s[cur + 1] == '*' {
            crate::lexer::lemma_block_comment_end(s, cur + 2, 0);
            match block_comment_end(s, cur + 2, 0) {
                Ok((end, _)) => {
                    lemma_pad_len(s, end);
                },
                Err(_) => {},
            }
        } else {
            lemma_pad_len(s, cur + 1);
        }
    }
}

/// Each padded character is the original character or a space.
proof fn lemma_pad_pointwise(s: Seq<char>, cur: int)
    requires
        0 <= cur <= s.len(),
    ensures
        forall|i: int|
            cur <= i < s.len() ==> #[trigger] pad(s, cur)[i - cur] == s[i] || pad(s, cur)[i - cur]
                == ' ',
    decreases s.len() - cur,
{
    lemma_pad_len(s, cur);
    if 0 <= cur < s.len() {
        let c = s[cur];
        if c == '"' {
            crate::lexer::lemma_string_body_end(s, cur + 1, 0);
            match string_body_end(s, cur + 1, 0) {
                Ok((close, _)) => {
                    lemma_pad_len(s, close + 1);
                    lemma_pad_pointwise(s, close + 1);
                    assert forall|i: int| cur <= i < s.len() implies (#[trigger] pad(s, cur)[i
                        - cur] == s[i] || pad(s, cur)[i - cur] == ' ') by {
                        if i <= close {
                            assert(pad(s, cur)[i - cur] == s.subrange(cur, close + 1)[i - cur]);
                        } else {
                            assert(pad(s, cur)[i - cur] == pad(s, close + 1)[i - (close + 1)]);
                        }
                    }
                },
                Err(_) => {},
            }
        } else if c == '/' && cur + 1 < s.len() && s[cur + 1] == '/' {
            crate::lexer::lemma_line_comment_end(s, cur + 2);
            let end = line_comment_end(s, cur + 2);
            lemma_pad_len(s, end);
            lemma_pad_pointwise(s, end);
            assert forall|i: int| cur <= i < s.len() implies (#[trigger] pad(s, cur)[i - cur]
                == s[i] || pad(s, cur)[i - cur] == ' ') by {
                if i < end {
                    assert(pad(s, cur)[i - cur] == blanked(s.subrange(cur, end))[i - cur]);
                    assert(s.subrange(cur, end)[i - cur] == s[i]);
                } else {
                    assert(pad(s, cur)[i - cur] == pad(s, end)[i - end]);
                }
            }
        } else if c == '/' && cur + 1 < s.len() && s[cur + 1] == '*' {
            crate::lexer::lemma_block_comment_end(s, cur + 2, 0);
            match block_comment_end(s, cur + 2, 0) {
                Ok((end, _)) => {
                    lemma_pad_len(s, end);
                    lemma_pad_pointwise(s, end);
                    assert forall|i: int| cur <= i < s.len() implies (#[trigger] pad(s, cur)[i
                        - cur] == s[i] || pad(s, cur)[i - cur] == ' ') by {
                        if i < end {
                            assert(pad(s, cur)[i - cur] == blanked(s.subrange(cur, end))[i - cur]);
                            assert(s.subrange(cur, end)[i - cur] == s[i]);
                        } else {
                            assert(pad(s, cur)[i - cur] == pad(s, end)[i - end]);
                        }
                    }
                },
                Err(_) => {
                    assert forall|i: int| cur <= i < s.len() implies (#[trigger] pad(s, cur)[i
                        - cur] == s[i] || pad(s, cur)[i - cur] == ' ') by {
                        assert(pad(s, cur)[i - cur] == blanked(
                            s.subrange(cur, s.len() as int),
                        )[i - cur]);
                        assert(s.subrange(cur, s.len() as int)[i - cur] == s[i]);
                    }
                },
            }
        } else {
            lemma_pad_len(s, cur + 1);
            lemma_pad_pointwise(s, cur + 1);
            assert forall|i: int| cur <= i < s.len() implies (#[trigger] pad(s, cur)[i - cur]
                == s[i] || pad(s, cur)[i - cur] == ' ') by {
                if i > cur {
                    assert(pad(s, cur)[i - cur] == pad(s, cur + 1)[i - (cur + 1)]);
                }
            }
        }
    }
}

/// Whether a string literal's body terminates, and where it closes, does
/// not depend on the line counter it is scanned with.
proof fn lemma_string_body_end_line(s: Seq<char>, i: int, l1: int, l2: int)
    ensures
        string_body_end(s, i, l1) is Ok <==> string_body_end(s, i, l2) is Ok,
        string_body_end(s, i, l1) is Ok ==> string_body_end(s, i, l1)->Ok_0.0 == string_body_end(
            s,
            i,
            l2,
        )->Ok_0.0,
    decreases s.len() - i,
{
    if 0 <= i && i < s.len() && s[i] != '"' {
        lemma_string_body_end_line(
            s,
            i + 1,
            if s[i] == '\n' { l1 + 1 } else { l1 },
            if s[i] == '\n' { l2 + 1 } else { l2 },
        );
    }
}

/// Whether a block comment terminates, and where it ends, does not
/// depend on the line counter it is scanned with.
proof fn lemma_block_comment_end_line(s: Seq<char>, i: int, l1: int, l2: int)
    ensures
        block_comment_end(s, i, l1) is Ok <==> block_comment_end(s, i, l2) is Ok,
        block_comment_end(s, i, l1) is Ok ==> block_comment_end(s, i, l1)->Ok_0.0
            == block_comment_end(s, i, l2)->Ok_0.0,
    decreases s.len() - i,
{
    if 0 <= i && i < s.len() && !(s[i] == '*' && i + 1 < s.len() && s[i + 1] == '/') {
        lemma_block_comment_end_line(
            s,
            i + 1,
            if s[i] == '\n' { l1 + 1 } else { l1 },
            if s[i] == '\n' { l2 + 1 } else { l2 },
        );
    }
}

/// A digit run is determined by the characters it covers and the first
/// character after it.
proof fn lemma_digit_run_transfer(s: Seq<char>, t: Seq<char>, i: int, e: int)
    requires
        0 <= i <= e <= t.len(),
        digit_run_end(s, i) == e,
        forall|j: int| i <= j < e ==> t[j] == s[j],
        forall|j: int| i <= j < e ==> is_digit_char(s[j]),
        e == t.len() || !is_digit_char(t[e]),
    ensures
        digit_run_end(t, i) == e,
    decreases e - i,
{
    if i < e {
        lemma_digit_run_transfer(s, t, i + 1, e);
    }
}

/// An identifier run is determined the same way.
proof fn lemma_alnum_run_transfer(s: Seq<char>, t: Seq<char>, i: int, e: int)
    requires
        0 <= i <= e <= t.len(),
        alnum_run_end(s, i) == e,
        forall|j: int| i <= j < e ==> t[j] == s[j],
        forall|j: int| i <= j < e ==> is_alnum_char(s[j]),
        e == t.len() || !is_alnum_char(t[e]),
    ensures
        alnum_run_end(t, i) == e,
    decreases e - i,
{
    if i < e {
        lemma_alnum_run_transfer(s, t, i + 1, e);
    }
}

/// A digit run covers digits, and stops on a non-digit or the end.
proof fn lemma_digit_run_chars(s: Seq<char>, i: int)
    requires
        0 <= i,
    ensures
        forall|j: int| i <= j < digit_run_end(s, i) ==> is_digit_char(#[trigger] s[j]),
        digit_run_end(s, i) >= s.len() || !is_digit_char(s[digit_run_end(s, i)]),
    decreases s.len() - i,
{
    if 0 <= i && i < s.len() && is_digit_char(s[i]) {
        lemma_digit_run_chars(s, i + 1);
    }
}

/// An identifier run covers identifier characters, and stops on anything
/// else or the end.
proof fn lemma_alnum_run_chars(s: Seq<char>, i: int)
    requires
        0 <= i,
    ensures
        forall|j: int| i <= j < alnum_run_end(s, i) ==> is_alnum_char(#[trigger] s[j]),
        alnum_run_end(s, i) >= s.len() || !is_alnum_char(s[alnum_run_end(s, i)]),
    decreases s.len() - i,
{
    if 0 <= i && i < s.len() && is_alnum_char(s[i]) {
        lemma_alnum_run_chars(s, i + 1);
    }
}

/// A string literal's body covers no quote, and closes on one.
proof fn lemma_string_body_chars(s: Seq<char>, i: int, line: int)
    requires
        0 <= i,
    ensures
        string_body_end(s, i, line) matches Ok(p) ==> {
            &&& forall|j: int| i <= j < p.0 ==> #[trigger] s[j] != '"'
            &&& i <= p.0 < s.len()
            &&& s[p.0] == '"'
        },
    decreases s.len() - i,
{
    if 0 <= i && i < s.len() && s[i] != '"' {
        lemma_string_body_chars(s, i + 1, if s[i] == '\n' { line + 1 } else { line });
    }
}

/// A string literal's body transfers to any text that agrees with the
/// original on the body and its closing quote.
proof fn lemma_string_body_transfer(
    s: Seq<char>,
    t: Seq<char>,
    i: int,
    close: int,
    l1: int,
    l2: int,
)
    requires
        0 <= i <= close,
        t.len() == s.len(),
        string_body_end(s, i, l1) matches Ok(p) && p.0 == close,
        forall|j: int| i <= j <= close ==> t[j] == s[j],
    ensures
        string_body_end(t, i, l2) matches Ok(q) && q.0 == close,
    decreases close - i,
{
    lemma_string_body_chars(s, i, l1);
    if s[i] != '"' {
        lemma_string_body_transfer(
            s,
            t,
            i + 1,
            close,
            if s[i] == '\n' { l1 + 1 } else { l1 },
            if t[i] == '\n' { l2 + 1 } else { l2 },
        );
    }
}

/// Whether a padded region begins at `i`: a string literal or a comment.
pub open spec fn region_start(s: Seq<char>, i: int) -> bool {
    s[i] == '"' || (s[i] == '/' && i + 1 < s.len() && (s[i + 1] == '/' || s[i + 1] == '*'))
}

/// Padding copies any span that starts no string and no comment
/// verbatim.
proof fn lemma_pad_verbatim(s: Seq<char>, cur: int, e: int)
    requires
        0 <= cur <= e <= s.len(),
        forall|i: int| cur <= i < e ==> !region_start(s, i),
    ensures
        pad(s, cur) == s.subrange(cur, e) + pad(s, e),
    decreases e - cur,
{
    if cur == e {
        assert(s.subrange(cur, e) + pad(s, e) =~= pad(s, cur));
    } else {
        assert(!region_start(s, cur));
        lemma_pad_verbatim(s, cur + 1, e);
        assert(seq![s[cur]] + (s.subrange(cur + 1, e) + pad(s, e)) =~= s.subrange(cur, e) + pad(
            s,
            e,
        ));
    }
}

/// Split a padded suffix at a verbatim-copied span: the span agrees with
/// the original, and what follows is the padding of the rest.
proof fn lemma_suffix_split(s: Seq<char>, t: Seq<char>, cur: int, e: int)
    requires
        0 <= cur <= e <= s.len(),
        t.len() == s.len(),
        t.subrange(cur, t.len() as int) == pad(s, cur),
        pad(s, cur) == s.subrange(cur, e) + pad(s, e),
    ensures
        forall|i: int| cur <= i < e ==> t[i] == s[i],
        t.subrange(cur, e) == s.subrange(cur, e),
        t.subrange(e, t.len() as int) == pad(s, e),
    decreases 0int,
{
    lemma_pad_len(s, cur);
    lemma_pad_len(s, e);
    assert forall|i: int| cur <= i < e implies t[i] == s[i] by {
        assert(t[i] == t.subrange(cur, t.len() as int)[i - cur]);
        assert(pad(s, cur)[i - cur] == s.subrange(cur, e)[i - cur]);
    }
    assert(t.subrange(cur, e) =~= s.subrange(cur, e));
    assert forall|k: int| 0 <= k < t.len() - e implies t.subrange(e, t.len() as int)[k] == pad(
        s,
        e,
    )[k] by {
        assert(t.subrange(e, t.len() as int)[k] == t.subrange(cur, t.len() as int)[e - cur + k]);
        assert(pad(s, cur)[e - cur + k] == pad(s, e)[k]);
    }
    assert(t.subrange(e, t.len() as int) =~= pad(s, e));
}

/// Split a padded suffix at a blanked span: the span holds only spaces
/// and newlines, and what follows is the padding of the rest.
proof fn lemma_suffix_split_blank(s: Seq<char>, t: Seq<char>, cur: int, e: int)
    requires
        0 <= cur <= e <= s.len(),
        t.len() == s.len(),
        t.subrange(cur, t.len() as int) == pad(s, cur),
        pad(s, cur) == blanked(s.subrange(cur, e)) + pad(s, e),
    ensures
        forall|i: int| cur <= i < e ==> t[i] == ' ' || t[i] == '\n',
        t.subrange(e, t.len() as int) == pad(s, e),
    decreases 0int,
{
    lemma_pad_len(s, cur);
    lemma_pad_len(s, e);
    assert forall|i: int| cur <= i < e implies (t[i] == ' ' || t[i] == '\n') by {
        assert(t[i] == t.subrange(cur, t.len() as int)[i - cur]);
        assert(pad(s, cur)[i - cur] == blanked(s.subrange(cur, e))[i - cur]);
    }
    assert forall|k: int| 0 <= k < t.len() - e implies t.subrange(e, t.len() as int)[k] == pad(
        s,
        e,
    )[k] by {
        assert(t.subrange(e, t.len() as int)[k] == t.subrange(cur, t.len() as int)[e - cur + k]);
        assert(pad(s, cur)[e - cur + k] == pad(s, e)[k]);
    }
    assert(t.subrange(e, t.len() as int) =~= pad(s, e));
}

/// Scanning a stretch of blanks — spaces and newlines — just walks
/// through it, token for token unchanged afterwards.
proof fn lemma_scan_blanks(t: Seq<char>, st: int, i: int, e: int, line: int)
    requires
        0 <= i <= e <= t.len(),
        forall|j: int| i <= j < e ==> t[j] == ' ' || t[j] == '\n',
    ensures
        exists|st2: int, line2: int| scan(t, st, i, line) == scan(t, st2, e, line2),
    decreases e - i,
{
    if i < e {
        let line_next: int = if t[i] == '\n' {
            line + 1
        } else {
            line
        };
        assert(scan(t, st, i, line) == scan(t, i, i + 1, line_next));
        lemma_scan_blanks(t, i, i + 1, e, line_next);
        let (st2, line2) = choose|st2: int, line2: int|
            scan(t, i, i + 1, line_next) == scan(t, st2, e, line2);
        assert(scan(t, st, i, line) == scan(t, st2, e, line2));
    } else {
        assert(scan(t, st, i, line) == scan(t, st, e, line));
    }
}

proof fn lemma_combine_token(
    tok_s: TokenView,
    tok_t: TokenView,
    rest_s: Result<Seq<TokenView>, Seq<char>>,
    rest_t: Result<Seq<TokenView>, Seq<char>>,
)
    requires
        rest_s is Ok,
        rest_t is Ok,
        kind_lexemes(rest_t->Ok_0) == kind_lexemes(rest_s->Ok_0),
        tok_t.kind == tok_s.kind,
        tok_t.lexeme == tok_s.lexeme,
    ensures
        with_token(tok_t, rest_t) is Ok,
        kind_lexemes(with_token(tok_t, rest_t)->Ok_0) == kind_lexemes(
            with_token(tok_s, rest_s)->Ok_0,
        ),
{
    lemma_kind_lexemes_concat(seq![tok_s], rest_s->Ok_0);
    lemma_kind_lexemes_concat(seq![tok_t], rest_t->Ok_0);
    assert(kind_lexemes(seq![tok_t]) =~= kind_lexemes(seq![tok_s]));
}

/// The heart of the transparency proof: scanning a padded text from any
/// aligned offset succeeds whenever scanning the original does, with the
/// same kinds and lexemes, whatever start bounds and line counters the
/// two scans carry.
#[verifier::rlimit(100)]
#[verifier::spinoff_prover]
proof fn lemma_scan_padded(
    s: Seq<char>,
    t: Seq<char>,
    st1: int,
    st2: int,
    cur: int,
    line1: int,
    line2: int,
)
    requires
        0 <= cur <= s.len(),
        t.len() == s.len(),
        t.subrange(cur, t.len() as int) == pad(s, cur),
        scan(s, st1, cur, line1) is Ok,
    ensures
        scan(t, st2, cur, line2) is Ok,
        kind_lexemes(scan(t, st2, cur, line2)->Ok_0) == kind_lexemes(scan(s, st1, cur, line1)->Ok_0),
    decreases s.len() - cur,
{
    lemma_pad_len(s, cur);
    lemma_pad_pointwise(s, cur);
    assert forall|i: int| cur <= i < s.len() implies (t[i] == s[i] || t[i] == ' ') by {
        assert(t[i] == t.subrange(cur, t.len() as int)[i - cur]);
    }
    if cur >= s.len() {
        let eof_s = scan(s, st1, cur, line1)->Ok_0;
        let eof_t = scan(t, st2, cur, line2)->Ok_0;
        assert(kind_lexemes(eof_t) =~= kind_lexemes(eof_s));
    } else {
        let c = s[cur];
        if c == '"' {
            let body = string_body_end(s, cur + 1, line1);
            assert(body is Ok);
            let close = body->Ok_0.0;
            let l1p = body->Ok_0.1;
            lemma_string_body_chars(s, cur + 1, line1);
            lemma_string_body_end_line(s, cur + 1, line1, 0);
            lemma_suffix_split(s, t, cur, close + 1);
            assert(t[cur] == '"');
            lemma_string_body_transfer(s, t, cur + 1, close, line1, line2);
            let body_t = string_body_end(t, cur + 1, line2);
            let l2p = body_t->Ok_0.1;
            let tok_s = crate::lexer::stamped(TokenKind::StringLiteral, s, cur, close + 1, l1p);
            let tok_t = crate::lexer::stamped(TokenKind::StringLiteral, t, cur, close + 1, l2p);
            assert(tok_t.lexeme == tok_s.lexeme) by {
                assert(t.subrange(cur + 1, close) =~= s.subrange(cur + 1, close));
            }
            assert(scan(s, st1, cur, line1) == with_token(tok_s, scan(s, cur, close + 1, l1p)));
            assert(scan(t, st2, cur, line2) == with_token(tok_t, scan(t, cur, close + 1, l2p)));
            lemma_scan_padded(s, t, cur, cur, close + 1, l1p, l2p);
            lemma_combine_token(
                tok_s,
                tok_t,
                scan(s, cur, close + 1, l1p),
                scan(t, cur, close + 1, l2p),
            );
        } else if c == '/' && cur + 1 < s.len() && s[cur + 1] == '/' {
            let end = line_comment_end(s, cur + 2);
            crate::lexer::lemma_line_comment_end(s, cur + 2);
            lemma_suffix_split_blank(s, t, cur, end);
            assert(scan(s, st1, cur, line1) == scan(s, cur, end, line1));
            lemma_scan_blanks(t, st2, cur, end, line2);
            let (stb, lb) = choose|stb: int, lb: int|
                scan(t, st2, cur, line2) == scan(t, stb, end, lb);
            lemma_scan_padded(s, t, cur, stb, end, line1, lb);
        } else if c == '/' && cur + 1 < s.len() && s[cur + 1] == '*' {
            let body = block_comment_end(s, cur + 2, line1);
            assert(body is Ok);
            let end = body->Ok_0.0;
            let l1p = body->Ok_0.1;
            crate::lexer::lemma_block_comment_end(s, cur + 2, line1);
            lemma_block_comment_end_line(s, cur + 2, line1, 0);
            lemma_suffix_split_blank(s, t, cur, end);
            assert(scan(s, st1, cur, line1) == scan(s, cur, end, l1p));
            lemma_scan_blanks(t, st2, cur, end, line2);
            let (stb, lb) = choose|stb: int, lb: int|
                scan(t, st2, cur, line2) == scan(t, stb, end, lb);
            lemma_scan_padded(s, t, cur, stb, end, l1p, lb);
        } else if c == '\n' || c == ' ' || c == '\t' || c == '\r' {
            assert(!region_start(s, cur));
            lemma_pad_verbatim(s, cur, cur + 1);
            lemma_suffix_split(s, t, cur, cur + 1);
            assert(t[cur] == c);
            let l1n: int = if c == '\n' {
                line1 + 1
            } else {
                line1
            };
            let l2n: int = if c == '\n' {
                line2 + 1
            } else {
                line2
            };
            assert(scan(s, st1, cur, line1) == scan(s, cur, cur + 1, l1n));
            assert(scan(t, st2, cur, line2) == scan(t, cur, cur + 1, l2n));
            lemma_scan_padded(s, t, cur, cur, cur + 1, l1n, l2n);
        } else if c == '(' || c == ')' || c == '*' || c == '+' || c == ',' || c == '-' || c == ';'
            || c == '{' || c == '}' || (c == '/' && !(cur + 1 < s.len() && (s[cur + 1] == '/' || s[
            cur + 1] == '*'))) {
            assert(!region_start(s, cur));
            lemma_pad_verbatim(s, cur, cur + 1);
            lemma_suffix_split(s, t, cur, cur + 1);
            assert(t[cur] == c);
            if c == '/' && cur + 1 < s.len() {
                assert(t[cur + 1] == s[cur + 1] || t[cur + 1] == ' ');
            }
            let tok_s = scan(s, st1, cur, line1)->Ok_0[0];
            assert(scan(s, st1, cur, line1) == with_token(
                crate::lexer::stamped(tok_s.kind, s, cur, cur + 1, line1),
                scan(s, cur, cur + 1, line1),
            ));
            let tok_t = crate::lexer::stamped(tok_s.kind, t, cur, cur + 1, line2);
            assert(scan(t, st2, cur, line2) == with_token(tok_t, scan(t, cur, cur + 1, line2)));
            assert(tok_t.lexeme == crate::lexer::stamped(tok_s.kind, s, cur, cur + 1, line1).lexeme)
                by {
                assert(t.subrange(cur, cur + 1) =~= s.subrange(cur, cur + 1));
            }
            lemma_scan_padded(s, t, cur, cur, cur + 1, line1, line2);
            lemma_combine_token(
                crate::lexer::stamped(tok_s.kind, s, cur, cur + 1, line1),
                tok_t,
                scan(s, cur, cur + 1, line1),
                scan(t, cur, cur + 1, line2),
            );
        } else if c == '!' || c == '<' || c == '=' || c == '>' {
            let matched = cur + 1 < s.len() && s[cur + 1] == '=';
            let end: int = if matched {
                cur + 2
            } else {
                cur + 1
            };
            assert(!region_start(s, cur));
            if matched {
                assert(!region_start(s, cur + 1));
            }
            lemma_pad_verbatim(s, cur, end);
            lemma_suffix_split(s, t, cur, end);
            assert(t[cur] == c);
            let matched_t = cur + 1 < t.len() && t[cur + 1] == '=';
            assert(matched_t == matched) by {
                if cur + 1 < s.len() {
                    assert(t[cur + 1] == s[cur + 1] || t[cur + 1] == ' ');
                }
            }
            let tok_s = scan(s, st1, cur, line1)->Ok_0[0];
            assert(scan(s, st1, cur, line1) == with_token(
                crate::lexer::stamped(tok_s.kind, s, cur, end, line1),
                scan(s, cur, end, line1),
            ));
            let tok_t = crate::lexer::stamped(tok_s.kind, t, cur, end, line2);
            assert(scan(t, st2, cur, line2) == with_token(tok_t, scan(t, cur, end, line2)));
            assert(tok_t.lexeme == crate::lexer::stamped(tok_s.kind, s, cur, end, line1).lexeme) by {
                assert(t.subrange(cur, end) =~= s.subrange(cur, end));
            }
            lemma_scan_padded(s, t, cur, cur, end, line1, line2);
            lemma_combine_token(
                crate::lexer::stamped(tok_s.kind, s, cur, end, line1),
                tok_t,
                scan(s, cur, end, line1),
                scan(t, cur, end, line2),
            );
        } else if is_digit_char(c) {
            let whole = digit_run_end(s, cur + 1);
            let end = crate::lexer::number_end(s, cur);
            crate::lexer::lemma_digit_run_end(s, cur + 1);
            crate::lexer::lemma_digit_run_end(s, whole + 1);
            lemma_digit_run_chars(s, cur + 1);
            lemma_digit_run_chars(s, whole + 1);
            assert forall|i: int| cur <= i < end implies !region_start(s, i) by {
                if i == cur {
                } else if i < whole {
                    assert(is_digit_char(s[i]));
                } else if i == whole {
                } else {
                    assert(is_digit_char(s[i]));
                }
            }
            lemma_pad_verbatim(s, cur, end);
            lemma_suffix_split(s, t, cur, end);
            assert(t[cur] == c);
            let fraction = crate::lexer::peek_at(s, whole) == '.' && is_digit_char(
                crate::lexer::peek_at(s, whole + 1),
            );
            assert(whole == t.len() || !is_digit_char(t[whole])) by {
                if whole < s.len() {
                    if fraction {
                        assert(t[whole] == s[whole]);
                    } else {
                        assert(t[whole] == s[whole] || t[whole] == ' ');
                    }
                }
            }
            lemma_digit_run_transfer(s, t, cur + 1, whole);
            assert(crate::lexer::number_end(t, cur) == end) by {
                if fraction {
                    assert(t[whole] == '.');
                    assert(t[whole + 1] == s[whole + 1]);
                    assert(end == t.len() || !is_digit_char(t[end])) by {
                        if end < s.len() {
                            assert(t[end] == s[end] || t[end] == ' ');
                        }
                    }
                    lemma_digit_run_transfer(s, t, whole + 1, end);
                } else {
                    if whole < s.len() && s[whole] == '.' {
                        if whole + 1 < s.len() {
                            assert(t[whole + 1] == s[whole + 1] || t[whole + 1] == ' ');
                        }
                    } else if whole < s.len() {
                        assert(t[whole] == s[whole] || t[whole] == ' ');
                    }
                }
            }
            let tok_s = scan(s, st1, cur, line1)->Ok_0[0];
            assert(scan(s, st1, cur, line1) == with_token(
                crate::lexer::stamped(TokenKind::Number, s, cur, end, line1),
                scan(s, cur, end, line1),
            ));
            let tok_t = crate::lexer::stamped(TokenKind::Number, t, cur, end, line2);
            assert(scan(t, st2, cur, line2) == with_token(tok_t, scan(t, cur, end, line2)));
            assert(tok_t.lexeme == crate::lexer::stamped(TokenKind::Number, s, cur, end, line1).lexeme)
                by {
                assert(t.subrange(cur, end) =~= s.subrange(cur, end));
            }
            lemma_scan_padded(s, t, cur, cur, end, line1, line2);
            lemma_combine_token(
                crate::lexer::stamped(TokenKind::Number, s, cur, end, line1),
                tok_t,
                scan(s, cur, end, line1),
                scan(t, cur, end, line2),
            );
        } else if is_alpha_char(c) {
            let end = alnum_run_end(s, cur + 1);
            crate::lexer::lemma_alnum_run_end(s, cur + 1);
            lemma_alnum_run_chars(s, cur + 1);
            assert forall|i: int| cur <= i < end implies !region_start(s, i) by {
                if i > cur {
                    assert(is_alnum_char(s[i]));
                }
            }
            lemma_pad_verbatim(s, cur, end);
            lemma_suffix_split(s, t, cur, end);
            assert(t[cur] == c);
            assert(alnum_run_end(t, cur + 1) == end) by {
                if end < s.len() {
                    assert(t[end] == s[end] || t[end] == ' ');
                }
                lemma_alnum_run_transfer(s, t, cur + 1, end);
            }
            assert(t.subrange(cur, end) =~= s.subrange(cur, end));
            let kind = match crate::lexer::keyword_kind(s.subrange(cur, end)) {
                Some(k) => k,
                None => TokenKind::Identifier,
            };
            let tok_s = crate::lexer::stamped(kind, s, cur, end, line1);
            let tok_t = crate::lexer::stamped(kind, t, cur, end, line2);
            assert(scan(s, st1, cur, line1) == with_token(tok_s, scan(s, cur, end, line1)));
            assert(scan(t, st2, cur, line2) == with_token(tok_t, scan(t, cur, end, line2)));
            lemma_scan_padded(s, t, cur, cur, end, line1, line2);
            lemma_combine_token(tok_s, tok_t, scan(s, cur, end, line1), scan(t, cur, end, line2));
        } else {
            assert(scan(s, st1, cur, line1) is Err);
        }
    }
}

/// Where a string literal's body scanned from `i` closes, if it does.
pub open spec fn close_of(s: Seq<char>, i: int) -> Option<int> {
    match string_body_end(s, i, 0) {
        Ok(p) => Some(p.0),
        Err(_) => None,
    }
}

/// Where a block comment scanned from `i` ends, just past its `*/`, if
/// it terminates.
pub open spec fn block_end_of(s: Seq<char>, i: int) -> Option<int> {
    match block_comment_end(s, i, 0) {
        Ok(p) => Some(p.0),
        Err(_) => None,
    }
}

/// Find the closing quote of a string literal's body starting at `from`,
/// or the end of the text if there is none.
fn find_quote(src: &str, from: usize) -> (j: usize)
    requires
        from <= src@.len(),
    ensures
        match close_of(src@, from as int) {
            Some(close) => j == close,
            None => j == src@.len(),
        },
{
    let len = src.unicode_len();
    let mut j: usize = from;
    while j < len && src.get_char(j) != '"'
        invariant
            from <= j <= len,
            len == src@.len(),
            close_of(src@, from as int) == close_of(src@, j as int),
        decreases len - j,
    {
        proof {
            lemma_string_body_end_line(
                src@,
                j + 1,
                if src@[j as int] == '\n' { 1int } else { 0int },
                0,
            );
        }
        j = j + 1;
    }
    j
}

/// Find the end of a block comment whose body starts at `from`: the
/// offset just past its `*/`, or nothing if it never terminates.
fn find_block_end(src: &str, from: usize) -> (r: Option<usize>)
    requires
        from <= src@.len(),
    ensures
        match r {
            Some(e) => block_end_of(src@, from as int) == Some(e as int),
            None => block_end_of(src@, from as int) is None,
        },
{
    let len = src.unicode_len();
    let mut j: usize = from;
    while j < len
        invariant
            from <= j <= len,
            len == src@.len(),
            block_end_of(src@, from as int) == block_end_of(src@, j as int),
        decreases len - j,
    {
        if src.get_char(j) == '*' && j + 1 < len && src.get_char(j + 1) == '/' {
            return Some(j + 2);
        }
        proof {
            lemma_block_comment_end_line(
                src@,
                j + 1,
                if src@[j as int] == '\n' { 1int } else { 0int },
                0,
            );
        }
        j = j + 1;
    }
    None
}

/// Find the newline that ends a line comment scanned from `from`, or the
/// end of the text.
fn find_newline(src: &str, from: usize) -> (j: usize)
    requires
        from <= src@.len(),
    ensures
        j == line_comment_end(src@, from as int),
{
    let len = src.unicode_len();
    let mut j: usize = from;
    while j < len && src.get_char(j) != '\n'
        invariant
            from <= j <= len,
            len == src@.len(),
            line_comment_end(src@, from as int) == line_comment_end(src@, j as int),
        decreases len - j,
    {
        j = j + 1;
    }
    j
}

/// Rewrite `src` with its comments padded out — each comment character
/// becomes a space, newlines excepted — and everything else, string
/// literals included, copied verbatim.
pub fn strip_comments_and_pad_whitespace(src: &str) -> (out: String)
    ensures
        out@ == pad(src@, 0),
{
    let ghost s = src@;
    let len = src.unicode_len();
    let mut out = String::new();
    let mut cur: usize = 0;
    proof {
        assert(Seq::<char>::empty() + pad(s, 0) =~= pad(s, 0));
    }
    while cur < len
        invariant
            cur <= len,
            len == s.len(),
            s == src@,
            out@ + pad(s, cur as int) == pad(s, 0),
        decreases len - cur,
    {
        let ghost base = out@;
        let c = src.get_char(cur);
        if c == '"' {
            let close = find_quote(src, cur + 1);
            proof {
                lemma_string_body_chars(s, cur + 1, 0);
            }
            if close < len {
                let piece = src.substring_char(cur, close + 1);
                out.append(piece);
                proof {
                    assert(pad(s, cur as int) == s.subrange(cur as int, close + 1) + pad(
                        s,
                        close + 1,
                    ));
                    assert((base + s.subrange(cur as int, close + 1)) + pad(s, close + 1) =~= base
                        + (s.subrange(cur as int, close + 1) + pad(s, close + 1)));
                }
                cur = close + 1;
            } else {
                let piece = src.substring_char(cur, len);
                out.append(piece);
                proof {
                    assert(pad(s, cur as int) == s.subrange(cur as int, s.len() as int));
                    assert((base + s.subrange(cur as int, s.len() as int)) + pad(s, len as int)
                        =~= base + s.subrange(cur as int, s.len() as int));
                }
                cur = len;
            }
        } else {
            let comment_end: Option<usize> = if c == '/' && cur + 1 < len && src.get_char(cur + 1)
                == '/' {
                Some(find_newline(src, cur + 2))
            } else if c == '/' && cur + 1 < len && src.get_char(cur + 1) == '*' {
                match find_block_end(src, cur + 2) {
                    Some(e) => Some(e),
                    None => Some(len),
                }
            } else {
                None
            };
            match comment_end {
                Some(e) => {
                    proof {
                        crate::lexer::lemma_line_comment_end(s, cur + 2);
                        crate::lexer::lemma_block_comment_end(s, cur + 2, 0);
                    }
                    let mut k: usize = cur;
                    proof {
                        assert(blanked(s.subrange(cur as int, cur as int)) =~= Seq::<
                            char,
                        >::empty());
                        assert(base + Seq::<char>::empty() =~= base);
                    }
                    while k < e
                        invariant
                            cur <= k <= e <= len,
                            len == s.len(),
                            s == src@,
                            out@ == base + blanked(s.subrange(cur as int, k as int)),
                        decreases e - k,
                    {
                        if src.get_char(k) == '\n' {
                            out.append("\n");
                        } else {
                            out.append(" ");
                        }
                        proof {
                            reveal_strlit("\n");
                            reveal_strlit(" ");
                            assert("\n"@ =~= seq!['\n']);
                            assert(" "@ =~= seq![' ']);
                            assert(blanked(s.subrange(cur as int, k + 1)) =~= blanked(
                                s.subrange(cur as int, k as int),
                            ).push(if s[k as int] == '\n' { '\n' } else { ' ' }));
                            assert(base + blanked(s.subrange(cur as int, k as int)).push(
                                if s[k as int] == '\n' { '\n' } else { ' ' },
                            ) =~= (base + blanked(s.subrange(cur as int, k as int))).push(
                                if s[k as int] == '\n' { '\n' } else { ' ' },
                            ));
                        }
                        k = k + 1;
                    }
                    proof {
                        assert(pad(s, cur as int) == blanked(s.subrange(cur as int, e as int))
                            + pad(s, e as int));
                        assert((base + blanked(s.subrange(cur as int, e as int))) + pad(
                            s,
                            e as int,
                        ) =~= base + (blanked(s.subrange(cur as int, e as int)) + pad(
                            s,
                            e as int,
                        )));
                    }
                    cur = e;
                },
                None => {
                    let piece = src.substring_char(cur, cur + 1);
                    out.append(piece);
                    proof {
                        assert(pad(s, cur as int) == seq![s[cur as int]] + pad(s, cur + 1));
                        assert(s.subrange(cur as int, cur + 1) =~= seq![s[cur as int]]);
                        assert((base + seq![s[cur as int]]) + pad(s, cur + 1) =~= base + (seq![
                            s[cur as int]
                        ] + pad(s, cur + 1)));
                    }
                    cur = cur + 1;
                },
            }
        }
    }
    proof {
        assert(out@ + Seq::<char>::empty() =~= out@);
    }
    out
}

/// Comments and insignificant whitespace are transparent: on any text
/// that lexes successfully, the padded text lexes successfully too and
/// yields the identical token kind/lexeme sequence.
pub proof fn lemma_comments_whitespace_transparent(s: Seq<char>)
    requires
        lex_spec(s) is Ok,
    ensures
        lex_spec(pad(s, 0)) is Ok,
        kind_lexemes(lex_spec(pad(s, 0))->Ok_0) == kind_lexemes(lex_spec(s)->Ok_0),
{
    let t = pad(s, 0);
    lemma_pad_len(s, 0);
    assert(t.subrange(0, t.len() as int) =~= pad(s, 0));
    lemma_scan_padded(s, t, 0, 0, 0, 1, 1);
}

} // verus!
