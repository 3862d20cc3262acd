//! Tokens and token kinds.
//!
//! A [`Token`] is a tagged slice of the source: its [`TokenKind`], the exact
//! substring it was scanned from (absent for `Eof`, and with the delimiting
//! quotes stripped for string literals), and the [`Position`] it was stamped
//! with when it was finalized.

use crate::position::{Position, PositionView};
use vstd::prelude::*;

verus! {

/// The closed set of token tags: single-character punctuation, one- and
/// two-character operators, literal kinds, reserved words, and `Eof`.
#[derive(Debug, Clone, Copy, PartialEq, Eq, Structural)]
pub enum TokenKind {
    ParenL,
    ParenR,
    BraceL,
    BraceR,
    Comma,
    Semicolon,
    Star,
    Plus,
    Minus,
    Slash,
    Bang,
    BangEqual,
    Equal,
    EqualEqual,
    Greater,
    GreaterEqual,
    Less,
    LessEqual,
    Number,
    StringLiteral,
    Identifier,
    And,
    Class,
    Else,
    False,
    For,
    Fun,
    If,
    Nil,
    Or,
    Print,
    Return,
    Super,
    This,
    True,
    Var,
    While,
    Eof,
}

/// One token: its kind, the source substring it was scanned from, and the
/// scanner's position at the moment the token was finalized.  `Eof` carries
/// no lexeme; a string literal's lexeme excludes the delimiting quotes.
#[derive(Debug, Clone, Copy)]
pub struct Token<'src> {
    pub kind: TokenKind,
    pub lexeme: Option<&'src str>,
    pub position: Position,
}

/// Mathematical image of a [`Token`]: the lexeme as a character sequence and
/// the position as unbounded integers.
pub struct TokenView {
    pub kind: TokenKind,
    pub lexeme: Option<Seq<char>>,
    pub position: PositionView,
}

impl<'src> View for Token<'src> {
    type V = TokenView;

    open spec fn view(&self) -> TokenView {
        TokenView {
            kind: self.kind,
            lexeme: match self.lexeme {
                Option::Some(s) => Option::Some(s@),
                Option::None => Option::None,
            },
            position: self.position@,
        }
    }
}

} // verus!
