//! Errors produced by the lexer and the parser.
//!
//! Each stage fails fast: the first error aborts the whole operation and is
//! returned unrecovered, with a human-readable message and no structured
//! payload.  The evaluator never produces an error.

use vstd::prelude::*;
use vstd::string::StringExecFns;

verus! {

/// An error from the lexer or from the parser, carrying its message.
#[derive(Debug, PartialEq, Eq)]
pub enum Error {
    Lexer { message: String },
    Parser { message: String },
}

/// Mathematical image of an [`Error`]: the same tag with the message as a
/// character sequence.
pub enum ErrorView {
    Lexer { message: Seq<char> },
    Parser { message: Seq<char> },
}

impl View for Error {
    type V = ErrorView;

    open spec fn view(&self) -> ErrorView {
        match self {
            Error::Lexer { message } => ErrorView::Lexer { message: message@ },
            Error::Parser { message } => ErrorView::Parser { message: message@ },
        }
    }
}

impl Error {
    /// The error rendered for display: the failing stage followed by the
    /// message.
    pub fn display(&self) -> (text: String)
        ensures
            match self@ {
                ErrorView::Lexer { message } => text@ == "Lexer Error: "@ + message,
                ErrorView::Parser { message } => text@ == "Parser Error: "@ + message,
            },
    {
        match self {
            Error::Lexer { message } => "Lexer Error: ".to_owned().concat(message.as_str()),
            Error::Parser { message } => "Parser Error: ".to_owned().concat(message.as_str()),
        }
    }
}

} // verus!
