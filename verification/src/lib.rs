//! The front end and evaluator of a small dynamically typed expression
//! language: a lexer that turns source text into tokens, a recursive-descent
//! parser that turns tokens into an expression tree, a tree-walking evaluator
//! that reduces an expression to a runtime value, and a printer that renders
//! an expression in fully parenthesized prefix form.
//!
//! Runtime numbers are IEEE double-precision floats.  Verified code carries a
//! number as its decimal text and never computes with it: whenever the
//! evaluator needs an arithmetic result it suspends and hands the caller a
//! [`interpreter::Request`]; the caller performs the floating-point operation
//! and feeds the answer back.  Everything else — scanning, token positions,
//! the grammar, operator dispatch, string ordering and concatenation, the
//! printer — is verified.

pub mod error;
pub mod expr;
pub mod interpreter;
pub mod lexer;
pub mod literal;
pub mod parser;
pub mod position;
pub mod printer;
pub mod strip;
pub mod token;
