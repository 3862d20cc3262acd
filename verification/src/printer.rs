//! The printer.
//!
//! A debugging companion to the evaluator that renders an expression tree
//! in fully parenthesized prefix form, making the precedence and
//! associativity the parser introduced visually explicit: literals by
//! their display form, groupings as `(group <inner>)`, unary and binary
//! operators as `(<lexeme> <operand>...)`.  The reserved node kinds
//! render as `nil`, like they evaluate.

use crate::expr::{expr_height, Expr, ExprView};
use crate::literal::Literal;
use crate::token::{Token, TokenView};
use vstd::prelude::*;
use vstd::string::StringExecFns;

verus! {

/// A token's lexeme, or nothing where it carries none.
pub open spec fn lexeme_text(t: TokenView) -> Seq<char> {
    match t.lexeme {
        Some(lx) => lx,
        None => Seq::empty(),
    }
}

/// What printing an expression yields.
pub open spec fn print_spec(e: ExprView) -> Seq<char>
    decreases e,
{
    match e {
        ExprView::Literal { value } => value.display(),
        ExprView::Grouping { expression } => "(group "@ + print_spec(*expression) + ")"@,
        ExprView::Unary { operator, right } => "("@ + lexeme_text(operator) + " "@ + print_spec(
            *right,
        ) + ")"@,
        ExprView::Binary { left, operator, right } => "("@ + lexeme_text(operator) + " "@
            + print_spec(*left) + " "@ + print_spec(*right) + ")"@,
        _ => "nil"@,
    }
}

/// The prefix-form renderer.
#[derive(Debug, Clone)]
pub struct Printer {}

impl Printer {
    /// A new printer.
    pub fn new() -> (printer: Self) {
        Self {  }
    }

    /// Render `expr` as [`print_spec`] describes.
    pub fn print(self, expr: &Expr) -> (text: String)
        ensures
            text@ == print_spec(expr@),
    {
        self.visit_expr(expr)
    }

    /// Dispatch on the node kind, as [`print_spec`] does.
    pub fn visit_expr(&self, expr: &Expr) -> (text: String)
        ensures
            text@ == print_spec(expr@),
        decreases expr_height(*expr), 1int,
    {
        match expr {
            Expr::Literal { value } => self.visit_literal(value),
            Expr::Grouping { expression } => self.visit_grouping(expression),
            Expr::Unary { operator, right } => self.visit_unary(operator, right),
            Expr::Binary { left, operator, right } => self.visit_binary(left, operator, right),
            _ => "nil".to_owned(),
        }
    }

    /// A literal renders as its display form.
    pub fn visit_literal(&self, value: &Literal) -> (text: String)
        ensures
            text@ == value@.display(),
    {
        value.display()
    }

    /// A grouping renders as `(group <inner>)`.
    pub fn visit_grouping(&self, expression: &Expr) -> (text: String)
        ensures
            text@ == print_spec(ExprView::Grouping { expression: Box::new(expression@) }),
        decreases expr_height(*expression), 2int,
    {
        let inner = self.visit_expr(expression);
        let mut out = String::new();
        out.append("(group ");
        out.append(inner.as_str());
        out.append(")");
        proof {
            assert(out@ =~= "(group "@ + print_spec(expression@) + ")"@);
        }
        out
    }

    /// A unary operator renders as `(<lexeme> <operand>)`.
    pub fn visit_unary(&self, operator: &Token, right: &Expr) -> (text: String)
        ensures
            text@ == print_spec(
                ExprView::Unary { operator: operator@, right: Box::new(right@) },
            ),
        decreases expr_height(*right), 2int,
    {
        let rendered = self.visit_expr(right);
        let mut out = String::new();
        out.append("(");
        match operator.lexeme {
            Some(lx) => out.append(lx),
            None => {},
        }
        out.append(" ");
        out.append(rendered.as_str());
        out.append(")");
        proof {
            assert(out@ =~= "("@ + lexeme_text(operator@) + " "@ + print_spec(right@) + ")"@);
        }
        out
    }

    /// A binary operator renders as `(<lexeme> <left> <right>)`.
    pub fn visit_binary(&self, left: &Expr, operator: &Token, right: &Expr) -> (text: String)
        ensures
            text@ == print_spec(
                ExprView::Binary {
                    left: Box::new(left@),
                    operator: operator@,
                    right: Box::new(right@),
                },
            ),
        decreases vstd::math::max(expr_height(*left) as int, expr_height(*right) as int), 2int,
    {
        let left_rendered = self.visit_expr(left);
        let right_rendered = self.visit_expr(right);
        let mut out = String::new();
        out.append("(");
        match operator.lexeme {
            Some(lx) => out.append(lx),
            None => {},
        }
        out.append(" ");
        out.append(left_rendered.as_str());
        out.append(" ");
        out.append(right_rendered.as_str());
        out.append(")");
        proof {
            assert(out@ =~= "("@ + lexeme_text(operator@) + " "@ + print_spec(left@) + " "@
                + print_spec(right@) + ")"@);
        }
        out
    }
}

} // verus!
