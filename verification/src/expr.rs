//! The expression tree.
//!
//! [`Expr`] is the closed set of node kinds, each owning its children by
//! value.  The parser currently produces only `Literal`, `Grouping`, `Unary`
//! and `Binary` nodes; the remaining kinds are reserved for statement-level
//! constructs that have no semantics yet — the evaluator reduces any of them
//! to nil and the printer renders them as nil, a documented placeholder
//! behaviour rather than an error.

use crate::literal::{Literal, LiteralView};
use crate::token::{Token, TokenView};
use vstd::prelude::*;

verus! {

/// One node of the expression tree.  Children are owned exclusively; there
/// is no sharing and there are no cycles.
#[derive(Debug)]
#[allow(inconsistent_fields)]
pub enum Expr<'src> {
    Assign { name: Token<'src>, value: Box<Expr<'src>> },
    Binary { left: Box<Expr<'src>>, operator: Token<'src>, right: Box<Expr<'src>> },
    Call { callee: Box<Expr<'src>>, paren: Token<'src>, arguments: Vec<Box<Expr<'src>>> },
    Get { object: Box<Expr<'src>>, name: Token<'src> },
    Grouping { expression: Box<Expr<'src>> },
    Literal { value: Literal },
    Logical { left: Box<Expr<'src>>, operator: Token<'src>, right: Box<Expr<'src>> },
    SetProp { object: Box<Expr<'src>>, name: Token<'src>, value: Box<Expr<'src>> },
    Super { keyword: Token<'src>, method: Token<'src> },
    This { keyword: Token<'src> },
    Unary { operator: Token<'src>, right: Box<Expr<'src>> },
    Variable { name: Token<'src> },
}

/// Mathematical image of an [`Expr`]: the same tree over [`TokenView`] and
/// [`LiteralView`] leaves.
#[allow(inconsistent_fields)]
pub enum ExprView {
    Assign { name: TokenView, value: Box<ExprView> },
    Binary { left: Box<ExprView>, operator: TokenView, right: Box<ExprView> },
    Call { callee: Box<ExprView>, paren: TokenView, arguments: Seq<ExprView> },
    Get { object: Box<ExprView>, name: TokenView },
    Grouping { expression: Box<ExprView> },
    Literal { value: LiteralView },
    Logical { left: Box<ExprView>, operator: TokenView, right: Box<ExprView> },
    SetProp { object: Box<ExprView>, name: TokenView, value: Box<ExprView> },
    Super { keyword: TokenView, method: TokenView },
    This { keyword: TokenView },
    Unary { operator: TokenView, right: Box<ExprView> },
    Variable { name: TokenView },
}

/// The view of one expression node, defined mutually with [`exprs_view`]
/// for the argument list of a `Call` node.
pub open spec fn expr_view(e: Expr) -> ExprView
    decreases e,
{
    match e {
        Expr::Assign { name, value } => ExprView::Assign {
            name: name@,
            value: Box::new(expr_view(*value)),
        },
        Expr::Binary { left, operator, right } => ExprView::Binary {
            left: Box::new(expr_view(*left)),
            operator: operator@,
            right: Box::new(expr_view(*right)),
        },
        Expr::Call { callee, paren, arguments } => ExprView::Call {
            callee: Box::new(expr_view(*callee)),
            paren: paren@,
            arguments: exprs_view(arguments@),
        },
        Expr::Get { object, name } => ExprView::Get {
            object: Box::new(expr_view(*object)),
            name: name@,
        },
        Expr::Grouping { expression } => ExprView::Grouping {
            expression: Box::new(expr_view(*expression)),
        },
        Expr::Literal { value } => ExprView::Literal { value: value@ },
        Expr::Logical { left, operator, right } => ExprView::Logical {
            left: Box::new(expr_view(*left)),
            operator: operator@,
            right: Box::new(expr_view(*right)),
        },
        Expr::SetProp { object, name, value } => ExprView::SetProp {
            object: Box::new(expr_view(*object)),
            name: name@,
            value: Box::new(expr_view(*value)),
        },
        Expr::Super { keyword, method } => ExprView::Super { keyword: keyword@, method: method@ },
        Expr::This { keyword } => ExprView::This { keyword: keyword@ },
        Expr::Unary { operator, right } => ExprView::Unary {
            operator: operator@,
            right: Box::new(expr_view(*right)),
        },
        Expr::Variable { name } => ExprView::Variable { name: name@ },
    }
}

/// The views of a list of argument expressions, in order.
pub open spec fn exprs_view(es: Seq<Box<Expr>>) -> Seq<ExprView>
    decreases es,
{
    if es.len() == 0 {
        Seq::empty()
    } else {
        exprs_view(es.drop_last()).push(expr_view(*es.last()))
    }
}

/// The nesting depth of the node kinds the evaluator and the printer
/// recurse into; the reserved kinds are leaves to both.
pub open spec fn expr_height(e: Expr) -> nat
    decreases e,
{
    match e {
        Expr::Grouping { expression } => 1 + expr_height(*expression),
        Expr::Unary { right, .. } => 1 + expr_height(*right),
        Expr::Binary { left, right, .. } => 1 + if expr_height(*left) >= expr_height(*right) {
            expr_height(*left)
        } else {
            expr_height(*right)
        },
        _ => 0,
    }
}

impl<'src> View for Expr<'src> {
    type V = ExprView;

    open spec fn view(&self) -> ExprView {
        expr_view(*self)
    }
}

} // verus!
