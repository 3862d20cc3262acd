//! The evaluator.
//!
//! A tree-walking interpreter that reduces an expression to a runtime
//! value and never fails: an operand/operator combination with no rule
//! yields nil.  Only `Literal`, `Grouping`, `Unary` and `Binary` nodes have
//! rules; the reserved node kinds evaluate to nil.  The literal `true`
//! parses to the boolean value `false` in the current grammar (see
//! [`crate::parser`]), so boolean evaluation only ever sees what the
//! parser actually produces.
//!
//! Numbers are IEEE double-precision floats, and verified code never
//! computes with them.  Instead the evaluator is driven through an
//! explicit protocol: [`Interpreter::eval`] either finishes, or suspends
//! with a [`Request`] naming one numeric operation on the operands'
//! decimal texts.  The caller performs the operation with machine floats,
//! appends the answer — a [`Literal`] — to the answer vector and calls
//! again; evaluation re-runs from the start and consumes the answers in
//! order.  [`eval_spec`] fixes the result for every answer sequence, so
//! the dispatch, the evaluation order and everything non-numeric is
//! verified for whatever the caller answers.

use crate::expr::{expr_height, Expr, ExprView};
use crate::literal::{chars_lt, str_eq, str_lt, Literal, LiteralView};
use crate::token::{Token, TokenKind, TokenView};
use vstd::prelude::*;
use vstd::string::StringExecFns;

verus! {

// ---------------------------------------------------------------------------
// Requests and outcomes.
// ---------------------------------------------------------------------------

/// One numeric operation the evaluator needs an answer to: negating a
/// number, or applying a binary operator to two numbers, all given by
/// their decimal texts.
#[derive(Debug, PartialEq, Eq)]
pub enum Request {
    Negate { operand: String },
    Arith { operator: TokenKind, lhs: String, rhs: String },
}

/// Mathematical image of a [`Request`].
pub enum RequestView {
    Negate { operand: Seq<char> },
    Arith { operator: TokenKind, lhs: Seq<char>, rhs: Seq<char> },
}

impl View for Request {
    type V = RequestView;

    open spec fn view(&self) -> RequestView {
        match self {
            Request::Negate { operand } => RequestView::Negate { operand: operand@ },
            Request::Arith { operator, lhs, rhs } => RequestView::Arith {
                operator: *operator,
                lhs: lhs@,
                rhs: rhs@,
            },
        }
    }
}

/// How one round of evaluation ended: with the final value, or suspended
/// on the first numeric operation the given answers do not cover.
#[derive(Debug, PartialEq, Eq)]
pub enum EvalOutcome {
    Done { value: Literal },
    Pending { request: Request },
}

/// An intermediate evaluation state: a value together with the count of
/// answers consumed so far, or a suspension on a request.
#[derive(Debug, PartialEq, Eq)]
pub enum Step {
    Value(Literal, usize),
    Suspend(Request),
}

// ---------------------------------------------------------------------------
// The evaluation model.
// ---------------------------------------------------------------------------

/// Mathematical image of an evaluation state.
pub enum EvalView {
    Done { value: LiteralView, next: int },
    Pending { request: RequestView },
}

/// The views of an answer vector.
pub open spec fn literal_views(ls: Seq<Literal>) -> Seq<LiteralView> {
    ls.map(|i: int, l: Literal| l@)
}

/// The operators defined on a pair of numbers.
pub open spec fn is_numeric_op(op: TokenKind) -> bool {
    ||| op == TokenKind::BangEqual
    ||| op == TokenKind::EqualEqual
    ||| op == TokenKind::Greater
    ||| op == TokenKind::GreaterEqual
    ||| op == TokenKind::Less
    ||| op == TokenKind::LessEqual
    ||| op == TokenKind::Minus
    ||| op == TokenKind::Plus
    ||| op == TokenKind::Slash
    ||| op == TokenKind::Star
}

/// Consult the answer sequence: the next answer if one is left, else a
/// suspension on `request`.
pub open spec fn oracle(request: RequestView, ans: Seq<LiteralView>, j: int) -> EvalView {
    if 0 <= j < ans.len() {
        EvalView::Done { value: ans[j], next: j + 1 }
    } else {
        EvalView::Pending { request }
    }
}

/// What a unary operator yields on an evaluated operand: negating a
/// number asks the oracle; `!` on a boolean is decided here; anything
/// else is nil.
pub open spec fn apply_unary(
    op: TokenKind,
    v: LiteralView,
    ans: Seq<LiteralView>,
    j: int,
) -> EvalView {
    match v {
        LiteralView::Number(n) => if op == TokenKind::Minus {
            oracle(RequestView::Negate { operand: n }, ans, j)
        } else {
            EvalView::Done { value: LiteralView::Nil, next: j }
        },
        LiteralView::Boolean(b) => if op == TokenKind::Bang {
            EvalView::Done { value: LiteralView::Boolean(!b), next: j }
        } else {
            EvalView::Done { value: LiteralView::Nil, next: j }
        },
        _ => EvalView::Done { value: LiteralView::Nil, next: j },
    }
}

/// What a binary operator yields on two evaluated operands, dispatching
/// on the pair of runtime kinds together with the operator: two numbers
/// ask the oracle; two strings compare lexicographically or concatenate
/// under `+`; every other combination is nil.
pub open spec fn apply_binary(
    l: LiteralView,
    op: TokenKind,
    r: LiteralView,
    ans: Seq<LiteralView>,
    k: int,
) -> EvalView {
    match (l, r) {
        (LiteralView::Number(a), LiteralView::Number(b)) => if is_numeric_op(op) {
            oracle(RequestView::Arith { operator: op, lhs: a, rhs: b }, ans, k)
        } else {
            EvalView::Done { value: LiteralView::Nil, next: k }
        },
        (LiteralView::Str(a), LiteralView::Str(b)) => EvalView::Done {
            value: match op {
                TokenKind::BangEqual => LiteralView::Boolean(a != b),
                TokenKind::EqualEqual => LiteralView::Boolean(a == b),
                TokenKind::Greater => LiteralView::Boolean(chars_lt(b, a)),
                TokenKind::GreaterEqual => LiteralView::Boolean(!chars_lt(a, b)),
                TokenKind::Less => LiteralView::Boolean(chars_lt(a, b)),
                TokenKind::LessEqual => LiteralView::Boolean(!chars_lt(b, a)),
                TokenKind::Plus => LiteralView::Str(a + b),
                _ => LiteralView::Nil,
            },
            next: k,
        },
        _ => EvalView::Done { value: LiteralView::Nil, next: k },
    }
}

/// Evaluation of `e` with the answer sequence `ans`, the next answer
/// being `ans[i]`: operands evaluate left before right, numeric
/// operations consume answers in order, and the first uncovered numeric
/// operation suspends the whole evaluation.
pub open spec fn eval_spec(e: ExprView, ans: Seq<LiteralView>, i: int) -> EvalView
    decreases e,
{
    match e {
        ExprView::Literal { value } => EvalView::Done { value, next: i },
        ExprView::Grouping { expression } => eval_spec(*expression, ans, i),
        ExprView::Unary { operator, right } => match eval_spec(*right, ans, i) {
            EvalView::Done { value: rv, next: j } => apply_unary(operator.kind, rv, ans, j),
            EvalView::Pending { request } => EvalView::Pending { request },
        },
        ExprView::Binary { left, operator, right } => match eval_spec(*left, ans, i) {
            EvalView::Done { value: lv, next: j } => match eval_spec(*right, ans, j) {
                EvalView::Done { value: rv, next: k } => apply_binary(lv, operator.kind, rv, ans, k),
                EvalView::Pending { request } => EvalView::Pending { request },
            },
            EvalView::Pending { request } => EvalView::Pending { request },
        },
        _ => EvalView::Done { value: LiteralView::Nil, next: i },
    }
}

// ---------------------------------------------------------------------------
// The interpreter.
// ---------------------------------------------------------------------------

/// The tree-walking evaluator.  It is stateless: every call is
/// independent and repeatable.
#[derive(Debug, Clone)]
pub struct Interpreter;

impl Interpreter {
    /// A new evaluator.
    pub fn new() -> (interpreter: Self) {
        Self
    }

    /// Evaluate `expr` with the answers gathered so far.  The result is
    /// exactly what [`eval_spec`] yields: the final value, or the first
    /// numeric request the answers do not cover.  To run an expression to
    /// completion, answer each pending request in turn and call again
    /// with the answer appended.
    pub fn eval(&self, expr: &Expr, answers: &Vec<Literal>) -> (outcome: EvalOutcome)
        ensures
            match eval_spec(expr@, literal_views(answers@), 0) {
                EvalView::Done { value, next } => outcome matches EvalOutcome::Done {
                    value: v,
                } && v@ == value,
                EvalView::Pending { request } => outcome matches EvalOutcome::Pending {
                    request: req,
                } && req@ == request,
            },
    {
        match self.visit_expr(expr, answers, 0) {
            Step::Value(v, _) => EvalOutcome::Done { value: v },
            Step::Suspend(request) => EvalOutcome::Pending { request },
        }
    }

    /// Dispatch on the node kind, as [`eval_spec`] does.
    pub fn visit_expr(&self, expr: &Expr, answers: &Vec<Literal>, used: usize) -> (s: Step)
        ensures
            step_matches(s, eval_spec(expr@, literal_views(answers@), used as int)),
        decreases expr_height(*expr), 1int,
    {
        match expr {
            Expr::Literal { value } => Step::Value(self.visit_literal(value), used),
            Expr::Grouping { expression } => self.visit_grouping(expression, answers, used),
            Expr::Unary { operator, right } => self.visit_unary(operator, right, answers, used),
            Expr::Binary { left, operator, right } => self.visit_binary(
                left,
                operator,
                right,
                answers,
                used,
            ),
            _ => Step::Value(Literal::Nil, used),
        }
    }

    /// A literal evaluates to its value, unchanged.
    pub fn visit_literal(&self, value: &Literal) -> (v: Literal)
        ensures
            v@ == value@,
    {
        value.clone()
    }

    /// A grouping evaluates to its inner expression's value.
    pub fn visit_grouping(&self, expression: &Expr, answers: &Vec<Literal>, used: usize) -> (s: Step)
        ensures
            step_matches(s, eval_spec(expression@, literal_views(answers@), used as int)),
        decreases expr_height(*expression), 2int,
    {
        self.visit_expr(expression, answers, used)
    }

    /// Evaluate the operand, then apply the unary operator: `-` on a
    /// number asks the caller, `!` on a boolean negates it, anything
    /// else is nil.
    pub fn visit_unary(
        &self,
        operator: &Token,
        right: &Expr,
        answers: &Vec<Literal>,
        used: usize,
    ) -> (s: Step)
        ensures
            step_matches(
                s,
                eval_spec(
                    ExprView::Unary { operator: operator@, right: Box::new(right@) },
                    literal_views(answers@),
                    used as int,
                ),
            ),
        decreases expr_height(*right), 2int,
    {
        let (value, next) = match self.visit_expr(right, answers, used) {
            Step::Value(v, j) => (v, j),
            Step::Suspend(request) => {
                return Step::Suspend(request);
            },
        };
        match (operator.kind, value) {
            (TokenKind::Minus, Literal::Number(n)) => take_answer(
                answers,
                next,
                Request::Negate { operand: n },
            ),
            (TokenKind::Bang, Literal::Boolean(b)) => Step::Value(Literal::Boolean(!b), next),
            _ => Step::Value(Literal::Nil, next),
        }
    }

    /// Evaluate both operands, left before right, then dispatch on their
    /// runtime kinds together with the operator: two numbers ask the
    /// caller, two strings compare or concatenate here, anything else is
    /// nil.
    pub fn visit_binary(
        &self,
        left: &Expr,
        operator: &Token,
        right: &Expr,
        answers: &Vec<Literal>,
        used: usize,
    ) -> (s: Step)
        ensures
            step_matches(
                s,
                eval_spec(
                    ExprView::Binary {
                        left: Box::new(left@),
                        operator: operator@,
                        right: Box::new(right@),
                    },
                    literal_views(answers@),
                    used as int,
                ),
            ),
        decreases vstd::math::max(expr_height(*left) as int, expr_height(*right) as int), 2int,
    {
        let (left_value, after_left) = match self.visit_expr(left, answers, used) {
            Step::Value(v, j) => (v, j),
            Step::Suspend(request) => {
                return Step::Suspend(request);
            },
        };
        let (right_value, next) = match self.visit_expr(right, answers, after_left) {
            Step::Value(v, k) => (v, k),
            Step::Suspend(request) => {
                return Step::Suspend(request);
            },
        };
        match (left_value, operator.kind, right_value) {
            (Literal::Number(l), op, Literal::Number(r)) => {
                if is_numeric_kind(op) {
                    take_answer(answers, next, Request::Arith { operator: op, lhs: l, rhs: r })
                } else {
                    Step::Value(Literal::Nil, next)
                }
            },
            (Literal::Str(l), TokenKind::BangEqual, Literal::Str(r)) => Step::Value(
                Literal::Boolean(!str_eq(l.as_str(), r.as_str())),
                next,
            ),
            (Literal::Str(l), TokenKind::EqualEqual, Literal::Str(r)) => Step::Value(
                Literal::Boolean(str_eq(l.as_str(), r.as_str())),
                next,
            ),
            (Literal::Str(l), TokenKind::Greater, Literal::Str(r)) => Step::Value(
                Literal::Boolean(str_lt(r.as_str(), l.as_str())),
                next,
            ),
            (Literal::Str(l), TokenKind::GreaterEqual, Literal::Str(r)) => Step::Value(
                Literal::Boolean(!str_lt(l.as_str(), r.as_str())),
                next,
            ),
            (Literal::Str(l), TokenKind::Less, Literal::Str(r)) => Step::Value(
                Literal::Boolean(str_lt(l.as_str(), r.as_str())),
                next,
            ),
            (Literal::Str(l), TokenKind::LessEqual, Literal::Str(r)) => Step::Value(
                Literal::Boolean(!str_lt(r.as_str(), l.as_str())),
                next,
            ),
            (Literal::Str(l), TokenKind::Plus, Literal::Str(r)) => Step::Value(
                Literal::Str(l.concat(r.as_str())),
                next,
            ),
            _ => Step::Value(Literal::Nil, next),
        }
    }
}

/// Whether a step agrees with the model's verdict.
pub open spec fn step_matches(s: Step, v: EvalView) -> bool {
    match v {
        EvalView::Done { value, next } => s matches Step::Value(lit, j) && lit@ == value && j
            == next,
        EvalView::Pending { request } => s matches Step::Suspend(req) && req@ == request,
    }
}

/// Decide [`is_numeric_op`].
fn is_numeric_kind(op: TokenKind) -> (r: bool)
    ensures
        r == is_numeric_op(op),
{
    match op {
        TokenKind::BangEqual => true,
        TokenKind::EqualEqual => true,
        TokenKind::Greater => true,
        TokenKind::GreaterEqual => true,
        TokenKind::Less => true,
        TokenKind::LessEqual => true,
        TokenKind::Minus => true,
        TokenKind::Plus => true,
        TokenKind::Slash => true,
        TokenKind::Star => true,
        _ => false,
    }
}

/// Take the next answer if one is left, else suspend on `request`.
fn take_answer(answers: &Vec<Literal>, used: usize, request: Request) -> (s: Step)
    ensures
        step_matches(s, oracle(request@, literal_views(answers@), used as int)),
{
    if used < answers.len() {
        Step::Value(answers[used].clone(), used + 1)
    } else {
        Step::Suspend(request)
    }
}

// ---------------------------------------------------------------------------
// Laws of evaluation.
// ---------------------------------------------------------------------------

/// How many numeric operations an expression can at most ask about: one
/// per unary or binary node.
pub open spec fn op_count(e: ExprView) -> nat
    decreases e,
{
    match e {
        ExprView::Grouping { expression } => op_count(*expression),
        ExprView::Unary { right, .. } => 1 + op_count(*right),
        ExprView::Binary { left, right, .. } => 1 + op_count(*left) + op_count(*right),
        _ => 0,
    }
}

/// The request protocol terminates: a finished evaluation consumed at
/// most one answer per operator node, in order; a suspended one had
/// already consumed every answer it was given, strictly fewer than the
/// expression has operator nodes.  A caller that answers each pending
/// request in turn therefore reaches a value after at most
/// [`op_count`]-many rounds.
pub proof fn lemma_eval_requests_bounded(e: ExprView, ans: Seq<LiteralView>, i: int)
    requires
        0 <= i <= ans.len(),
    ensures
        eval_spec(e, ans, i) matches EvalView::Done { value, next } ==> i <= next <= ans.len()
            && next - i <= op_count(e),
        eval_spec(e, ans, i) is Pending ==> ans.len() - i < op_count(e),
    decreases e,
{
    match e {
        ExprView::Grouping { expression } => {
            lemma_eval_requests_bounded(*expression, ans, i);
        },
        ExprView::Unary { operator, right } => {
            lemma_eval_requests_bounded(*right, ans, i);
        },
        ExprView::Binary { left, operator, right } => {
            lemma_eval_requests_bounded(*left, ans, i);
            match eval_spec(*left, ans, i) {
                EvalView::Done { value: lv, next: j } => {
                    lemma_eval_requests_bounded(*right, ans, j);
                },
                EvalView::Pending { request } => {},
            }
        },
        _ => {},
    }
}


/// Concatenation: a `+` whose operands evaluate to strings evaluates to
/// their concatenation, consuming no answer of its own.
pub proof fn lemma_eval_string_concatenation(
    l: ExprView,
    op: TokenView,
    r: ExprView,
    ans: Seq<LiteralView>,
    i: int,
    a: Seq<char>,
    b: Seq<char>,
    j: int,
    k: int,
)
    requires
        op.kind == TokenKind::Plus,
        eval_spec(l, ans, i) == (EvalView::Done { value: LiteralView::Str(a), next: j }),
        eval_spec(r, ans, j) == (EvalView::Done { value: LiteralView::Str(b), next: k }),
    ensures
        eval_spec(
            ExprView::Binary { left: Box::new(l), operator: op, right: Box::new(r) },
            ans,
            i,
        ) == (EvalView::Done { value: LiteralView::Str(a + b), next: k }),
{
}

/// Comparison on strings: each ordering operator on two string operands
/// produces a boolean, and the boolean respects lexicographic order.
pub proof fn lemma_eval_string_comparison(
    l: ExprView,
    op: TokenView,
    r: ExprView,
    ans: Seq<LiteralView>,
    i: int,
    a: Seq<char>,
    b: Seq<char>,
    j: int,
    k: int,
)
    requires
        eval_spec(l, ans, i) == (EvalView::Done { value: LiteralView::Str(a), next: j }),
        eval_spec(r, ans, j) == (EvalView::Done { value: LiteralView::Str(b), next: k }),
    ensures
        ({
            let out = eval_spec(
                ExprView::Binary { left: Box::new(l), operator: op, right: Box::new(r) },
                ans,
                i,
            );
            &&& op.kind == TokenKind::EqualEqual ==> out == (EvalView::Done {
                value: LiteralView::Boolean(a == b),
                next: k,
            })
            &&& op.kind == TokenKind::BangEqual ==> out == (EvalView::Done {
                value: LiteralView::Boolean(a != b),
                next: k,
            })
            &&& op.kind == TokenKind::Less ==> out == (EvalView::Done {
                value: LiteralView::Boolean(chars_lt(a, b)),
                next: k,
            })
            &&& op.kind == TokenKind::LessEqual ==> out == (EvalView::Done {
                value: LiteralView::Boolean(!chars_lt(b, a)),
                next: k,
            })
            &&& op.kind == TokenKind::Greater ==> out == (EvalView::Done {
                value: LiteralView::Boolean(chars_lt(b, a)),
                next: k,
            })
            &&& op.kind == TokenKind::GreaterEqual ==> out == (EvalView::Done {
                value: LiteralView::Boolean(!chars_lt(a, b)),
                next: k,
            })
        }),
{
}

/// Logical not: `!` on an operand that evaluates to a boolean negates
/// it, consuming no answer of its own.
pub proof fn lemma_eval_logical_not(
    op: TokenView,
    r: ExprView,
    ans: Seq<LiteralView>,
    i: int,
    b: bool,
    j: int,
)
    requires
        op.kind == TokenKind::Bang,
        eval_spec(r, ans, i) == (EvalView::Done { value: LiteralView::Boolean(b), next: j }),
    ensures
        eval_spec(ExprView::Unary { operator: op, right: Box::new(r) }, ans, i) == (EvalView::Done {
            value: LiteralView::Boolean(!b),
            next: j,
        }),
{
}

/// Negation of a number defers to the caller: `-` on an operand that
/// evaluates to a number consumes exactly the next answer and yields it,
/// whatever it is; with no answer left it suspends on the negation
/// request for that operand's text.
pub proof fn lemma_eval_negate_requests(
    op: TokenView,
    r: ExprView,
    ans: Seq<LiteralView>,
    i: int,
    n: Seq<char>,
    j: int,
)
    requires
        op.kind == TokenKind::Minus,
        eval_spec(r, ans, i) == (EvalView::Done { value: LiteralView::Number(n), next: j }),
    ensures
        0 <= j < ans.len() ==> eval_spec(ExprView::Unary { operator: op, right: Box::new(r) }, ans, i)
            == (EvalView::Done { value: ans[j], next: j + 1 }),
        !(0 <= j < ans.len()) ==> eval_spec(
            ExprView::Unary { operator: op, right: Box::new(r) },
            ans,
            i,
        ) == (EvalView::Pending { request: RequestView::Negate { operand: n } }),
{
}

} // verus!
