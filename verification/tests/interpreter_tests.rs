use lox::interpreter::{EvalOutcome, Interpreter, Request};
use lox::lexer::Lexer;
use lox::literal::Literal;
use lox::parser::Parser;
use lox::token::TokenKind;

/// Perform one numeric operation on the operands' decimal texts with
/// machine floats, as the evaluator's caller is expected to.
fn answer(request: Request) -> Literal {
    match request {
        Request::Negate { operand } => {
            let value: f64 = operand.parse().expect("number text should parse");
            Literal::Number((-value).to_string())
        }
        Request::Arith { operator, lhs, rhs } => {
            let l: f64 = lhs.parse().expect("number text should parse");
            let r: f64 = rhs.parse().expect("number text should parse");
            match operator {
                TokenKind::BangEqual => Literal::Boolean(l != r),
                TokenKind::EqualEqual => Literal::Boolean(l == r),
                TokenKind::Greater => Literal::Boolean(l > r),
                TokenKind::GreaterEqual => Literal::Boolean(l >= r),
                TokenKind::Less => Literal::Boolean(l < r),
                TokenKind::LessEqual => Literal::Boolean(l <= r),
                TokenKind::Minus => Literal::Number((l - r).to_string()),
                TokenKind::Plus => Literal::Number((l + r).to_string()),
                TokenKind::Slash => Literal::Number((l / r).to_string()),
                TokenKind::Star => Literal::Number((l * r).to_string()),
                _ => Literal::Nil,
            }
        }
    }
}

/// Run source text through the whole pipeline and return the resulting
/// value, answering every numeric request along the way.
fn eval_source(source: &str) -> Literal {
    let tokens = Lexer::lex(source).expect("lexing should succeed");
    let expr = Parser::parse(tokens).expect("parsing should succeed");
    let interpreter = Interpreter::new();
    let mut answers: Vec<Literal> = Vec::new();
    loop {
        match interpreter.eval(&expr, &answers) {
            EvalOutcome::Done { value } => return value,
            EvalOutcome::Pending { request } => answers.push(answer(request)),
        }
    }
}

/// Render a value the way the original REPL shows it: numbers through
/// the platform's float formatting, everything else by its display form.
fn display(value: &Literal) -> String {
    match value {
        Literal::Number(text) => {
            let parsed: f64 = text.parse().expect("number text should parse");
            parsed.to_string()
        }
        other => other.display(),
    }
}

fn eval_to_string(source: &str) -> String {
    display(&eval_source(source))
}

#[test]
fn arithmetic() {
    assert_eq!(eval_to_string("1 + 1 / 2"), "1.5");
}

#[test]
fn grouping() {
    assert_eq!(eval_to_string("(1 + 1) / 2"), "1");
}

#[test]
fn comparison() {
    assert_eq!(eval_to_string("((2 * 3) / 2) > (8 * 2 * (5 - 2))"), "false");
    assert_eq!(eval_to_string("((2 * 3) / 2) < (8 * 2 * (5 - 2))"), "true");
    assert_eq!(eval_to_string("1 == 1"), "true");
    assert_eq!(eval_to_string("1 != 2"), "true");
    assert_eq!(eval_to_string("1 >= 2"), "false");
    assert_eq!(eval_to_string("1 <= 2"), "true");
    assert_eq!(eval_to_string("\"foo\" == \"foo\""), "true");
}

#[test]
fn string_concatenation() {
    assert_eq!(eval_to_string("\"1\" + \"1\""), "11");
    assert_eq!(eval_to_string("\"foo\" + \"bar\""), "foobar");
}

#[test]
fn precedence_follows_ieee_arithmetic() {
    assert_eq!(eval_to_string("2 * 3 + 1"), "7");
    assert_eq!(eval_to_string("1 + 2 * 3"), "7");
    assert_eq!(eval_to_string("10 - 4 - 3"), "3");
    assert_eq!(eval_to_string("0.1 + 0.2"), (0.1f64 + 0.2f64).to_string());
    assert_eq!(eval_to_string("1 / 0"), "inf");
}

#[test]
fn string_ordering() {
    assert_eq!(eval_to_string("\"abc\" < \"abd\""), "true");
    assert_eq!(eval_to_string("\"abc\" >= \"abd\""), "false");
    assert_eq!(eval_to_string("\"ab\" < \"abc\""), "true");
    assert_eq!(eval_to_string("\"a\" != \"b\""), "true");
}

#[test]
fn unary_negation() {
    assert_eq!(eval_source("-5"), Literal::Number("-5".to_string()));
    assert_eq!(eval_to_string("-5"), "-5");
    assert_eq!(eval_to_string("--5"), "5");
}

#[test]
fn logical_not() {
    // The literal `true` currently parses to the boolean value `false`,
    // so `!true` evaluates to true and `!false` does too.
    assert_eq!(eval_source("!false"), Literal::Boolean(true));
    assert_eq!(eval_source("!true"), Literal::Boolean(true));
    assert_eq!(eval_source("!!false"), Literal::Boolean(false));
}

#[test]
fn undefined_combinations_yield_nil() {
    assert_eq!(eval_source("\"a\" - 1"), Literal::Nil);
    assert_eq!(eval_source("\"a\" - \"b\""), Literal::Nil);
    assert_eq!(eval_source("-\"a\""), Literal::Nil);
    assert_eq!(eval_source("!5"), Literal::Nil);
    assert_eq!(eval_source("nil"), Literal::Nil);
    assert_eq!(eval_to_string("nil"), "nil");
}
