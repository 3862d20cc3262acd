use lox::error::Error;
use lox::expr::Expr;
use lox::interpreter::{EvalOutcome, Interpreter};
use lox::lexer::Lexer;
use lox::literal::Literal;
use lox::parser::Parser;
use lox::position::Position;
use lox::printer::Printer;
use lox::strip::strip_comments_and_pad_whitespace;
use lox::token::{Token, TokenKind};

#[test]
fn line_tracking() {
    let tokens = Lexer::lex("var foo = 1;\n print foo;").expect("lexing should succeed");
    // Five tokens before the newline are tagged line 1, the rest line 2.
    assert_eq!(tokens.len(), 9);
    for token in &tokens[..5] {
        assert_eq!(token.position.line, 1);
    }
    for token in &tokens[5..] {
        assert_eq!(token.position.line, 2);
    }
}

#[test]
fn token_positions_are_ordered() {
    let tokens = Lexer::lex("1 + 23 * (4)").expect("lexing should succeed");
    for pair in tokens.windows(2) {
        assert!(pair[0].position.start <= pair[1].position.start);
        assert!(pair[0].position.line <= pair[1].position.line);
    }
}

fn kinds_and_lexemes(tokens: &[Token]) -> Vec<(TokenKind, Option<String>)> {
    tokens.iter().map(|t| (t.kind, t.lexeme.map(|l| l.to_owned()))).collect()
}

#[test]
fn stripping_comments_is_transparent() {
    let sources = [
        "var a = 1; // trailing note\nprint a;",
        "/* leading\ncomment */ 1 + 2 // end",
        "\"str // not a comment\" + \"/* nor this */\"",
        "a/*x*/b",
        "1//",
        "// only a comment",
        "-123 * (45.67) /* tail */",
    ];
    for source in sources {
        let stripped = strip_comments_and_pad_whitespace(source);
        let direct = Lexer::lex(source).expect("lexing should succeed");
        let padded = Lexer::lex(&stripped).expect("lexing the stripped text should succeed");
        assert_eq!(kinds_and_lexemes(&direct), kinds_and_lexemes(&padded), "source: {source:?}");
    }
}

#[test]
fn stripped_text_keeps_length_and_code() {
    let stripped = strip_comments_and_pad_whitespace("a/*x*/b // c");
    assert_eq!(stripped, "a     b     ");
}

#[test]
fn malformed_input_fails_closed() {
    let unterminated = Lexer::lex("\"unterminated");
    match unterminated {
        Err(Error::Lexer { message }) => assert_eq!(message, "Unterminated string."),
        other => panic!("expected a lexer error, got {other:?}"),
    }

    let unterminated_block = Lexer::lex("/* no end");
    match unterminated_block {
        Err(Error::Lexer { message }) => assert_eq!(message, "Unterminated block comment."),
        other => panic!("expected a lexer error, got {other:?}"),
    }

    let tokens = Lexer::lex("(1 + 1").expect("lexing should succeed");
    match Parser::parse(tokens) {
        Err(Error::Parser { message }) => assert_eq!(message, "Expected closing )"),
        other => panic!("expected a parser error, got {other:?}"),
    }

    let tokens = Lexer::lex(")").expect("lexing should succeed");
    match Parser::parse(tokens) {
        Err(Error::Parser { message }) => assert_eq!(message, "Invalid expression"),
        other => panic!("expected a parser error, got {other:?}"),
    }
}

#[test]
fn unexpected_character_is_reported() {
    // The message embeds the offending character itself; a lexer that
    // dropped or replaced it would fail this.
    match Lexer::lex("@") {
        Err(e @ Error::Lexer { .. }) => {
            assert_eq!(e.display(), "Lexer Error: Unexpected character: @.");
        }
        other => panic!("expected a lexer error, got {other:?}"),
    }
    match Lexer::lex("1 + #") {
        Err(Error::Lexer { message }) => assert_eq!(message, "Unexpected character: #."),
        other => panic!("expected a lexer error, got {other:?}"),
    }
}

#[test]
fn error_display_names_the_stage() {
    let e = Error::Parser { message: "Invalid expression".to_owned() };
    assert_eq!(e.display(), "Parser Error: Invalid expression");
}

#[test]
fn printer_exposes_parser_structure() {
    let tokens = Lexer::lex("-123 * (45.67)").expect("lexing should succeed");
    let expr = Parser::parse(tokens).expect("parsing should succeed");
    assert_eq!(Printer::new().print(&expr), "(* (- 123) (group 45.67))");

    let tokens = Lexer::lex("1 + 2 + 3").expect("lexing should succeed");
    let expr = Parser::parse(tokens).expect("parsing should succeed");
    assert_eq!(Printer::new().print(&expr), "(+ (+ 1 2) 3)");

    let tokens = Lexer::lex("\"a\" + \"b\"").expect("lexing should succeed");
    let expr = Parser::parse(tokens).expect("parsing should succeed");
    assert_eq!(Printer::new().print(&expr), "(+ a b)");
}

#[test]
fn reserved_node_kinds_evaluate_and_print_as_nil() {
    let name = Token {
        kind: TokenKind::Identifier,
        lexeme: Some("x"),
        position: Position { start: 0, current: 1, line: 1 },
    };
    let expr = Expr::Variable { name };
    match Interpreter::new().eval(&expr, &Vec::new()) {
        EvalOutcome::Done { value } => assert_eq!(value, Literal::Nil),
        other => panic!("expected a value, got {other:?}"),
    }
    assert_eq!(Printer::new().print(&expr), "nil");
}

#[test]
fn literal_display_forms() {
    assert_eq!(Literal::Boolean(true).display(), "true");
    assert_eq!(Literal::Boolean(false).display(), "false");
    assert_eq!(Literal::Nil.display(), "nil");
    assert_eq!(Literal::Number("45.67".to_owned()).display(), "45.67");
    assert_eq!(Literal::Str("foo".to_owned()).display(), "foo");
}

#[test]
fn trailing_tokens_are_ignored() {
    let tokens = Lexer::lex("1 + 1 2").expect("lexing should succeed");
    let expr = Parser::parse(tokens).expect("parsing should succeed");
    assert_eq!(Printer::new().print(&expr), "(+ 1 1)");
}

#[test]
fn parser_sync_stops_at_statement_boundaries() {
    let tokens = Lexer::lex("1 2 ; var x").expect("lexing should succeed");
    let mut parser = Parser::new(tokens);
    parser.sync();
    // sync advanced past `1 2 ;` and stopped just after the semicolon.
    assert_eq!(parser.peek().kind, TokenKind::Var);
}
