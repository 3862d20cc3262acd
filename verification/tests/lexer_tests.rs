use lox::lexer::Lexer;
use lox::token::TokenKind;

fn lexed(source: &str) -> Vec<(TokenKind, Option<String>)> {
    Lexer::lex(source)
        .expect("lexing should succeed")
        .iter()
        .map(|token| (token.kind, token.lexeme.map(|lexeme| lexeme.to_owned())))
        .collect()
}

fn expected(pairs: Vec<(TokenKind, Option<&str>)>) -> Vec<(TokenKind, Option<String>)> {
    pairs.into_iter().map(|(kind, lexeme)| (kind, lexeme.map(|s| s.to_owned()))).collect()
}

#[test]
fn empty() {
    assert_eq!(lexed(""), expected(vec![(TokenKind::Eof, None)]));
}

#[test]
fn number() {
    assert_eq!(
        lexed("1 + 1"),
        expected(vec![
            (TokenKind::Number, Some("1")),
            (TokenKind::Plus, Some("+")),
            (TokenKind::Number, Some("1")),
            (TokenKind::Eof, None),
        ])
    );
}

#[test]
fn string() {
    assert_eq!(
        lexed("\"foo\""),
        expected(vec![(TokenKind::StringLiteral, Some("foo")), (TokenKind::Eof, None)])
    );
}

#[test]
fn ident() {
    assert_eq!(
        lexed("var foo = 1;"),
        expected(vec![
            (TokenKind::Var, Some("var")),
            (TokenKind::Identifier, Some("foo")),
            (TokenKind::Equal, Some("=")),
            (TokenKind::Number, Some("1")),
            (TokenKind::Semicolon, Some(";")),
            (TokenKind::Eof, None),
        ])
    );
}

#[test]
fn whitespace() {
    assert_eq!(
        lexed("var \tfoo = \t1;\n print foo;"),
        expected(vec![
            (TokenKind::Var, Some("var")),
            (TokenKind::Identifier, Some("foo")),
            (TokenKind::Equal, Some("=")),
            (TokenKind::Number, Some("1")),
            (TokenKind::Semicolon, Some(";")),
            (TokenKind::Print, Some("print")),
            (TokenKind::Identifier, Some("foo")),
            (TokenKind::Semicolon, Some(";")),
            (TokenKind::Eof, None),
        ])
    );
}

#[test]
fn line_comment() {
    assert_eq!(
        lexed("// var foo = 1;\nprint foo;"),
        expected(vec![
            (TokenKind::Print, Some("print")),
            (TokenKind::Identifier, Some("foo")),
            (TokenKind::Semicolon, Some(";")),
            (TokenKind::Eof, None),
        ])
    );
}

#[test]
fn block_comment() {
    assert_eq!(
        lexed("/*\n var foo = 1;\nprint foo;\n*/\nvar bar = 1;"),
        expected(vec![
            (TokenKind::Var, Some("var")),
            (TokenKind::Identifier, Some("bar")),
            (TokenKind::Equal, Some("=")),
            (TokenKind::Number, Some("1")),
            (TokenKind::Semicolon, Some(";")),
            (TokenKind::Eof, None),
        ])
    );
}

#[test]
fn conditionals() {
    assert_eq!(
        lexed("var foo = 1;\nvar bar = 2;\nif (foo == 1) {\nprint bar;\n} else {\nprint foo;\n}"),
        expected(vec![
            (TokenKind::Var, Some("var")),
            (TokenKind::Identifier, Some("foo")),
            (TokenKind::Equal, Some("=")),
            (TokenKind::Number, Some("1")),
            (TokenKind::Semicolon, Some(";")),
            (TokenKind::Var, Some("var")),
            (TokenKind::Identifier, Some("bar")),
            (TokenKind::Equal, Some("=")),
            (TokenKind::Number, Some("2")),
            (TokenKind::Semicolon, Some(";")),
            (TokenKind::If, Some("if")),
            (TokenKind::ParenL, Some("(")),
            (TokenKind::Identifier, Some("foo")),
            (TokenKind::EqualEqual, Some("==")),
            (TokenKind::Number, Some("1")),
            (TokenKind::ParenR, Some(")")),
            (TokenKind::BraceL, Some("{")),
            (TokenKind::Print, Some("print")),
            (TokenKind::Identifier, Some("bar")),
            (TokenKind::Semicolon, Some(";")),
            (TokenKind::BraceR, Some("}")),
            (TokenKind::Else, Some("else")),
            (TokenKind::BraceL, Some("{")),
            (TokenKind::Print, Some("print")),
            (TokenKind::Identifier, Some("foo")),
            (TokenKind::Semicolon, Some(";")),
            (TokenKind::BraceR, Some("}")),
            (TokenKind::Eof, None),
        ])
    );
}

#[test]
fn functions() {
    assert_eq!(
        lexed(
            "fun add(a, b) {\n return a + b;\n }\n fun main(a, b) {\n return add(a, b);\n }\n print main(2, 2);"
        ),
        expected(vec![
            (TokenKind::Fun, Some("fun")),
            (TokenKind::Identifier, Some("add")),
            (TokenKind::ParenL, Some("(")),
            (TokenKind::Identifier, Some("a")),
            (TokenKind::Comma, Some(",")),
            (TokenKind::Identifier, Some("b")),
            (TokenKind::ParenR, Some(")")),
            (TokenKind::BraceL, Some("{")),
            (TokenKind::Return, Some("return")),
            (TokenKind::Identifier, Some("a")),
            (TokenKind::Plus, Some("+")),
            (TokenKind::Identifier, Some("b")),
            (TokenKind::Semicolon, Some(";")),
            (TokenKind::BraceR, Some("}")),
            (TokenKind::Fun, Some("fun")),
            (TokenKind::Identifier, Some("main")),
            (TokenKind::ParenL, Some("(")),
            (TokenKind::Identifier, Some("a")),
            (TokenKind::Comma, Some(",")),
            (TokenKind::Identifier, Some("b")),
            (TokenKind::ParenR, Some(")")),
            (TokenKind::BraceL, Some("{")),
            (TokenKind::Return, Some("return")),
            (TokenKind::Identifier, Some("add")),
            (TokenKind::ParenL, Some("(")),
            (TokenKind::Identifier, Some("a")),
            (TokenKind::Comma, Some(",")),
            (TokenKind::Identifier, Some("b")),
            (TokenKind::ParenR, Some(")")),
            (TokenKind::Semicolon, Some(";")),
            (TokenKind::BraceR, Some("}")),
            (TokenKind::Print, Some("print")),
            (TokenKind::Identifier, Some("main")),
            (TokenKind::ParenL, Some("(")),
            (TokenKind::Number, Some("2")),
            (TokenKind::Comma, Some(",")),
            (TokenKind::Number, Some("2")),
            (TokenKind::ParenR, Some(")")),
            (TokenKind::Semicolon, Some(";")),
            (TokenKind::Eof, None),
        ])
    );
}

#[test]
fn for_loop() {
    assert_eq!(
        lexed("for (var i = 0; i < 10; i = i + 1) {\n  print \"hello, world!\"\n}"),
        expected(vec![
            (TokenKind::For, Some("for")),
            (TokenKind::ParenL, Some("(")),
            (TokenKind::Var, Some("var")),
            (TokenKind::Identifier, Some("i")),
            (TokenKind::Equal, Some("=")),
            (TokenKind::Number, Some("0")),
            (TokenKind::Semicolon, Some(";")),
            (TokenKind::Identifier, Some("i")),
            (TokenKind::Less, Some("<")),
            (TokenKind::Number, Some("10")),
            (TokenKind::Semicolon, Some(";")),
            (TokenKind::Identifier, Some("i")),
            (TokenKind::Equal, Some("=")),
            (TokenKind::Identifier, Some("i")),
            (TokenKind::Plus, Some("+")),
            (TokenKind::Number, Some("1")),
            (TokenKind::ParenR, Some(")")),
            (TokenKind::BraceL, Some("{")),
            (TokenKind::Print, Some("print")),
            (TokenKind::StringLiteral, Some("hello, world!")),
            (TokenKind::BraceR, Some("}")),
            (TokenKind::Eof, None),
        ])
    );
}

#[test]
fn while_loop() {
    assert_eq!(
        lexed("var foo = 1;\nwhile (foo < 10) {\n  print foo;\n  foo = foo + 1;\n }"),
        expected(vec![
            (TokenKind::Var, Some("var")),
            (TokenKind::Identifier, Some("foo")),
            (TokenKind::Equal, Some("=")),
            (TokenKind::Number, Some("1")),
            (TokenKind::Semicolon, Some(";")),
            (TokenKind::While, Some("while")),
            (TokenKind::ParenL, Some("(")),
            (TokenKind::Identifier, Some("foo")),
            (TokenKind::Less, Some("<")),
            (TokenKind::Number, Some("10")),
            (TokenKind::ParenR, Some(")")),
            (TokenKind::BraceL, Some("{")),
            (TokenKind::Print, Some("print")),
            (TokenKind::Identifier, Some("foo")),
            (TokenKind::Semicolon, Some(";")),
            (TokenKind::Identifier, Some("foo")),
            (TokenKind::Equal, Some("=")),
            (TokenKind::Identifier, Some("foo")),
            (TokenKind::Plus, Some("+")),
            (TokenKind::Number, Some("1")),
            (TokenKind::Semicolon, Some(";")),
            (TokenKind::BraceR, Some("}")),
            (TokenKind::Eof, None),
        ])
    );
}
