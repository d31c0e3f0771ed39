use std::collections::VecDeque;

use aiscript_engine::common::error::AiScriptBasicErrorKind;
use aiscript_engine::common::position::Position;
use aiscript_engine::common::string::Utf16String;
use aiscript_engine::lexer::token::{Token, TokenKind};
use aiscript_engine::lexer::token_stream::{unexpected_token_message, TokenStream};
use aiscript_engine::parser::parser::Parser;

fn at(kind: TokenKind, line: usize, column: usize) -> Token {
    Token { kind, pos: Position { line, column }, has_left_spacing: column > 1 }
}

#[test]
fn unit_kinds_print_their_names() {
    assert_eq!(TokenKind::EOF.debug_text(), "EOF");
    assert_eq!(TokenKind::CloseBrace.debug_text(), "CloseBrace");
    assert_eq!(TokenKind::Colon2.debug_text(), "Colon2");
}

#[test]
fn kinds_with_text_print_the_decoded_text() {
    assert_eq!(TokenKind::Identifier(Utf16String::from("abc")).debug_text(), "Identifier(abc)");
    assert_eq!(TokenKind::NumberLiteral(Utf16String::from("12"), 12.0f64.to_bits()).debug_text(), "NumberLiteral(12)");
    assert_eq!(TokenKind::StringLiteral(Utf16String::from("héllo")).debug_text(), "StringLiteral(héllo)");
    assert_eq!(TokenKind::TemplateStringElement(Utf16String::from("")).debug_text(), "TemplateStringElement()");
}

#[test]
fn positions_and_tokens_print_their_fields() {
    assert_eq!(Position { line: 3, column: 12 }.debug_text(), "Position { line: 3, column: 12 }");
    let t = at(TokenKind::Comma, 1, 5);
    assert_eq!(t.debug_text(), "Token { kind: Comma, pos: Position { line: 1, column: 5 }, has_left_spacing: true }");
}

#[test]
fn templates_print_their_tokens() {
    let empty = TokenKind::Template(Vec::new());
    assert_eq!(empty.debug_text(), "Template([])");
    let mut inner = VecDeque::new();
    inner.push_back(at(TokenKind::Identifier(Utf16String::from("x")), 1, 1));
    inner.push_back(at(TokenKind::Plus, 1, 3));
    let expr = TokenKind::TemplateExprElement(inner);
    assert_eq!(
        expr.debug_text(),
        "TemplateExprElement([Token { kind: Identifier(x), pos: Position { line: 1, column: 1 }, has_left_spacing: false }, \
         Token { kind: Plus, pos: Position { line: 1, column: 3 }, has_left_spacing: true }])"
    );
    let template = TokenKind::Template(vec![at(TokenKind::TemplateStringElement(Utf16String::from("a")), 2, 1)]);
    assert_eq!(
        template.debug_text(),
        "Template([Token { kind: TemplateStringElement(a), pos: Position { line: 2, column: 1 }, has_left_spacing: false }])"
    );
}

#[test]
fn unexpected_message_names_the_kind() {
    assert_eq!(unexpected_token_message(&TokenKind::Identifier(Utf16String::from("abc"))), "unexpected token: Identifier(abc)");
}

#[test]
fn number_where_eq_is_expected() {
    let mut tokens = VecDeque::new();
    tokens.push_back(at(TokenKind::VarKeyword, 1, 1));
    tokens.push_back(at(TokenKind::Identifier(Utf16String::from("x")), 1, 5));
    tokens.push_back(at(TokenKind::NumberLiteral(Utf16String::from("1"), 1.0f64.to_bits()), 1, 7));
    let mut stream = TokenStream::new(tokens);
    let err = Parser::new().parse(&mut stream).unwrap_err();
    assert_eq!(err.kind, AiScriptBasicErrorKind::Syntax);
    assert_eq!(err.message, "unexpected token: NumberLiteral(1)");
    assert_eq!(err.pos, Some(Position { line: 1, column: 7 }));
}
