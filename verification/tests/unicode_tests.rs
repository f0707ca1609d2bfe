use protorun::chars::{alphabetic, alphanumeric, is_whitespace};
use protorun::ast::{Expr, Span};
use protorun::lexer::{Lexer, TokenKind};
use protorun::error::ErrorKind;
use protorun::parser::common::{to_syntax_error, Expected, ParseFailure, ParserContext};
use protorun::parser::Parser;

#[test]
fn error_span_counts_characters() {
    // The failure is at the byte of `x`, after `あ`, a line feed and `い`.
    let input = "あ\nいx";
    let failure = ParseFailure { fatal: true, pos: 7, expected: Expected::Keyword };
    let err = to_syntax_error(input, failure, None);
    assert_eq!(err.kind, ErrorKind::Syntax("期待されるキーワードが見つかりません: 'x'".to_string()));
    assert_eq!(err.span, Some(Span { start: 3, end: 4, line: 2, column: 2 }));
}

#[test]
fn syntax_error_span_is_the_failure_position() {
    let input = "let x = ;";
    let failure = ParseFailure { fatal: false, pos: 8, expected: Expected::Char(59) };
    let err = to_syntax_error(input, failure, None);
    assert_eq!(err.kind, ErrorKind::Syntax("期待される文字が見つかりません: ';'".to_string()));
    assert_eq!(err.span, Some(Span { start: 8, end: 9, line: 1, column: 9 }));
}

#[test]
fn calculate_span_counts_characters() {
    let input = "あa";
    let ctx = ParserContext::new(input, None);
    let span = ctx.calculate_span(&input[3..]);
    assert_eq!(span, Span { start: 0, end: 1, line: 1, column: 1 });
}

#[test]
fn token_span_ends_at_the_token() {
    let mut one = Lexer::new("a", None);
    let mut two = Lexer::new("a b", None);
    let expected = Span { start: 0, end: 1, line: 1, column: 1 };
    assert_eq!(one.next_token().unwrap().span, expected);
    let first = two.next_token().unwrap();
    assert_eq!(first.kind, TokenKind::Identifier("a".to_string()));
    assert_eq!(first.span, expected);
    assert_eq!(two.next_token().unwrap().span, Span { start: 2, end: 3, line: 1, column: 3 });
}

#[test]
fn string_literal_decodes_utf8() {
    let mut parser = Parser::new(None);
    match parser.parse_expression("\"日本語\"").unwrap() {
        Expr::StringLiteral(s, _) => assert_eq!(s, "日本語"),
        other => panic!("unexpected {:?}", other),
    }
}

#[test]
fn lexer_reads_unicode_identifiers() {
    let mut lexer = Lexer::new("変数 = 1", None);
    let tokens = lexer.tokenize().unwrap();
    assert_eq!(tokens[0].kind, TokenKind::Identifier("変数".to_string()));
    assert_eq!(tokens[1].kind, TokenKind::Equal);
    assert_eq!(tokens[2].kind, TokenKind::IntLiteral(1));
    assert_eq!(tokens[3].kind, TokenKind::Eof);
}

#[test]
fn character_classes() {
    assert!(is_whitespace('\u{3000}'));
    assert!(is_whitespace('\u{0B}'));
    assert!(!is_whitespace('a'));
    assert!(!is_whitespace('\u{200B}'));
    assert!(alphabetic('é'));
    assert!(!alphabetic('1'));
    assert!(alphanumeric('1'));
    assert!(!alphanumeric('-'));
}

#[test]
fn white_space_agrees_with_std() {
    for u in 0u32..0x110000 {
        if let Some(c) = char::from_u32(u) {
            assert_eq!(is_whitespace(c), c.is_whitespace(), "at U+{:04X}", u);
        }
    }
}
