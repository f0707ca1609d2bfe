use protorun::parser::common;
use protorun::parser::literals;

/// White space and comments around an integer literal, read as the parser reads them.
fn int_between_ws(input: &str) -> Option<(i64, usize)> {
    let b = input.as_bytes();
    let p = common::ws_comments(b, 0);
    match literals::int_literal(b, p) {
        Ok((e, v)) => Some((v, common::ws_comments(b, e))),
        Err(_) => None,
    }
}

#[test]
fn test_ws_comments() {
    // 空白のスキップ
    {
        let input = "  \t\n  42";
        let result = int_between_ws(input);
        assert!(result.is_some());
        let (value, end) = result.unwrap();
        assert_eq!(value, 42);
        assert_eq!(&input[end..], "");
    }

    // コメントのスキップ
    {
        let input = "// This is a comment\n42";
        let result = int_between_ws(input);
        assert!(result.is_some());
        let (value, end) = result.unwrap();
        assert_eq!(value, 42);
        assert_eq!(&input[end..], "");
    }

    // 空白とコメントの混在
    {
        let input = "  // This is a comment\n  // Another comment\n  42";
        let result = int_between_ws(input);
        assert!(result.is_some());
        let (value, end) = result.unwrap();
        assert_eq!(value, 42);
        assert_eq!(&input[end..], "");
    }
}

#[test]
fn test_identifier() {
    for name in ["variable", "my_variable", "variable123", "_variable"] {
        let result = common::identifier(name.as_bytes(), 0);
        assert!(result.is_some());
        let end = result.unwrap();
        assert_eq!(&name[..end], name);
        assert_eq!(&name[end..], "");
    }

    // 数字で始まる識別子（無効）
    {
        let input = "123variable";
        let result = common::identifier(input.as_bytes(), 0);
        assert!(result.is_none());
    }
}

#[test]
fn test_keyword() {
    // キーワードの認識
    {
        let input = "let x = 42";
        let result = common::keyword(input.as_bytes(), 0, b"let");
        assert!(result.is_some());
        let end = result.unwrap();
        let start = common::ws_comments(input.as_bytes(), 0);
        assert_eq!(&input[start..start + 3], "let");
        assert_eq!(&input[end..], "x = 42");
    }

    // 空白とコメントを含むキーワード
    {
        let input = "  // comment\n  let x = 42";
        let result = common::keyword(input.as_bytes(), 0, b"let");
        assert!(result.is_some());
        let end = result.unwrap();
        let start = common::ws_comments(input.as_bytes(), 0);
        assert_eq!(&input[start..start + 3], "let");
        assert_eq!(&input[end..], "x = 42");
    }

    // 不一致のキーワード
    {
        let input = "var x = 42";
        let result = common::keyword(input.as_bytes(), 0, b"let");
        assert!(result.is_none());
    }
}

#[test]
fn identifier_string_reads_from_a_position() {
    let input = "let  foo_1 = 2";
    assert_eq!(common::identifier_string(input.as_bytes(), 5), Some((10, "foo_1".to_string())));
    assert_eq!(common::ws_identifier(input.as_bytes(), 3), Some((11, "foo_1".to_string())));
    assert_eq!(common::identifier_string(input.as_bytes(), 4), None);
}

#[test]
fn comment_runs_to_end_of_input() {
    let input = "// only a comment";
    assert_eq!(common::ws_comments(input.as_bytes(), 0), input.len());
    assert_eq!(common::skip_comment(input.as_bytes(), 0), Some(input.len()));
    assert_eq!(common::skip_comment(b"x", 0), None);
}
