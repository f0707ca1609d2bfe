use protorun::lexer::{Lexer, TokenKind};
#[test]
fn test_tokenize_simple_expression() {
    let input = "let x = 42 + 3.14;";
    let mut lexer = Lexer::new(input, None);
    let tokens = lexer.tokenize().unwrap();
    
    assert_eq!(tokens.len(), 8); // let, x, =, 42, +, 3.14, ;, EOF
    
    assert_eq!(tokens[0].kind, TokenKind::Let);
    
    match &tokens[1].kind {
        TokenKind::Identifier(name) => assert_eq!(name, "x"),
        _ => panic!("期待される識別子ではありません"),
    }
    
    assert_eq!(tokens[2].kind, TokenKind::Equal);
    
    match tokens[3].kind {
        TokenKind::IntLiteral(value) => assert_eq!(value, 42),
        _ => panic!("期待される整数リテラルではありません"),
    }
    
    assert_eq!(tokens[4].kind, TokenKind::Plus);
    
    match &tokens[5].kind {
        TokenKind::FloatLiteral(value) => assert_eq!(value.parse::<f64>().unwrap(), 3.14),
        _ => panic!("期待される浮動小数点リテラルではありません"),
    }
    
    assert_eq!(tokens[6].kind, TokenKind::Semicolon);
    assert_eq!(tokens[7].kind, TokenKind::Eof);
}

#[test]
fn test_tokenize_function_declaration() {
    let input = "fn add(x: Int, y: Int): Int = x + y;";
    let mut lexer = Lexer::new(input, None);
    let tokens = lexer.tokenize().unwrap();
    
    assert_eq!(tokens[0].kind, TokenKind::Fn);
    
    match &tokens[1].kind {
        TokenKind::Identifier(name) => assert_eq!(name, "add"),
        _ => panic!("期待される識別子ではありません"),
    }
    
    assert_eq!(tokens[2].kind, TokenKind::LeftParen);
    
    match &tokens[3].kind {
        TokenKind::Identifier(name) => assert_eq!(name, "x"),
        _ => panic!("期待される識別子ではありません"),
    }
    
    assert_eq!(tokens[4].kind, TokenKind::Colon);
    
    match &tokens[5].kind {
        TokenKind::Identifier(name) => assert_eq!(name, "Int"),
        _ => panic!("期待される識別子ではありません"),
    }
    
    assert_eq!(tokens[6].kind, TokenKind::Comma);
    
    // 他のトークンも同様に確認...
}

// コメントに関するテスト
#[test]
fn test_skip_line_comments() {
    let input = "// これは行コメントです\nlet x = 10;";
    let mut lexer = Lexer::new(input, None);
    let tokens = lexer.tokenize().unwrap();
    
    // コメントはスキップされるので、最初のトークンはletになるはず
    assert_eq!(tokens[0].kind, TokenKind::Let);
    
    match &tokens[1].kind {
        TokenKind::Identifier(name) => assert_eq!(name, "x"),
        _ => panic!("期待される識別子ではありません"),
    }
}

#[test]
fn test_multiple_comments() {
    let input = "// コメント1\n// コメント2\nlet x = 42;";
    let mut lexer = Lexer::new(input, None);
    let tokens = lexer.tokenize().unwrap();
    
    // 両方のコメントがスキップされる
    assert_eq!(tokens[0].kind, TokenKind::Let);
}

#[test]
fn test_comment_after_code() {
    let input = "let x = 10; // 変数の定義\nlet y = 20;";
    let mut lexer = Lexer::new(input, None);
    let tokens = lexer.tokenize().unwrap();
    
    // コードとコメントが混在している場合の処理
    assert_eq!(tokens[0].kind, TokenKind::Let);
    
    match &tokens[1].kind {
        TokenKind::Identifier(name) => assert_eq!(name, "x"),
        _ => panic!("期待される識別子ではありません"),
    }
    
    assert_eq!(tokens[4].kind, TokenKind::Semicolon);
    
    // コメントの後のコードが正しく解析される
    assert_eq!(tokens[5].kind, TokenKind::Let);
    
    match &tokens[6].kind {
        TokenKind::Identifier(name) => assert_eq!(name, "y"),
        _ => panic!("期待される識別子ではありません"),
    }
}

#[test]
fn test_comment_at_end_of_file() {
    let input = "let x = 10; // 最後のコメント";
    let mut lexer = Lexer::new(input, None);
    let tokens = lexer.tokenize().unwrap();
    
    // ファイル末尾のコメントが正しく処理される
    assert_eq!(tokens[0].kind, TokenKind::Let);
    assert_eq!(tokens.last().unwrap().kind, TokenKind::Eof);
}

#[test]
fn test_japanese_comments() {
    let input = "// 日本語のコメント\nlet x = 42;";
    let mut lexer = Lexer::new(input, None);
    let tokens = lexer.tokenize().unwrap();
    
    // 日本語を含むコメントが正しく処理される
    assert_eq!(tokens[0].kind, TokenKind::Let);
}

#[test]
fn test_comments_with_code_inside() {
    let input = "// let x = 10;\nlet y = 20;";
    let mut lexer = Lexer::new(input, None);
    let tokens = lexer.tokenize().unwrap();
    
    // コメント内のコードは無視される
    assert_eq!(tokens[0].kind, TokenKind::Let);
    
    match &tokens[1].kind {
        TokenKind::Identifier(name) => assert_eq!(name, "y"),
        _ => panic!("期待される識別子ではありません"),
    }
}

#[test]
fn lexer_spans_and_errors() {
    let mut lexer = Lexer::new("a\n  bc", None);
    let tokens = lexer.tokenize().unwrap();
    assert_eq!(tokens.len(), 3);
    assert_eq!(tokens[1].span.line, 2);
    assert_eq!(tokens[1].span.column, 3);
    let mut lexer = Lexer::new("let @", Some("f.pr".to_string()));
    let err = lexer.tokenize().unwrap_err();
    assert_eq!(err.filename, Some("f.pr".to_string()));
    assert!(err.to_string().contains("予期しない文字"));
    let mut lexer = Lexer::new("99999999999999999999", None);
    assert!(lexer.tokenize().is_err());
    let mut lexer = Lexer::new("\"a\\nb\"", None);
    let tokens = lexer.tokenize().unwrap();
    match &tokens[0].kind {
        TokenKind::StringLiteral(s) => assert_eq!(s, "a\nb"),
        other => panic!("unexpected {:?}", other),
    }
    let mut lexer = Lexer::new("", None);
    let tokens = lexer.tokenize().unwrap();
    assert_eq!(tokens.len(), 1);
    assert_eq!(tokens[0].kind, TokenKind::Eof);
}
