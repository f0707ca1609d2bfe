use protorun::ast::{Span, Type};
use protorun::error::ErrorKind;
use protorun::parser::types;
use protorun::parser::Parser;

fn type_name_of(ty: &Type) -> String {
    match ty {
        Type::Simple { name, .. } => format!("Simple({})", name),
        Type::Array { .. } => "Array".to_string(),
        Type::Tuple { .. } => "Tuple".to_string(),
        Type::Function { .. } => "Function".to_string(),
        Type::Generic { base_type, .. } => format!("Generic({})", base_type),
        Type::Reference { is_mutable, .. } => {
            if *is_mutable {
                "Reference(mut)".to_string()
            } else {
                "Reference".to_string()
            }
        }
        Type::Owned { .. } => "Owned".to_string(),
        Type::WithEffect { .. } => "WithEffect".to_string(),
    }
}

fn check_function_type() {
    let input = "let add: (Int, Int) -> Int = fn(a, b) = a + b;";
    let mut parser = Parser::new(None);
    println!("入力文字列: {}", input);
    let type_str = "(Int, Int) -> Int";
    println!("型注釈部分: {}", type_str);

    let result = parser.parse_type(type_str);

    match result {
        Ok(ty) => {
            println!("解析結果の型: {}", type_name_of(&ty));
            match ty {
                Type::Function { parameters, return_type, .. } => {
                    println!("パラメータ数: {}", parameters.len());
                    for (i, param) in parameters.iter().enumerate() {
                        println!("パラメータ[{}]: {}", i, type_name_of(param));
                    }
                    println!("戻り値型: {}", type_name_of(return_type.as_ref()));
                }
                _ => println!("関数型ではありません: {}", type_name_of(&ty)),
            }
        }
        Err(e) => println!("解析エラー: {:?}", e),
    }
}

fn check_function_with_effect_type() {
    let input = "let readFile: (String) -> String & IO = fn(path) = read(path);";
    let mut parser = Parser::new(None);
    println!("入力文字列: {}", input);
    let type_str = "(String) -> String & IO";
    println!("型注釈部分: {}", type_str);

    let result = parser.parse_type(type_str);

    match result {
        Ok(ty) => {
            println!("解析結果の型: {}", type_name_of(&ty));
            match ty {
                Type::WithEffect { base_type, effect_type, .. } => {
                    println!("効果型: {}", type_name_of(effect_type.as_ref()));
                    match base_type.as_ref() {
                        Type::Function { parameters, return_type, .. } => {
                            println!("パラメータ数: {}", parameters.len());
                            for (i, param) in parameters.iter().enumerate() {
                                println!("パラメータ[{}]: {}", i, type_name_of(param));
                            }
                            println!("戻り値型: {}", type_name_of(return_type.as_ref()));
                        }
                        _ => println!("関数型ではありません: {}", type_name_of(base_type.as_ref())),
                    }
                }
                _ => println!("効果付き型ではありません: {}", type_name_of(&ty)),
            }
        }
        Err(e) => println!("解析エラー: {:?}", e),
    }
}

#[test]
fn tests_test_parse_function_type() {
    check_function_type();
}

#[test]
fn tests_types_test_parse_function_type() {
    check_function_type();
}

#[test]
fn tests_test_parse_function_with_effect_type() {
    check_function_with_effect_type();
}

#[test]
fn tests_types_test_parse_function_with_effect_type() {
    check_function_with_effect_type();
}

fn span(start: usize, end: usize, line: usize, column: usize) -> Span {
    Span { start, end, line, column }
}

#[test]
fn function_type_structure_and_spans() {
    let mut parser = Parser::new(None);
    let ty = parser.parse_type("(Int, Int) -> Int").unwrap();
    match ty {
        Type::Function { parameters, return_type, span: s } => {
            assert_eq!(parameters.len(), 2);
            assert_eq!(parameters[0], Type::Simple { name: "Int".to_string(), span: span(3, 4, 1, 4) });
            assert_eq!(parameters[1], Type::Simple { name: "Int".to_string(), span: span(8, 9, 1, 9) });
            assert_eq!(*return_type, Type::Simple { name: "Int".to_string(), span: span(16, 17, 1, 17) });
            assert_eq!(s, span(16, 17, 1, 17));
        }
        other => panic!("unexpected {:?}", other),
    }
}

#[test]
fn function_type_with_effect_structure() {
    let mut parser = Parser::new(None);
    match parser.parse_type("(String) -> String & IO").unwrap() {
        Type::WithEffect { base_type, effect_type, .. } => {
            assert!(matches!(*effect_type, Type::Simple { ref name, .. } if name == "IO"));
            match *base_type {
                Type::Function { parameters, return_type, .. } => {
                    assert_eq!(parameters.len(), 1);
                    assert!(matches!(*return_type, Type::Simple { ref name, .. } if name == "String"));
                }
                other => panic!("unexpected {:?}", other),
            }
        }
        other => panic!("unexpected {:?}", other),
    }
}

#[test]
fn parenthesized_type_is_the_inner_type() {
    let mut parser = Parser::new(None);
    let ty = parser.parse_type("(Int)").unwrap();
    assert!(matches!(ty, Type::Simple { ref name, .. } if name == "Int"));
    let ty = parser.parse_type("(Int, Bool)").unwrap();
    assert!(matches!(ty, Type::Tuple { ref element_types, .. } if element_types.len() == 2));
    // A trailing comma is read as the start of a function type's parameter list, whose
    // closing parenthesis is then missing.
    assert!(parser.parse_type("(Int,)").is_err());
}

#[test]
fn generic_reference_owned_and_array_types() {
    let mut parser = Parser::new(None);
    match parser.parse_type("Map<String, [Int]>").unwrap() {
        Type::Generic { base_type, type_arguments, .. } => {
            assert_eq!(base_type, "Map");
            assert_eq!(type_arguments.len(), 2);
            assert!(matches!(type_arguments[1], Type::Array { .. }));
        }
        other => panic!("unexpected {:?}", other),
    }
    assert!(matches!(parser.parse_type("Foo<>").unwrap(), Type::Simple { ref name, .. } if name == "Foo"));
    assert!(matches!(parser.parse_type("&mut Int").unwrap(), Type::Reference { is_mutable: true, .. }));
    assert!(matches!(parser.parse_type("& Int").unwrap(), Type::Reference { is_mutable: false, .. }));
    assert!(matches!(parser.parse_type("own // note\n Vec<Int>").unwrap(), Type::Owned { .. }));
}

#[test]
fn type_errors_are_syntax_errors() {
    let mut parser = Parser::new(Some("t.pr".to_string()));
    let err = parser.parse_type("  \n 123").unwrap_err();
    match &err.kind {
        ErrorKind::Syntax(m) => assert_eq!(m, "期待されるキーワードが見つかりません: '123'"),
        _ => panic!("not a syntax error"),
    }
    assert_eq!(err.span, Some(span(4, 5, 2, 2)));
    assert_eq!(err.filename, Some("t.pr".to_string()));

    let err = parser.parse_type("[Int").unwrap_err();
    match &err.kind {
        ErrorKind::Syntax(m) => assert_eq!(m, "期待される文字が見つかりません: ''"),
        _ => panic!("not a syntax error"),
    }
    let err = parser.parse_type("(Int; Bool)").unwrap_err();
    match &err.kind {
        ErrorKind::Syntax(m) => assert_eq!(m, "期待される文字が見つかりません: ';'"),
        _ => panic!("not a syntax error"),
    }
    assert_eq!(err.span, Some(span(4, 5, 1, 5)));
}

#[test]
fn byte_level_type_parsing_positions() {
    let input = b"Int rest";
    let (end, ty) = types::parse_type(input, 0).unwrap();
    assert_eq!(end, 4);
    assert!(matches!(ty, Type::Simple { ref name, .. } if name == "Int"));
    let (end, ty) = types::simple_type(b"  Abc  ", 0).unwrap();
    assert_eq!(end, 7);
    assert_eq!(ty, Type::Simple { name: "Abc".to_string(), span: span(0, 0, 1, 1) });
    let failure = types::array_type(b"[Int", 0).unwrap_err();
    assert!(failure.fatal);
    assert_eq!(failure.pos, 4);
}
