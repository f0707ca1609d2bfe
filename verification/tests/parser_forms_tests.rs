use protorun::ast::{
    BinaryOperator, ComprehensionKind, Decl, Expr, LiteralValue, Pattern, Type, UnaryOperator,
};
use protorun::error::ErrorKind;
use protorun::parser::Parser;

/// The name bound by a `let` of a name, its type annotation and its value.
fn let_parts(decl: &Decl) -> (&str, &Option<Type>, &Expr) {
    match decl {
        Decl::Let { pattern, type_annotation, value, .. } => match pattern {
            Pattern::Identifier(name, _) => (name.as_str(), type_annotation, value),
            _ => panic!("期待される識別子パターンではありません"),
        },
        _ => panic!("期待されるlet文ではありません"),
    }
}

fn binary_operator_of(input: &str) -> BinaryOperator {
    let mut parser = Parser::new(None);
    let expr = parser.parse_expression(input).unwrap();
    match expr {
        Expr::BinaryOp { operator, .. } => operator,
        _ => panic!("期待される二項演算ではありません"),
    }
}

#[test]
fn tests_test_parse_function_call() {
    let input = "add(10, 20)";
    let mut parser = Parser::new(None);

    let expr = parser.parse_expression(input).unwrap();

    match expr {
        Expr::FunctionCall { function, arguments, .. } => {
            match &*function {
                Expr::Identifier(name, _) => assert_eq!(name, "add"),
                _ => panic!("期待される関数名識別子ではありません"),
            }

            assert_eq!(arguments.len(), 2);

            match &arguments[0] {
                Expr::IntLiteral(value, _) => assert_eq!(*value, 10),
                _ => panic!("期待される整数リテラルではありません"),
            }

            match &arguments[1] {
                Expr::IntLiteral(value, _) => assert_eq!(*value, 20),
                _ => panic!("期待される整数リテラルではありません"),
            }
        }
        _ => panic!("期待される関数呼び出しではありません"),
    }
}

#[test]
fn tests_test_parse_nested_function_call() {
    let input = "add(multiply(10, 2), 20)";
    let mut parser = Parser::new(None);

    let expr = parser.parse_expression(input).unwrap();

    match expr {
        Expr::FunctionCall { function, arguments, .. } => {
            match &*function {
                Expr::Identifier(name, _) => assert_eq!(name, "add"),
                _ => panic!("期待される関数名識別子ではありません"),
            }

            assert_eq!(arguments.len(), 2);

            match &arguments[0] {
                Expr::FunctionCall { function, arguments, .. } => {
                    match &**function {
                        Expr::Identifier(name, _) => assert_eq!(name, "multiply"),
                        _ => panic!("期待される関数名識別子ではありません"),
                    }

                    assert_eq!(arguments.len(), 2);

                    match &arguments[0] {
                        Expr::IntLiteral(value, _) => assert_eq!(*value, 10),
                        _ => panic!("期待される整数リテラルではありません"),
                    }

                    match &arguments[1] {
                        Expr::IntLiteral(value, _) => assert_eq!(*value, 2),
                        _ => panic!("期待される整数リテラルではありません"),
                    }
                }
                _ => panic!("期待される関数呼び出しではありません"),
            }

            match &arguments[1] {
                Expr::IntLiteral(value, _) => assert_eq!(*value, 20),
                _ => panic!("期待される整数リテラルではありません"),
            }
        }
        _ => panic!("期待される関数呼び出しではありません"),
    }
}

#[test]
fn tests_test_parse_arithmetic_expressions() {
    assert_eq!(binary_operator_of("1 + 2"), BinaryOperator::Add);
    assert_eq!(binary_operator_of("5 - 3"), BinaryOperator::Sub);
    assert_eq!(binary_operator_of("4 * 2"), BinaryOperator::Mul);
    assert_eq!(binary_operator_of("10 / 2"), BinaryOperator::Div);
    assert_eq!(binary_operator_of("10 % 3"), BinaryOperator::Mod);
}

#[test]
fn tests_test_parse_unary_expressions() {
    {
        let input = "-42";
        let mut parser = Parser::new(None);
        let expr = parser.parse_expression(input).unwrap();

        match expr {
            Expr::UnaryOp { operator, expr, .. } => {
                assert_eq!(operator, UnaryOperator::Neg);

                match *expr {
                    Expr::IntLiteral(value, _) => assert_eq!(value, 42),
                    _ => panic!("期待される整数リテラルではありません"),
                }
            }
            _ => panic!("期待される単項演算ではありません"),
        }
    }

    {
        let input = "!true";
        let mut parser = Parser::new(None);
        let expr = parser.parse_expression(input).unwrap();

        match expr {
            Expr::UnaryOp { operator, expr, .. } => {
                assert_eq!(operator, UnaryOperator::Not);

                match *expr {
                    Expr::BoolLiteral(value, _) => assert_eq!(value, true),
                    _ => panic!("期待される真偽値リテラルではありません"),
                }
            }
            _ => panic!("期待される単項演算ではありません"),
        }
    }
}

#[test]
fn tests_test_parse_comparison_expressions() {
    assert_eq!(binary_operator_of("x == y"), BinaryOperator::Eq);
    assert_eq!(binary_operator_of("x != y"), BinaryOperator::Neq);
    assert_eq!(binary_operator_of("x < y"), BinaryOperator::Lt);
    assert_eq!(binary_operator_of("x > y"), BinaryOperator::Gt);
    assert_eq!(binary_operator_of("x <= y"), BinaryOperator::Lte);
    assert_eq!(binary_operator_of("x >= y"), BinaryOperator::Gte);
}

#[test]
fn tests_test_parse_parenthesized_expr() {
    let input = "(1 + 2) * 3";
    let mut parser = Parser::new(None);
    let expr = parser.parse_expression(input).unwrap();

    match expr {
        Expr::BinaryOp { operator, left, right, .. } => {
            assert_eq!(operator, BinaryOperator::Mul);

            match &*left {
                Expr::ParenExpr(inner, _) => match &**inner {
                    Expr::BinaryOp { operator, .. } => assert_eq!(*operator, BinaryOperator::Add),
                    _ => panic!("カッコ内の式が期待される二項演算ではありません"),
                },
                _ => panic!("期待されるカッコ式ではありません"),
            }

            match &*right {
                Expr::IntLiteral(value, _) => assert_eq!(*value, 3),
                _ => panic!("期待される整数リテラルではありません"),
            }
        }
        _ => panic!("期待される二項演算ではありません"),
    }
}

#[test]
fn test_parse_let_with_type_annotation() {
    let input = "let x: Int = 42;";
    let mut parser = Parser::new(None);
    let program = parser.parse_program(input).unwrap();

    assert_eq!(program.declarations.len(), 1);

    let (name, type_annotation, value) = let_parts(&program.declarations[0]);
    assert_eq!(name, "x");

    match type_annotation {
        Some(ty) => match ty {
            Type::Simple { name, .. } => assert_eq!(name, "Int"),
            _ => panic!("期待される単純型ではありません"),
        },
        None => panic!("型注釈が期待されます"),
    }

    match value {
        Expr::IntLiteral(value, _) => assert_eq!(*value, 42),
        _ => panic!("期待される整数リテラルではありません"),
    }
}

#[test]
fn tests_test_parse_complex_expression() {
    let input = "1 + 2 * 3 + 4";
    let mut parser = Parser::new(None);
    let expr = parser.parse_expression(input).unwrap();

    match expr {
        Expr::BinaryOp { operator, left, right, .. } => {
            assert_eq!(operator, BinaryOperator::Add);

            match &*left {
                Expr::BinaryOp { operator, left, right, .. } => {
                    assert_eq!(*operator, BinaryOperator::Add);

                    match &**left {
                        Expr::IntLiteral(value, _) => assert_eq!(value, &1),
                        _ => panic!("期待される整数リテラルではありません"),
                    }

                    match &**right {
                        Expr::BinaryOp { operator, left, right, .. } => {
                            assert_eq!(*operator, BinaryOperator::Mul);

                            match &**left {
                                Expr::IntLiteral(value, _) => assert_eq!(value, &2),
                                _ => panic!("期待される整数リテラルではありません"),
                            }

                            match &**right {
                                Expr::IntLiteral(value, _) => assert_eq!(value, &3),
                                _ => panic!("期待される整数リテラルではありません"),
                            }
                        }
                        _ => panic!("期待される二項演算ではありません"),
                    }
                }
                _ => panic!("期待される二項演算ではありません"),
            }

            match &*right {
                Expr::IntLiteral(value, _) => assert_eq!(value, &4),
                _ => panic!("期待される整数リテラルではありません"),
            }
        }
        _ => panic!("期待される二項演算ではありません"),
    }
}

#[test]
fn test_parse_error_unexpected_token() {
    let input = "let x = ;";
    let mut parser = Parser::new(None);
    let result = parser.parse_program(input);

    assert!(result.is_err());

    match result {
        Ok(_) => panic!("エラーが期待されます"),
        Err(err) => match err.kind {
            ErrorKind::Syntax(_) => (),
            _ => panic!("期待される構文エラーではありません"),
        },
    }
}

#[test]
fn program_with_trailing_white_space_and_comment_is_read() {
    let mut parser = Parser::new(None);
    let program = parser.parse_program("let x = 1\n  // end\n").unwrap();
    assert_eq!(program.declarations.len(), 1);
}

#[test]
fn tests_test_parse_string_literal() {
    let input = r#"let message = "Hello, world!";"#;
    let mut parser = Parser::new(None);
    let program = parser.parse_program(input).unwrap();

    assert_eq!(program.declarations.len(), 1);

    let (name, _, value) = let_parts(&program.declarations[0]);
    assert_eq!(name, "message");

    match value {
        Expr::StringLiteral(value, _) => assert_eq!(value, "Hello, world!"),
        _ => panic!("期待される文字列リテラルではありません"),
    }
}

#[test]
fn tests_test_parse_bool_literal() {
    {
        let mut parser = Parser::new(None);
        let expr = parser.parse_expression("true").unwrap();

        match expr {
            Expr::BoolLiteral(value, _) => assert_eq!(value, true),
            _ => panic!("期待される真偽値リテラルではありません"),
        }
    }

    {
        let mut parser = Parser::new(None);
        let expr = parser.parse_expression("false").unwrap();

        match expr {
            Expr::BoolLiteral(value, _) => assert_eq!(value, false),
            _ => panic!("期待される真偽値リテラルではありません"),
        }
    }
}

#[test]
fn tests_test_parse_array_type() {
    let input = "let arr: [Int] = 42;";
    let mut parser = Parser::new(None);
    let program = parser.parse_program(input).unwrap();

    assert_eq!(program.declarations.len(), 1);

    let (name, type_annotation, _) = let_parts(&program.declarations[0]);
    assert_eq!(name, "arr");

    match type_annotation {
        Some(Type::Array { element_type, .. }) => match &**element_type {
            Type::Simple { name, .. } => assert_eq!(name, "Int"),
            _ => panic!("期待される単純型ではありません"),
        },
        Some(_) => panic!("期待される配列型ではありません"),
        None => panic!("型注釈が期待されます"),
    }
}

#[test]
fn tests_test_parse_tuple_type() {
    let input = "let pair: (Int, String) = 42;";
    let mut parser = Parser::new(None);
    let program = parser.parse_program(input).unwrap();

    assert_eq!(program.declarations.len(), 1);

    let (name, type_annotation, _) = let_parts(&program.declarations[0]);
    assert_eq!(name, "pair");

    match type_annotation {
        Some(Type::Tuple { element_types, .. }) => {
            assert_eq!(element_types.len(), 2);

            match &element_types[0] {
                Type::Simple { name, .. } => assert_eq!(name, "Int"),
                _ => panic!("期待される単純型ではありません"),
            }

            match &element_types[1] {
                Type::Simple { name, .. } => assert_eq!(name, "String"),
                _ => panic!("期待される単純型ではありません"),
            }
        }
        Some(_) => panic!("期待されるタプル型ではありません"),
        None => panic!("型注釈が期待されます"),
    }
}

#[test]
fn tests_test_parse_generic_type() {
    let input = "let opt: Option<Int> = None;";
    let mut parser = Parser::new(None);
    let program = parser.parse_program(input).unwrap();

    assert_eq!(program.declarations.len(), 1);

    let (name, type_annotation, _) = let_parts(&program.declarations[0]);
    assert_eq!(name, "opt");

    match type_annotation {
        Some(Type::Generic { base_type, type_arguments, .. }) => {
            assert_eq!(base_type, "Option");
            assert_eq!(type_arguments.len(), 1);

            match &type_arguments[0] {
                Type::Simple { name, .. } => assert_eq!(name, "Int"),
                _ => panic!("期待される単純型ではありません"),
            }
        }
        Some(_) => panic!("期待されるジェネリック型ではありません"),
        None => panic!("型注釈が期待されます"),
    }
}

#[test]
fn tests_test_parse_reference_type() {
    {
        let input = "let ref: &Int = 42;";
        let mut parser = Parser::new(None);
        let program = parser.parse_program(input).unwrap();

        assert_eq!(program.declarations.len(), 1);

        let (name, type_annotation, _) = let_parts(&program.declarations[0]);
        assert_eq!(name, "ref");

        match type_annotation {
            Some(Type::Reference { is_mutable, referenced_type, .. }) => {
                assert_eq!(*is_mutable, false);

                match &**referenced_type {
                    Type::Simple { name, .. } => assert_eq!(name, "Int"),
                    _ => panic!("期待される単純型ではありません"),
                }
            }
            Some(_) => panic!("期待される参照型ではありません"),
            None => panic!("型注釈が期待されます"),
        }
    }

    {
        let input = "let mut_ref: &mut Int = 42;";
        let mut parser = Parser::new(None);
        let program = parser.parse_program(input).unwrap();

        assert_eq!(program.declarations.len(), 1);

        let (name, type_annotation, _) = let_parts(&program.declarations[0]);
        assert_eq!(name, "mut_ref");

        match type_annotation {
            Some(Type::Reference { is_mutable, referenced_type, .. }) => {
                assert_eq!(*is_mutable, true);

                match &**referenced_type {
                    Type::Simple { name, .. } => assert_eq!(name, "Int"),
                    _ => panic!("期待される単純型ではありません"),
                }
            }
            Some(_) => panic!("期待される参照型ではありません"),
            None => panic!("型注釈が期待されます"),
        }
    }
}

#[test]
fn tests_test_parse_owned_type() {
    let input = "let owned: own Resource = acquire();";
    let mut parser = Parser::new(None);
    let program = parser.parse_program(input).unwrap();

    assert_eq!(program.declarations.len(), 1);

    let (name, type_annotation, _) = let_parts(&program.declarations[0]);
    assert_eq!(name, "owned");

    match type_annotation {
        Some(Type::Owned { owned_type, .. }) => match &**owned_type {
            Type::Simple { name, .. } => assert_eq!(name, "Resource"),
            _ => panic!("期待される単純型ではありません"),
        },
        Some(_) => panic!("期待される所有権型ではありません"),
        None => panic!("型注釈が期待されます"),
    }
}

#[test]
fn tests_test_parse_complex_type() {
    let input = "let complex: Option<(Int, &mut String)> = 42;";
    let mut parser = Parser::new(None);
    let program = parser.parse_program(input).unwrap();

    assert_eq!(program.declarations.len(), 1);

    let (name, type_annotation, _) = let_parts(&program.declarations[0]);
    assert_eq!(name, "complex");

    match type_annotation {
        Some(Type::Generic { base_type, type_arguments, .. }) => {
            assert_eq!(base_type, "Option");
            assert_eq!(type_arguments.len(), 1);

            match &type_arguments[0] {
                Type::Tuple { element_types, .. } => {
                    assert_eq!(element_types.len(), 2);

                    match &element_types[0] {
                        Type::Simple { name, .. } => assert_eq!(name, "Int"),
                        _ => panic!("期待される単純型ではありません"),
                    }

                    match &element_types[1] {
                        Type::Reference { is_mutable, referenced_type, .. } => {
                            assert_eq!(*is_mutable, true);

                            match &**referenced_type {
                                Type::Simple { name, .. } => assert_eq!(name, "String"),
                                _ => panic!("期待される単純型ではありません"),
                            }
                        }
                        _ => panic!("期待される参照型ではありません"),
                    }
                }
                _ => panic!("期待されるタプル型ではありません"),
            }
        }
        Some(_) => panic!("期待されるジェネリック型ではありません"),
        None => panic!("型注釈が期待されます"),
    }
}

#[test]
fn tests_test_parse_match_expr() {
    let input = "match x { 
        0 => 42, 
        n if n > 0 => n * 2, 
        _ => -1 
    }";
    let mut parser = Parser::new(None);
    let expr = parser.parse_expression(input).unwrap();

    match expr {
        Expr::MatchExpr { scrutinee, cases, .. } => {
            match *scrutinee {
                Expr::Identifier(ref name, _) => assert_eq!(name, "x"),
                _ => panic!("期待される識別子ではありません"),
            }

            assert_eq!(cases.len(), 3);

            let (pattern, guard, expr) = &cases[0];
            match pattern {
                Pattern::Literal(LiteralValue::Int(value), _) => assert_eq!(*value, 0),
                _ => panic!("期待されるリテラルパターンではありません"),
            }
            assert!(guard.is_none());
            match expr {
                Expr::IntLiteral(value, _) => assert_eq!(*value, 42),
                _ => panic!("期待される整数リテラルではありません"),
            }

            let (pattern, guard, expr) = &cases[1];
            match pattern {
                Pattern::Identifier(name, _) => assert_eq!(name, "n"),
                _ => panic!("期待される識別子パターンではありません"),
            }
            assert!(guard.is_some());
            match expr {
                Expr::BinaryOp { operator, .. } => assert_eq!(*operator, BinaryOperator::Mul),
                _ => panic!("期待される二項演算ではありません"),
            }

            let (pattern, guard, expr) = &cases[2];
            match pattern {
                Pattern::Wildcard(_) => (),
                _ => panic!("期待されるワイルドカードパターンではありません"),
            }
            assert!(guard.is_none());
            match expr {
                Expr::UnaryOp { operator, expr, .. } => {
                    assert_eq!(*operator, UnaryOperator::Neg);
                    match &**expr {
                        Expr::IntLiteral(value, _) => assert_eq!(*value, 1),
                        _ => panic!("期待される整数リテラルではありません"),
                    }
                }
                _ => panic!("期待される単項演算ではありません"),
            }
        }
        _ => panic!("期待されるmatch式ではありません"),
    }
}

#[test]
fn tests_test_parse_list_comprehension() {
    let input = "[x * 2 for x <- numbers if x > 0]";
    let mut parser = Parser::new(None);
    let expr = parser.parse_expression(input).unwrap();

    match expr {
        Expr::CollectionComprehension { kind, output_expr, input_expr, pattern, condition, .. } => {
            assert_eq!(kind, ComprehensionKind::List);

            match *output_expr {
                Expr::BinaryOp { operator, .. } => assert_eq!(operator, BinaryOperator::Mul),
                _ => panic!("期待される二項演算ではありません"),
            }

            match *input_expr {
                Expr::Identifier(ref name, _) => assert_eq!(name, "numbers"),
                _ => panic!("期待される識別子ではありません"),
            }

            match pattern {
                Pattern::Identifier(ref name, _) => assert_eq!(name, "x"),
                _ => panic!("期待される識別子パターンではありません"),
            }

            assert!(condition.is_some());
            match *condition.unwrap() {
                Expr::BinaryOp { operator, .. } => assert_eq!(operator, BinaryOperator::Gt),
                _ => panic!("期待される二項演算ではありません"),
            }
        }
        _ => panic!("期待されるコレクション内包表記ではありません"),
    }
}

#[test]
fn tests_test_parse_map_comprehension() {
    let input = "{k -> v * 2 for (k, v) <- entries}";
    let mut parser = Parser::new(None);
    let expr = parser.parse_expression(input).unwrap();

    match expr {
        Expr::CollectionComprehension { kind, output_expr, input_expr, pattern, .. } => {
            assert_eq!(kind, ComprehensionKind::MapOf);

            match *output_expr {
                Expr::ParenExpr(_, _) => (),
                _ => panic!("期待されるタプル式ではありません"),
            }

            match *input_expr {
                Expr::Identifier(ref name, _) => assert_eq!(name, "entries"),
                _ => panic!("期待される識別子ではありません"),
            }

            match pattern {
                Pattern::Tuple(patterns, _) => {
                    assert_eq!(patterns.len(), 2);

                    match &patterns[0] {
                        Pattern::Identifier(name, _) => assert_eq!(name, "k"),
                        _ => panic!("期待される識別子パターンではありません"),
                    }

                    match &patterns[1] {
                        Pattern::Identifier(name, _) => assert_eq!(name, "v"),
                        _ => panic!("期待される識別子パターンではありません"),
                    }
                }
                _ => panic!("期待されるタプルパターンではありません"),
            }
        }
        _ => panic!("期待されるコレクション内包表記ではありません"),
    }
}

#[test]
fn tests_test_parse_bind_expr() {
    let input = "bind { 
        x <- getX(); 
        y <- getY(); 
        x + y 
    }";
    let mut parser = Parser::new(None);
    let expr = parser.parse_expression(input).unwrap();

    match expr {
        Expr::BindExpr { bindings, final_expr, .. } => {
            assert_eq!(bindings.len(), 2);

            let (pattern, expr) = &bindings[0];
            match pattern {
                Pattern::Identifier(name, _) => assert_eq!(name, "x"),
                _ => panic!("期待される識別子パターンではありません"),
            }
            match expr {
                Expr::FunctionCall { .. } => (),
                _ => panic!("期待される関数呼び出しではありません"),
            }

            let (pattern, expr) = &bindings[1];
            match pattern {
                Pattern::Identifier(name, _) => assert_eq!(name, "y"),
                _ => panic!("期待される識別子パターンではありません"),
            }
            match expr {
                Expr::FunctionCall { .. } => (),
                _ => panic!("期待される関数呼び出しではありません"),
            }

            match *final_expr {
                Expr::BinaryOp { operator, .. } => assert_eq!(operator, BinaryOperator::Add),
                _ => panic!("期待される二項演算ではありません"),
            }
        }
        _ => panic!("期待されるbind式ではありません"),
    }
}
