use protorun::ast::{
    BinaryOperator, BlockItem, ComprehensionKind, Decl, ExportDecl, Expr, ImportDecl, LiteralValue,
    Pattern, Stmt, Type, TypeDecl, UnaryOperator,
};
use protorun::ast::Pattern as AstPattern;
use protorun::parser::Parser;
// 式パーサーのテスト

// BlockItem をインポート

#[test]
fn tests_expressions_test_parse_block_expr() {
    let input = "{ let x = 10 \n x }";
    let mut parser = Parser::new(None);

    let expr = parser.parse_expression(input).unwrap();

    match expr {
        Expr::BlockExpr { items, .. } => {
            assert!(items.len() > 0);
            match items.last().unwrap() {
                BlockItem::Expression(expr) => {
                     match expr {
                         Expr::Identifier(name, _) => assert_eq!(name, "x"),
                         _ => panic!("Block final item is not Identifier"),
                     }
                },
                _ => panic!("Block final item is not Expression"),
            }
            assert_eq!(items.len(), 2);
            match &items[0] {
                BlockItem::Declaration(decl) => {
                    match decl {
                        protorun::ast::Decl::Let { pattern, value, .. } => {
                             match pattern {
                                protorun::ast::Pattern::Identifier(name, _) => assert_eq!(name, "x"),
                                _ => panic!("Expected identifier pattern"),
                             }
                             match value {
                                Expr::IntLiteral(val, _) => assert_eq!(*val, 10),
                                _ => panic!("Expected IntLiteral"),
                             }
                        },
                        _ => panic!("Expected Let declaration"),
                    }
                },
                _ => panic!("Expected Declaration item"),
            }
        }
        _ => panic!("Expected BlockExpr"),
    }
}

#[test]
fn test_parse_assignment_expr() {
    // 単純な代入
    {
        let input = "x = 42";
        let mut parser = Parser::new(None);
        let expr = parser.parse_expression(input).unwrap();

        match expr {
            Expr::Assignment { lvalue, rvalue, .. } => {
                match *lvalue {
                    Expr::Identifier(name, _) => assert_eq!(name, "x"),
                    _ => panic!("Expected Identifier lvalue"),
                }
                match *rvalue {
                    Expr::IntLiteral(val, _) => assert_eq!(val, 42),
                    _ => panic!("Expected IntLiteral rvalue"),
                }
            },
            _ => panic!("Expected Assignment expression"),
        }
    }

    // メンバーアクセスへの代入
    {
        let input = "obj.field = \"hello\"";
        let mut parser = Parser::new(None);
        let expr = parser.parse_expression(input).unwrap();

        match expr {
            Expr::Assignment { lvalue, rvalue, .. } => {
                match *lvalue {
                    Expr::MemberAccess { object, member, .. } => {
                         match *object {
                             Expr::Identifier(name, _) => assert_eq!(name, "obj"),
                             _ => panic!("Expected Identifier object in MemberAccess"),
                         }
                         assert_eq!(member, "field");
                    },
                    _ => panic!("Expected MemberAccess lvalue"),
                }
                match *rvalue {
                    Expr::StringLiteral(s, _) => assert_eq!(s, "hello"),
                    _ => panic!("Expected StringLiteral rvalue"),
                }
            },
            _ => panic!("Expected Assignment expression"),
        }
    }

    // 右結合性の確認 (a = b = 5 は a = (b = 5) とパースされる)
    {
         let input = "a = b = 5";
         let mut parser = Parser::new(None);
         let expr = parser.parse_expression(input).unwrap();

         match expr {
             Expr::Assignment { lvalue: l1, rvalue: r1, .. } => {
                 match *l1 {
                     Expr::Identifier(name, _) => assert_eq!(name, "a"),
                     _ => panic!("Expected Identifier 'a'"),
                 }
                 match *r1 {
                     Expr::Assignment { lvalue: l2, rvalue: r2, .. } => {
                         match *l2 {
                             Expr::Identifier(name, _) => assert_eq!(name, "b"),
                             _ => panic!("Expected Identifier 'b'"),
                         }
                         match *r2 {
                             Expr::IntLiteral(val, _) => assert_eq!(val, 5),
                             _ => panic!("Expected IntLiteral 5"),
                         }
                     },
                     _ => panic!("Expected nested Assignment"),
                 }
             },
             _ => panic!("Expected outer Assignment"),
         }
    }

    // 代入不可な左辺値 (リテラル)
    {
        let input = "42 = x";
        let mut parser = Parser::new(None);
        assert!(parser.parse_expression(input).is_err());
    }

    // 代入不可な左辺値 (二項演算)
    {
        let input = "x + 1 = y";
        let mut parser = Parser::new(None);
        assert!(parser.parse_expression(input).is_err());
    }
}

#[test]
fn tests_expressions_test_parse_nested_block_expr() {
    let input = "{ let x = 10 \n { let y = 20 \n x + y } }";
    let mut parser = Parser::new(None);

    let expr = parser.parse_expression(input).unwrap();
    match expr {
        Expr::BlockExpr { items: outer_items, .. } => {
            assert_eq!(outer_items.len(), 2);
            match &outer_items[1] {
                BlockItem::Expression(outer_final_expr) => {
                     match outer_final_expr {
                         Expr::BlockExpr { items: inner_items, .. } => {
                            assert_eq!(inner_items.len(), 2);
                            match &inner_items[1] {
                                BlockItem::Expression(inner_final_expr) => {
                                     match inner_final_expr {
                                         Expr::BinaryOp { operator, .. } => assert_eq!(*operator, BinaryOperator::Add),
                                         _ => panic!("Inner block final item is not BinaryOp"),
                                     }
                                },
                                _ => panic!("Inner block final item is not Expression"),
                            }
                        },
                        _ => panic!("Outer block final item is not BlockExpr"),
                    }
                },
                 _ => panic!("Outer block final item is not Expression"),
            }
        },
        _ => panic!("Expected outer BlockExpr"),
    }
}

#[test]
fn tests_expressions_test_parse_function_call() {
    let input = "add(10, 20)";
    let mut parser = Parser::new(None);
    
    let expr = parser.parse_expression(input).unwrap();
    
    match expr {
        Expr::FunctionCall { function, arguments, .. } => {
            match &*function {
                Expr::Identifier(name, _) => assert_eq!(name, "add"),
                _ => panic!("期待される関数名識別子ではありません"),
            }
            
            assert_eq!(arguments.len(), 2);
            
            match &arguments[0] {
                Expr::IntLiteral(value, _) => assert_eq!(*value, 10),
                _ => panic!("期待される整数リテラルではありません"),
            }
            
            match &arguments[1] {
                Expr::IntLiteral(value, _) => assert_eq!(*value, 20),
                _ => panic!("期待される整数リテラルではありません"),
            }
        },
        _ => panic!("期待される関数呼び出しではありません"),
    }
}

#[test]
fn tests_expressions_test_parse_nested_function_call() {
    let input = "add(multiply(10, 2), 20)";
    let mut parser = Parser::new(None);
    
    let expr = parser.parse_expression(input).unwrap();
    
    match expr {
        Expr::FunctionCall { function, arguments, .. } => {
            match &*function {
                Expr::Identifier(name, _) => assert_eq!(name, "add"),
                _ => panic!("期待される関数名識別子ではありません"),
            }
            
            assert_eq!(arguments.len(), 2);
            
            match &arguments[0] {
                Expr::FunctionCall { function, arguments, .. } => {
                    match &**function {
                        Expr::Identifier(name, _) => assert_eq!(name, "multiply"),
                        _ => panic!("期待される関数名識別子ではありません"),
                    }
                    
                    assert_eq!(arguments.len(), 2);
                    
                    match &arguments[0] {
                        Expr::IntLiteral(value, _) => assert_eq!(*value, 10),
                        _ => panic!("期待される整数リテラルではありません"),
                    }
                    
                    match &arguments[1] {
                        Expr::IntLiteral(value, _) => assert_eq!(*value, 2),
                        _ => panic!("期待される整数リテラルではありません"),
                    }
                },
                _ => panic!("期待される関数呼び出しではありません"),
            }
            
            match &arguments[1] {
                Expr::IntLiteral(value, _) => assert_eq!(*value, 20),
                _ => panic!("期待される整数リテラルではありません"),
            }
        },
        _ => panic!("期待される関数呼び出しではありません"),
    }
}

#[test]
fn tests_expressions_test_parse_arithmetic_expressions() {
    // 加算
    {
        let input = "1 + 2";
        let mut parser = Parser::new(None);
        let expr = parser.parse_expression(input).unwrap();
        
        match expr {
            Expr::BinaryOp { operator, .. } => assert_eq!(operator, BinaryOperator::Add),
            _ => panic!("期待される二項演算ではありません"),
        }
    }
    
    // 減算
    {
        let input = "5 - 3";
        let mut parser = Parser::new(None);
        let expr = parser.parse_expression(input).unwrap();
        
        match expr {
            Expr::BinaryOp { operator, .. } => assert_eq!(operator, BinaryOperator::Sub),
            _ => panic!("期待される二項演算ではありません"),
        }
    }
    
    // 乗算
    {
        let input = "4 * 2";
        let mut parser = Parser::new(None);
        let expr = parser.parse_expression(input).unwrap();
        
        match expr {
            Expr::BinaryOp { operator, .. } => assert_eq!(operator, BinaryOperator::Mul),
            _ => panic!("期待される二項演算ではありません"),
        }
    }
    
    // 除算
    {
        let input = "10 / 2";
        let mut parser = Parser::new(None);
        let expr = parser.parse_expression(input).unwrap();
        
        match expr {
            Expr::BinaryOp { operator, .. } => assert_eq!(operator, BinaryOperator::Div),
            _ => panic!("期待される二項演算ではありません"),
        }
    }
    
    // 剰余
    {
        let input = "10 % 3";
        let mut parser = Parser::new(None);
        let expr = parser.parse_expression(input).unwrap();
        
        match expr {
            Expr::BinaryOp { operator, .. } => assert_eq!(operator, BinaryOperator::Mod),
            _ => panic!("期待される二項演算ではありません"),
        }
    }
}

#[test]
fn test_parse_tuple_literal_and_grouping() {
    // ユニットリテラル
    {
        let input = "()";
        let mut parser = Parser::new(None);
        let expr = parser.parse_expression(input).unwrap();
        match expr {
            Expr::UnitLiteral(_) => (),
            _ => panic!("Expected UnitLiteral for ()"),
        }
    }

    // グループ化 (単一リテラル)
    {
        let input = "(42)";
        let mut parser = Parser::new(None);
        let expr = parser.parse_expression(input).unwrap();
        match expr {
            Expr::ParenExpr(inner_expr, _) => {
                match *inner_expr {
                    Expr::IntLiteral(v, _) => assert_eq!(v, 42),
                    _ => panic!("Expected IntLiteral inside ParenExpr"),
                }
            },
            _ => panic!("Expected ParenExpr for (42)"),
        }
    }

    // グループ化 (二項演算)
    {
        let input = "(1 + 2)";
        let mut parser = Parser::new(None);
        let expr = parser.parse_expression(input).unwrap();
        match expr {
            Expr::ParenExpr(inner_expr, _) => {
                match *inner_expr {
                    Expr::BinaryOp { operator, .. } => assert_eq!(operator, BinaryOperator::Add),
                    _ => panic!("Expected BinaryOp inside ParenExpr"),
                }
            },
            _ => panic!("Expected ParenExpr for (1 + 2)"),
        }
    }

    // タプルリテラル (要素数2)
    {
        let input = "(1, \"hello\")";
        let mut parser = Parser::new(None);
        let expr = parser.parse_expression(input).unwrap();
        match expr {
            Expr::TupleLiteral { elements, .. } => {
                assert_eq!(elements.len(), 2);
                match &elements[0] {
                    Expr::IntLiteral(v, _) => assert_eq!(*v, 1),
                    _ => panic!("Expected IntLiteral(1)"),
                }
                match &elements[1] {
                    Expr::StringLiteral(s, _) => assert_eq!(s, "hello"),
                    _ => panic!("Expected StringLiteral(\"hello\")"),
                }
            },
            _ => panic!("Expected TupleLiteral for (1, \"hello\")"),
        }
    }

    // タプルリテラル (要素数3)
    {
        let input = "(true, 3.14, x)";
        let mut parser = Parser::new(None);
        let expr = parser.parse_expression(input).unwrap();
        match expr {
            Expr::TupleLiteral { elements, .. } => {
                assert_eq!(elements.len(), 3);
                match &elements[0] {
                    Expr::BoolLiteral(b, _) => assert_eq!(*b, true),
                    _ => panic!("Expected BoolLiteral(true)"),
                }
                match &elements[1] {
                    Expr::FloatLiteral(f, _) => assert_eq!(f.parse::<f64>().unwrap(), 3.14),
                    _ => panic!("Expected FloatLiteral(3.14)"),
                }
                match &elements[2] {
                    Expr::Identifier(name, _) => assert_eq!(name, "x"),
                    _ => panic!("Expected Identifier(\"x\")"),
                }
            },
            _ => panic!("Expected TupleLiteral for (true, 3.14, x)"),
        }
    }

     // ネストしたタプル
    {
        let input = "(1, (2, 3))";
        let mut parser = Parser::new(None);
        let expr = parser.parse_expression(input).unwrap();
        match expr {
            Expr::TupleLiteral { elements, .. } => {
                assert_eq!(elements.len(), 2);
                match &elements[0] {
                    Expr::IntLiteral(v, _) => assert_eq!(*v, 1),
                    _ => panic!("Expected IntLiteral(1)"),
                }
                match &elements[1] {
                    Expr::TupleLiteral { elements: nested, .. } => {
                         assert_eq!(nested.len(), 2);
                         match &nested[0] {
                             Expr::IntLiteral(v, _) => assert_eq!(*v, 2),
                             _ => panic!("Expected nested IntLiteral(2)"),
                         }
                         match &nested[1] {
                             Expr::IntLiteral(v, _) => assert_eq!(*v, 3),
                             _ => panic!("Expected nested IntLiteral(3)"),
                         }
                    },
                    _ => panic!("Expected nested TupleLiteral"),
                }
            },
            _ => panic!("Expected outer TupleLiteral"),
        }
    }

    // 要素数1のタプルリテラルはパースできない (グループ化としてパースされる)
    {
        let input = "(1,)"; // 末尾カンマがあってもグループ化としてパースされるか、エラーになるはず
        let mut parser = Parser::new(None);
        // この仕様ではパースエラーになるはず
        assert!(parser.parse_expression(input).is_err());
    }
}

#[test]
fn tests_expressions_test_parse_unary_expressions() {
    // 負の数
    {
        let input = "-42";
        let mut parser = Parser::new(None);
        let expr = parser.parse_expression(input).unwrap();
        
        match expr {
            Expr::UnaryOp { operator, expr, .. } => {
                assert_eq!(operator, UnaryOperator::Neg);
                
                match *expr {
                    Expr::IntLiteral(value, _) => assert_eq!(value, 42),
                    _ => panic!("期待される整数リテラルではありません"),
                }
            },
            _ => panic!("期待される単項演算ではありません"),
        }
    }
    
    // 論理否定
    {
        let input = "!true";
        let mut parser = Parser::new(None);
        let expr = parser.parse_expression(input).unwrap();
        
        match expr {
            Expr::UnaryOp { operator, expr, .. } => {
                assert_eq!(operator, UnaryOperator::Not);
                
                match *expr {
                    Expr::BoolLiteral(value, _) => assert_eq!(value, true),
                    _ => panic!("期待される真偽値リテラルではありません"),
                }
            },
            _ => panic!("期待される単項演算ではありません"),
        }
    }
}

#[test]
fn tests_expressions_test_parse_comparison_expressions() {
    // 等価
    {
        let input = "x == y";
        let mut parser = Parser::new(None);
        let expr = parser.parse_expression(input).unwrap();
        
        match expr {
            Expr::BinaryOp { operator, .. } => assert_eq!(operator, BinaryOperator::Eq),
            _ => panic!("期待される二項演算ではありません"),
        }
    }
    
    // 非等価
    {
        let input = "x != y";
        let mut parser = Parser::new(None);
        let expr = parser.parse_expression(input).unwrap();
        
        match expr {
            Expr::BinaryOp { operator, .. } => assert_eq!(operator, BinaryOperator::Neq),
            _ => panic!("期待される二項演算ではありません"),
        }
    }
    
    // より小さい
    {
        let input = "x < y";
        let mut parser = Parser::new(None);
        let expr = parser.parse_expression(input).unwrap();
        
        match expr {
            Expr::BinaryOp { operator, .. } => assert_eq!(operator, BinaryOperator::Lt),
            _ => panic!("期待される二項演算ではありません"),
        }
    }
    
    // より大きい
    {
        let input = "x > y";
        let mut parser = Parser::new(None);
        let expr = parser.parse_expression(input).unwrap();
        
        match expr {
            Expr::BinaryOp { operator, .. } => assert_eq!(operator, BinaryOperator::Gt),
            _ => panic!("期待される二項演算ではありません"),
        }
    }
    
    // 以下
    {
        let input = "x <= y";
        let mut parser = Parser::new(None);
        let expr = parser.parse_expression(input).unwrap();
        
        match expr {
            Expr::BinaryOp { operator, .. } => assert_eq!(operator, BinaryOperator::Lte),
            _ => panic!("期待される二項演算ではありません"),
        }
    }
    
    // 以上
    {
        let input = "x >= y";
        let mut parser = Parser::new(None);
        let expr = parser.parse_expression(input).unwrap();
        
        match expr {
            Expr::BinaryOp { operator, .. } => assert_eq!(operator, BinaryOperator::Gte),
            _ => panic!("期待される二項演算ではありません"),
        }
    }
}

#[test]
fn tests_expressions_test_parse_parenthesized_expr() {
    let input = "(1 + 2) * 3";
    let mut parser = Parser::new(None);
    let expr = parser.parse_expression(input).unwrap();
    
    match expr {
        Expr::BinaryOp { operator, left, right, .. } => {
            assert_eq!(operator, BinaryOperator::Mul);
            
            match &*left {
                Expr::ParenExpr(inner, _) => {
                    match &**inner {
                        Expr::BinaryOp { operator, .. } => assert_eq!(*operator, BinaryOperator::Add),
                        _ => panic!("カッコ内の式が期待される二項演算ではありません"),
                    }
                },
                _ => panic!("期待されるカッコ式ではありません"),
            }
            
            match &*right {
                Expr::IntLiteral(value, _) => assert_eq!(*value, 3),
                _ => panic!("期待される整数リテラルではありません"),
            }
        },
        _ => panic!("期待される二項演算ではありません"),
    }
}

#[test]
fn tests_expressions_test_parse_complex_expression() {
    let input = "1 + 2 * 3 + 4";
    let mut parser = Parser::new(None);
    let expr = parser.parse_expression(input).unwrap();
    
    match expr {
        Expr::BinaryOp { operator, left, right, .. } => {
            assert_eq!(operator, BinaryOperator::Add);
            
            match &*left {
                Expr::BinaryOp { operator, left, right, .. } => {
                    assert_eq!(*operator, BinaryOperator::Add);
                    
                    match &**left {
                        Expr::IntLiteral(value, _) => assert_eq!(value, &1),
                        _ => panic!("期待される整数リテラルではありません"),
                    }
                    
                    match &**right {
                        Expr::BinaryOp { operator, left, right, .. } => {
                            assert_eq!(*operator, BinaryOperator::Mul);
                            
                            match &**left {
                                Expr::IntLiteral(value, _) => assert_eq!(value, &2),
                                _ => panic!("期待される整数リテラルではありません"),
                            }
                            
                            match &**right {
                                Expr::IntLiteral(value, _) => assert_eq!(value, &3),
                                _ => panic!("期待される整数リテラルではありません"),
                            }
                        },
                        _ => panic!("期待される二項演算ではありません"),
                    }
                },
                _ => panic!("期待される二項演算ではありません"),
            }
            
            match &*right {
                Expr::IntLiteral(value, _) => assert_eq!(value, &4),
                _ => panic!("期待される整数リテラルではありません"),
            }
        },
        _ => panic!("期待される二項演算ではありません"),
    }
}

#[test]
fn tests_expressions_test_parse_if_expr() {
    // 基本的な if ... else ...
    {
        let input = "if x > 0 { 42 } else { -42 }";
        let mut parser = Parser::new(None);
        let expr = parser.parse_expression(input).unwrap();

        match expr {
            Expr::IfExpr { condition, then_branch, elif_branches, else_branch, .. } => {
                // if 条件
                match *condition {
                    Expr::BinaryOp { operator, .. } => assert_eq!(operator, BinaryOperator::Gt),
                    _ => panic!("if condition is not BinaryOp"),
                }
                // then 本体
                match *then_branch {
                    Expr::BlockExpr{ items, .. } => {
                        assert_eq!(items.len(), 1);
                        match &items[0] {
                            BlockItem::Expression(Expr::IntLiteral(v, _)) => assert_eq!(*v, 42),
                            _ => panic!("then_branch item is not IntLiteral(42)"),
                        }
                    },
                    _ => panic!("then_branch is not BlockExpr"),
                }
                // elif なし
                assert!(elif_branches.is_empty());
                // else 本体
                assert!(else_branch.is_some());
                match *else_branch.unwrap() {
                    Expr::BlockExpr{ items, .. } => {
                         assert_eq!(items.len(), 1);
                         match &items[0] {
                             BlockItem::Expression(Expr::UnaryOp{ operator, expr: inner_expr, .. }) => {
                                 assert_eq!(*operator, UnaryOperator::Neg);
                                 match &**inner_expr {
                                     Expr::IntLiteral(v, _) => assert_eq!(*v, 42),
                                     _ => panic!("else_branch UnaryOp inner is not IntLiteral(42)"),
                                 }
                             },
                             _ => panic!("else_branch item is not UnaryOp"),
                         }
                    },
                    _ => panic!("else_branch is not BlockExpr"),
                }
            },
            _ => panic!("Expected IfExpr"),
        }
    }

    // if のみ (else なし)
    {
        let input = "if x > 0 { 42 }";
        let mut parser = Parser::new(None);
        let expr = parser.parse_expression(input).unwrap();

        match expr {
            Expr::IfExpr { condition, then_branch, elif_branches, else_branch, .. } => {
                match *condition {
                    Expr::BinaryOp { operator, .. } => assert_eq!(operator, BinaryOperator::Gt),
                    _ => panic!("if condition is not BinaryOp"),
                }
                match *then_branch {
                     Expr::BlockExpr{ items, .. } => {
                        assert_eq!(items.len(), 1);
                        match &items[0] {
                            BlockItem::Expression(Expr::IntLiteral(v, _)) => assert_eq!(*v, 42),
                            _ => panic!("then_branch item is not IntLiteral(42)"),
                        }
                    },
                    _ => panic!("then_branch is not BlockExpr"),
                }
                assert!(elif_branches.is_empty());
                assert!(else_branch.is_none());
            },
            _ => panic!("Expected IfExpr"),
        }
    }

    // if ... elif ... else ...
    {
        let input = "if x > 0 { 1 } elif x < 0 { -1 } else { 0 }";
        let mut parser = Parser::new(None);
        let expr = parser.parse_expression(input).unwrap();

        match expr {
            Expr::IfExpr { condition, then_branch, elif_branches, else_branch, .. } => {
                // if 条件
                match *condition {
                    Expr::BinaryOp { operator, .. } => assert_eq!(operator, BinaryOperator::Gt),
                    _ => panic!("if condition is not BinaryOp"),
                }
                // then 本体
                match *then_branch {
                     Expr::BlockExpr{ items, .. } => {
                        assert_eq!(items.len(), 1);
                        match &items[0] {
                            BlockItem::Expression(Expr::IntLiteral(v, _)) => assert_eq!(*v, 1),
                            _ => panic!("then_branch item is not IntLiteral(1)"),
                        }
                    },
                    _ => panic!("then_branch is not BlockExpr"),
                }
                // elif
                assert_eq!(elif_branches.len(), 1);
                let (elif_cond, elif_body) = &elif_branches[0];
                // elif 条件
                match elif_cond {
                    Expr::BinaryOp { operator, .. } => assert_eq!(*operator, BinaryOperator::Lt),
                    _ => panic!("elif condition is not BinaryOp"),
                }
                // elif 本体
                match elif_body {
                     Expr::BlockExpr{ items, .. } => {
                        assert_eq!(items.len(), 1);
                        match &items[0] {
                            BlockItem::Expression(Expr::UnaryOp{ operator, expr: inner_expr, .. }) => {
                                assert_eq!(*operator, UnaryOperator::Neg);
                                match &**inner_expr {
                                    Expr::IntLiteral(v, _) => assert_eq!(*v, 1),
                                    _ => panic!("elif_branch UnaryOp inner is not IntLiteral(1)"),
                                }
                            },
                            _ => panic!("elif_branch item is not UnaryOp"),
                        }
                    },
                    _ => panic!("elif_branch is not BlockExpr"),
                }
                // else 本体
                assert!(else_branch.is_some());
                match *else_branch.unwrap() {
                    Expr::BlockExpr{ items, .. } => {
                         assert_eq!(items.len(), 1);
                         match &items[0] {
                             BlockItem::Expression(Expr::IntLiteral(v, _)) => assert_eq!(*v, 0),
                             _ => panic!("else_branch item is not IntLiteral(0)"),
                         }
                    },
                    _ => panic!("else_branch is not BlockExpr"),
                }
            },
            _ => panic!("Expected IfExpr"),
        }
    }

    // if ... elif ... elif ... else ...
    {
        let input = "if code == 200 { \"OK\" } elif code == 404 { \"Not Found\" } elif code == 500 { \"Server Error\" } else { \"Unknown\" }";
        let mut parser = Parser::new(None);
        let expr = parser.parse_expression(input).unwrap();

        match expr {
            Expr::IfExpr { condition, then_branch, elif_branches, else_branch, .. } => {
                // if 条件
                match *condition {
                    Expr::BinaryOp { operator, .. } => assert_eq!(operator, BinaryOperator::Eq),
                    _ => panic!("if condition is not BinaryOp"),
                }
                // then 本体
                match *then_branch {
                     Expr::BlockExpr{ items, .. } => {
                        assert_eq!(items.len(), 1);
                        match &items[0] {
                            BlockItem::Expression(Expr::StringLiteral(s, _)) => assert_eq!(s, "OK"),
                            _ => panic!("then_branch item is not StringLiteral(\"OK\")"),
                        }
                    },
                    _ => panic!("then_branch is not BlockExpr"),
                }
                // elif
                assert_eq!(elif_branches.len(), 2);
                // elif 1
                let (elif1_cond, elif1_body) = &elif_branches[0];
                match elif1_cond {
                    Expr::BinaryOp { operator, .. } => assert_eq!(*operator, BinaryOperator::Eq),
                    _ => panic!("elif1 condition is not BinaryOp"),
                }
                match elif1_body {
                     Expr::BlockExpr{ items, .. } => {
                        assert_eq!(items.len(), 1);
                        match &items[0] {
                            BlockItem::Expression(Expr::StringLiteral(s, _)) => assert_eq!(s, "Not Found"),
                            _ => panic!("elif1_branch item is not StringLiteral(\"Not Found\")"),
                        }
                    },
                    _ => panic!("elif1_branch is not BlockExpr"),
                }
                // elif 2
                let (elif2_cond, elif2_body) = &elif_branches[1];
                match elif2_cond {
                    Expr::BinaryOp { operator, .. } => assert_eq!(*operator, BinaryOperator::Eq),
                    _ => panic!("elif2 condition is not BinaryOp"),
                }
                match elif2_body {
                     Expr::BlockExpr{ items, .. } => {
                        assert_eq!(items.len(), 1);
                        match &items[0] {
                            BlockItem::Expression(Expr::StringLiteral(s, _)) => assert_eq!(s, "Server Error"),
                            _ => panic!("elif2_branch item is not StringLiteral(\"Server Error\")"),
                        }
                    },
                    _ => panic!("elif2_branch is not BlockExpr"),
                }
                // else 本体
                assert!(else_branch.is_some());
                match *else_branch.unwrap() {
                    Expr::BlockExpr{ items, .. } => {
                         assert_eq!(items.len(), 1);
                         match &items[0] {
                             BlockItem::Expression(Expr::StringLiteral(s, _)) => assert_eq!(s, "Unknown"),
                             _ => panic!("else_branch item is not StringLiteral(\"Unknown\")"),
                         }
                    },
                    _ => panic!("else_branch is not BlockExpr"),
                }
            },
            _ => panic!("Expected IfExpr"),
        }
    }

    // if ... elif ... (else なし)
    {
        let input = "if x > 10 { 1 } elif x > 5 { 2 }";
        let mut parser = Parser::new(None);
        let expr = parser.parse_expression(input).unwrap();

        match expr {
            Expr::IfExpr { condition, then_branch, elif_branches, else_branch, .. } => {
                match *condition {
                    Expr::BinaryOp { operator, .. } => assert_eq!(operator, BinaryOperator::Gt),
                    _ => panic!("if condition is not BinaryOp"),
                }
                match *then_branch {
                     Expr::BlockExpr{ items, .. } => {
                        assert_eq!(items.len(), 1);
                        match &items[0] {
                            BlockItem::Expression(Expr::IntLiteral(v, _)) => assert_eq!(*v, 1),
                            _ => panic!("then_branch item is not IntLiteral(1)"),
                        }
                    },
                    _ => panic!("then_branch is not BlockExpr"),
                }
                assert_eq!(elif_branches.len(), 1);
                let (elif_cond, elif_body) = &elif_branches[0];
                match elif_cond {
                    Expr::BinaryOp { operator, .. } => assert_eq!(*operator, BinaryOperator::Gt),
                    _ => panic!("elif condition is not BinaryOp"),
                }
                match elif_body {
                     Expr::BlockExpr{ items, .. } => {
                        assert_eq!(items.len(), 1);
                        match &items[0] {
                            BlockItem::Expression(Expr::IntLiteral(v, _)) => assert_eq!(*v, 2),
                            _ => panic!("elif_branch item is not IntLiteral(2)"),
                        }
                    },
                    _ => panic!("elif_branch is not BlockExpr"),
                }
                assert!(else_branch.is_none());
            },
            _ => panic!("Expected IfExpr"),
        }
    }
}

#[test]
fn tests_expressions_test_parse_match_expr() {
    let input = "match x { 
        0 => 42, 
        n if n > 0 => n * 2, 
        _ => -1 
    }";
    let mut parser = Parser::new(None);
    let expr = parser.parse_expression(input).unwrap();
    
    match expr {
        Expr::MatchExpr { scrutinee, cases, .. } => {
            match *scrutinee {
                Expr::Identifier(ref name, _) => assert_eq!(name, "x"),
                _ => panic!("期待される識別子ではありません"),
            }
            
            assert_eq!(cases.len(), 3);
            
            // 最初のケース: 0 => 42
            match &cases[0] {
                (pattern, guard, expr) => {
                    match pattern {
                        AstPattern::Literal(LiteralValue::Int(value), _) => assert_eq!(*value, 0),
                        _ => panic!("期待されるリテラルパターンではありません"),
                    }
                    
                    assert!(guard.is_none());
                    
                    match expr {
                        Expr::IntLiteral(value, _) => assert_eq!(*value, 42),
                        _ => panic!("期待される整数リテラルではありません"),
                    }
                }
            }
            
            // 2番目のケース: n if n > 0 => n * 2
            match &cases[1] {
                (pattern, guard, expr) => {
                    match pattern {
                        AstPattern::Identifier(name, _) => assert_eq!(name, "n"),
                        _ => panic!("期待される識別子パターンではありません"),
                    }
                    
                    assert!(guard.is_some());
                    
                    match expr {
                        Expr::BinaryOp { operator, .. } => assert_eq!(*operator, BinaryOperator::Mul),
                        _ => panic!("期待される二項演算ではありません"),
                    }
                }
            }
            
            // 3番目のケース: _ => -1
            match &cases[2] {
                (pattern, guard, expr) => {
                    match pattern {
                        AstPattern::Wildcard(_) => (),
                        _ => panic!("期待されるワイルドカードパターンではありません"),
                    }
                    
                    assert!(guard.is_none());
                    
                    match expr {
                        Expr::UnaryOp { operator, expr, .. } => {
                            assert_eq!(*operator, UnaryOperator::Neg);
                            match &**expr {
                                Expr::IntLiteral(value, _) => assert_eq!(*value, 1),
                                _ => panic!("期待される整数リテラルではありません"),
                            }
                        },
                        _ => panic!("期待される単項演算ではありません"),
                    }
                }
            }
        },
        _ => panic!("期待されるmatch式ではありません"),
    }
}

#[test]
fn tests_expressions_test_parse_list_comprehension() {
    let input = "[x * 2 for x <- numbers if x > 0]";
    let mut parser = Parser::new(None);
    let expr = parser.parse_expression(input).unwrap();
    
    match expr {
        Expr::CollectionComprehension { kind, output_expr, input_expr, pattern, condition, .. } => {
            assert_eq!(kind, ComprehensionKind::List);
            
            match *output_expr {
                Expr::BinaryOp { operator, .. } => assert_eq!(operator, BinaryOperator::Mul),
                _ => panic!("期待される二項演算ではありません"),
            }
            
            match *input_expr {
                Expr::Identifier(ref name, _) => assert_eq!(name, "numbers"),
                _ => panic!("期待される識別子ではありません"),
            }
            
            match pattern {
                AstPattern::Identifier(ref name, _) => assert_eq!(name, "x"),
                _ => panic!("期待される識別子パターンではありません"),
            }
            
            assert!(condition.is_some());
            match *condition.unwrap() {
                Expr::BinaryOp { operator, .. } => assert_eq!(operator, BinaryOperator::Gt),
                _ => panic!("期待される二項演算ではありません"),
            }
        },
        _ => panic!("期待されるコレクション内包表記ではありません"),
    }
}

#[test]
fn tests_expressions_test_parse_map_comprehension() {
    let input = "{k -> v * 2 for (k, v) <- entries}";
    let mut parser = Parser::new(None);
    let expr = parser.parse_expression(input).unwrap();
    
    match expr {
        Expr::CollectionComprehension { kind, output_expr, input_expr, pattern, .. } => {
            assert_eq!(kind, ComprehensionKind::MapOf);
            
            // 出力式はキーと値のペアを表すタプル式
            match *output_expr {
                Expr::ParenExpr(_, _) => (),
                _ => panic!("期待されるタプル式ではありません"),
            }
            
            match *input_expr {
                Expr::Identifier(ref name, _) => assert_eq!(name, "entries"),
                _ => panic!("期待される識別子ではありません"),
            }
            
            match pattern {
                AstPattern::Tuple(patterns, _) => {
                    assert_eq!(patterns.len(), 2);
                    
                    match &patterns[0] {
                        AstPattern::Identifier(name, _) => assert_eq!(name, "k"),
                        _ => panic!("期待される識別子パターンではありません"),
                    }
                    
                    match &patterns[1] {
                        AstPattern::Identifier(name, _) => assert_eq!(name, "v"),
                        _ => panic!("期待される識別子パターンではありません"),
                    }
                },
                _ => panic!("期待されるタプルパターンではありません"),
            }
        },
        _ => panic!("期待されるコレクション内包表記ではありません"),
    }
}

#[test]
fn tests_expressions_test_parse_bind_expr() {
    // bind 式内のセミコロンは必要
    let input = "bind { \n x <- getX(); \n y <- getY(); \n x + y \n }"; // 改行追加
    let mut parser = Parser::new(None);
    let expr = parser.parse_expression(input).unwrap();
    
    match expr {
        Expr::BindExpr { bindings, final_expr, .. } => {
            assert_eq!(bindings.len(), 2);
            
            // 最初のバインド: x <- getX()
            match &bindings[0] {
                (pattern, expr) => {
                    match pattern {
                        AstPattern::Identifier(name, _) => assert_eq!(name, "x"),
                        _ => panic!("期待される識別子パターンではありません"),
                    }
                    
                    match expr {
                        Expr::FunctionCall { .. } => (),
                        _ => panic!("期待される関数呼び出しではありません"),
                    }
                }
            }
            
            // 2番目のバインド: y <- getY()
            match &bindings[1] {
                (pattern, expr) => {
                    match pattern {
                        AstPattern::Identifier(name, _) => assert_eq!(name, "y"),
                        _ => panic!("期待される識別子パターンではありません"),
                    }
                    
                    match expr {
                        Expr::FunctionCall { .. } => (),
                        _ => panic!("期待される関数呼び出しではありません"),
                    }
                }
            }
            
            // 最終式: x + y
            match *final_expr {
                Expr::BinaryOp { operator, .. } => assert_eq!(operator, BinaryOperator::Add),
                _ => panic!("期待される二項演算ではありません"),
            }
        },
        _ => panic!("期待されるbind式ではありません"),
    }
}

// use protorun::ast::Type; // 重複しているので削除

#[test]
fn tests_expressions_test_parse_with_expr() {
    // 単一の束縛 (型注釈なし) - インスタンスを識別子に変更
    {
        let input = "with logger = logger_instance { log(\"Hello\") \n 42 }"; // ConsoleLogger {} を logger_instance に変更
        let mut parser = Parser::new(None);
        let expr = parser.parse_expression(input).unwrap();

        match expr {
            Expr::WithExpr { bindings, body, .. } => {
                assert_eq!(bindings.len(), 1);
                let binding = &bindings[0];
                assert_eq!(binding.alias, "logger");
                assert!(binding.type_annotation.is_none());
                // 変更: instance が Identifier であることを確認
                match &binding.instance {
                    Expr::Identifier(name, _) => assert_eq!(name, "logger_instance"),
                    _ => panic!("Instance expression is not Identifier"),
                }

                // body が BlockExpr であることを確認
                match *body {
                     Expr::BlockExpr { items, .. } => {
                         assert_eq!(items.len(), 2); // log("Hello") と 42
                         // 中身のチェックは省略 (block_expr のテストで確認済み)
                     },
                    _ => panic!("Body is not BlockExpr"),
                }
            },
            _ => panic!("期待されるwith式ではありません"),
        }
    }

    // 複数の束縛 (型注釈ありとなし)
    // TODO: レコードリテラル `{ count: 0 }` を式としてパースできるように修正後、このテストケースを有効化する
    // {
    //     let input = "with log = logger, state = Counter { count: 0 }: State<Int> { tick() }";
    //     let mut parser = Parser::new(None);
    //     let expr = parser.parse_expression(input).unwrap();

    //     match expr {
    //         Expr::WithExpr { bindings, body, .. } => {
    //             assert_eq!(bindings.len(), 2);

    //             // 1つ目の束縛: log = logger
    //             let binding1 = &bindings[0];
    //             assert_eq!(binding1.alias, "log");
    //             assert!(binding1.type_annotation.is_none());
    //             match &binding1.instance {
    //                 Expr::Identifier(name, _) => assert_eq!(name, "logger"),
    //                 _ => panic!("Instance 1 is not Identifier"),
    //             }

    //             // 2つ目の束縛: state = Counter { count: 0 }: State<Int>
    //             let binding2 = &bindings[1];
    //             assert_eq!(binding2.alias, "state");
    //             assert!(binding2.type_annotation.is_some());
    //             match &binding2.type_annotation {
    //                 Some(Type::Generic { base_type, type_arguments, .. }) => {
    //                     assert_eq!(base_type, "State");
    //                     assert_eq!(type_arguments.len(), 1);
    //                     match &type_arguments[0] {
    //                         Type::Simple { name, .. } => assert_eq!(name, "Int"),
    //                         _ => panic!("Expected State<Int>"),
    //                     }
    //                 },
    //                 _ => panic!("Expected Generic Type State<Int>"),
    //             }
    //             // instance が BlockExpr であることを確認 (Counter { count: 0 } のパース結果)
    //             match &binding2.instance {
    //                 Expr::BlockExpr { .. } => { // items を無視
    //                      // レコードリテラルは現状 BlockExpr としてパースされる可能性がある
    //                      // (パーサーの実装による。本来は RecordLiteralExpr のようなものが望ましい)
    //                      // ここでは BlockExpr であることだけ確認
    //                 },
    //                 _ => panic!("Instance 2 is not BlockExpr"),
    //             }

    //             // body が BlockExpr であることを確認
    //             match *body {
    //                  Expr::BlockExpr { items, .. } => {
    //                      assert_eq!(items.len(), 1); // tick()
    //                      // 中身のチェックは省略
    //                  },
    //                 _ => panic!("Body is not BlockExpr"),
    //             }
    //         },
    //         _ => panic!("期待されるwith式ではありません"),
    //     }
    // }
}

#[test]
fn tests_expressions_test_parse_list_literal() {
    let input = "[1, 2, 3]";
    let mut parser = Parser::new(None);
    let expr = parser.parse_expression(input).unwrap();
    
    match expr {
        Expr::ListLiteral { elements, .. } => {
            assert_eq!(elements.len(), 3);
            
            match &elements[0] {
                Expr::IntLiteral(value, _) => assert_eq!(*value, 1),
                _ => panic!("期待される整数リテラルではありません"),
            }
            
            match &elements[1] {
                Expr::IntLiteral(value, _) => assert_eq!(*value, 2),
                _ => panic!("期待される整数リテラルではありません"),
            }
            
            match &elements[2] {
                Expr::IntLiteral(value, _) => assert_eq!(*value, 3),
                _ => panic!("期待される整数リテラルではありません"),
            }
        },
        _ => panic!("期待されるリストリテラルではありません"),
    }
}

#[test]
fn tests_expressions_test_parse_map_literal() {
    let input = "{\"key\" -> 42, \"another\" -> 100}";
    let mut parser = Parser::new(None);
    let expr = parser.parse_expression(input).unwrap();
    
    match expr {
        Expr::MapLiteral { entries, .. } => {
            assert_eq!(entries.len(), 2);
            
            match &entries[0].0 {
                Expr::StringLiteral(key, _) => assert_eq!(key, "key"),
                _ => panic!("期待される文字列リテラルではありません"),
            }
            
            match &entries[0].1 {
                Expr::IntLiteral(value, _) => assert_eq!(*value, 42),
                _ => panic!("期待される整数リテラルではありません"),
            }
            
            match &entries[1].0 {
                Expr::StringLiteral(key, _) => assert_eq!(key, "another"),
                _ => panic!("期待される文字列リテラルではありません"),
            }
            
            match &entries[1].1 {
                Expr::IntLiteral(value, _) => assert_eq!(*value, 100),
                _ => panic!("期待される整数リテラルではありません"),
            }
        },
        _ => panic!("期待されるマップリテラルではありません"),
    }
}

#[test]
fn tests_expressions_test_parse_set_literal() {
    let input = "#{1, 2, 3}";
    let mut parser = Parser::new(None);
    let expr = parser.parse_expression(input).unwrap();
    
    match expr {
        Expr::SetLiteral { elements, .. } => {
            assert_eq!(elements.len(), 3);
            
            match &elements[0] {
                Expr::IntLiteral(value, _) => assert_eq!(*value, 1),
                _ => panic!("期待される整数リテラルではありません"),
            }
            
            match &elements[1] {
                Expr::IntLiteral(value, _) => assert_eq!(*value, 2),
                _ => panic!("期待される整数リテラルではありません"),
            }
            
            match &elements[2] {
                Expr::IntLiteral(value, _) => assert_eq!(*value, 3),
                _ => panic!("期待される整数リテラルではありません"),
            }
        },
        _ => panic!("期待されるセットリテラルではありません"),
    }
}

#[test]
fn test_parse_empty_collections() {
    // 空のリスト
    {
        let input = "[]";
        let mut parser = Parser::new(None);
        let expr = parser.parse_expression(input).unwrap();
        
        match expr {
            Expr::ListLiteral { elements, .. } => {
                assert_eq!(elements.len(), 0);
            },
            _ => panic!("期待される空のリストリテラルではありません"),
        }
    }
    
    // 空のマップ
    {
        let input = "{}";
        let mut parser = Parser::new(None);
        let expr = parser.parse_expression(input).unwrap();
        
        match expr {
            Expr::MapLiteral { entries, .. } => {
                assert_eq!(entries.len(), 0);
            },
            _ => panic!("期待される空のマップリテラルではありません"),
        }
    }
    
    // 空のセット
    {
        let input = "#{}";
        let mut parser = Parser::new(None);
        let expr = parser.parse_expression(input).unwrap();
        
        match expr {
            Expr::SetLiteral { elements, .. } => {
                assert_eq!(elements.len(), 0);
            },
            _ => panic!("期待される空のセットリテラルではありません"),
        }
    }
}

#[test]
fn test_parse_nested_collections() {
    let input = "[[1, 2], [3, 4]]";
    let mut parser = Parser::new(None);
    let expr = parser.parse_expression(input).unwrap();
    
    match expr {
        Expr::ListLiteral { elements, .. } => {
            assert_eq!(elements.len(), 2);
            
            // 最初のネストされたリスト
            match &elements[0] {
                Expr::ListLiteral { elements: nested_elements, .. } => {
                    assert_eq!(nested_elements.len(), 2);
                    
                    match &nested_elements[0] {
                        Expr::IntLiteral(value, _) => assert_eq!(*value, 1),
                        _ => panic!("期待される整数リテラルではありません"),
                    }
                    
                    match &nested_elements[1] {
                        Expr::IntLiteral(value, _) => assert_eq!(*value, 2),
                        _ => panic!("期待される整数リテラルではありません"),
                    }
                },
                _ => panic!("期待されるリストリテラルではありません"),
            }
            
            // 2番目のネストされたリスト
            match &elements[1] {
                Expr::ListLiteral { elements: nested_elements, .. } => {
                    assert_eq!(nested_elements.len(), 2);
                    
                    match &nested_elements[0] {
                        Expr::IntLiteral(value, _) => assert_eq!(*value, 3),
                        _ => panic!("期待される整数リテラルではありません"),
                    }
                    
                    match &nested_elements[1] {
                        Expr::IntLiteral(value, _) => assert_eq!(*value, 4),
                        _ => panic!("期待される整数リテラルではありません"),
                    }
                },
                _ => panic!("期待されるリストリテラルではありません"),
            }
        },
        _ => panic!("期待されるリストリテラルではありません"),
    }
}

#[test]
fn test_parse_function_expr() { // Renamed test
    // 基本的な関数式
    {
        let input = "fn (x) => x + 1"; // Added =>
        let mut parser = Parser::new(None);
        let expr = parser.parse_expression(input).unwrap();

        match expr {
            Expr::FunctionExpr { parameters, effect_parameters, implicit_parameters, body, .. } => { // Renamed variant
                assert!(parameters.is_some());
                let params = parameters.as_ref().unwrap();
                assert_eq!(params.len(), 1);

                assert_eq!(params[0].name, "x");
                assert!(params[0].type_annotation.is_none());
                assert!(effect_parameters.is_none());
                assert!(implicit_parameters.is_none());
                
                match *body {
                    Expr::BinaryOp { operator, .. } => assert_eq!(operator, BinaryOperator::Add),
                    _ => panic!("期待される二項演算ではありません"),
                }
            },
            _ => panic!("期待される関数式ではありません"), // Message updated
        }
    }
    
    // 型注釈付きのパラメータを持つ関数式
    {
        let input = "fn (x: Int) => x * 2"; // Added =>
        let mut parser = Parser::new(None);
        let expr = parser.parse_expression(input).unwrap();

        match expr {
            Expr::FunctionExpr { parameters, effect_parameters, implicit_parameters, body, .. } => { // Renamed variant
                assert!(parameters.is_some());
                let params = parameters.as_ref().unwrap();
                assert_eq!(params.len(), 1);

                assert_eq!(params[0].name, "x");
                assert!(params[0].type_annotation.is_some());
                assert!(effect_parameters.is_none());
                assert!(implicit_parameters.is_none());

                match &params[0].type_annotation {
                    Some(ty) => {
                        match ty {
                            protorun::ast::Type::Simple { name, .. } => assert_eq!(name, "Int"),
                            _ => panic!("期待される単純型ではありません"),
                        }
                    },
                    None => panic!("型注釈が期待されます"),
                }
                
                match *body {
                    Expr::BinaryOp { operator, .. } => assert_eq!(operator, BinaryOperator::Mul),
                    _ => panic!("期待される二項演算ではありません"),
                }
            },
            _ => panic!("期待される関数式ではありません"), // Message updated
        }
    }
    
    // 複数のパラメータを持つ関数式
    {
        let input = "fn (x: Int, y: Int) => x + y"; // Added =>
        let mut parser = Parser::new(None);
        let expr = parser.parse_expression(input).unwrap();

        match expr {
            Expr::FunctionExpr { parameters, effect_parameters, implicit_parameters, body, .. } => { // Renamed variant
                assert!(parameters.is_some());
                let params = parameters.as_ref().unwrap();
                assert_eq!(params.len(), 2);

                assert_eq!(params[0].name, "x");
                assert_eq!(params[1].name, "y");
                assert!(effect_parameters.is_none());
                assert!(implicit_parameters.is_none());
                
                match *body {
                    Expr::BinaryOp { operator, .. } => assert_eq!(operator, BinaryOperator::Add),
                    _ => panic!("期待される二項演算ではありません"),
                }
            },
            _ => panic!("期待される関数式ではありません"), // Message updated
        }
    }
    
    // パラメータなしの関数式
    {
        let input = "fn => 42"; // Added =>
        let mut parser = Parser::new(None);
        let expr = parser.parse_expression(input).unwrap();

        match expr {
            Expr::FunctionExpr { parameters, effect_parameters, implicit_parameters, body, .. } => { // Renamed variant
                // パラメータリストがない場合は None になるはず
                assert!(parameters.is_none());
                assert!(effect_parameters.is_none());
                assert!(implicit_parameters.is_none());

                match *body {
                    Expr::IntLiteral(value, _) => assert_eq!(value, 42),
                    _ => panic!("期待される整数リテラルではありません"),
                }
            },
            _ => panic!("期待される関数式ではありません"), // Message updated
        }
    }
    
    // ブロック式を本体に持つ関数式
    {
        let input = "fn (x) => { let y = x * 2 \n y + 1 }"; // Added =>
        let mut parser = Parser::new(None);
        let expr = parser.parse_expression(input).unwrap();

        match expr {
            Expr::FunctionExpr { parameters, effect_parameters, implicit_parameters, body, .. } => { // Renamed variant
                assert!(parameters.is_some());
                let params = parameters.as_ref().unwrap();
                assert_eq!(params.len(), 1);
                assert_eq!(params[0].name, "x");
                assert!(effect_parameters.is_none());
                assert!(implicit_parameters.is_none());

                // body が BlockExpr であることを確認
                match *body {
                    Expr::BlockExpr { items, .. } => { // final_expr を削除
                        assert_eq!(items.len(), 2); // let y = ... と y + 1
                        match &items[1] { // 最後の要素が BinaryOp
                            BlockItem::Expression(expr) => {
                                match expr {
                                     Expr::BinaryOp { operator, .. } => assert_eq!(*operator, BinaryOperator::Add), // y + 1
                                     _ => panic!("Function body final item is not BinaryOp"), // Message updated
                                }
                            },
                            _ => panic!("Function body final item is not Expression"), // Message updated
                        }
                    },
                    _ => panic!("Function body is not BlockExpr"), // Message updated
                }
            },
            _ => panic!("期待される関数式ではありません"), // Message updated
        }
    }
    // TODO: Effect パラメータ、Implicit パラメータを含むテストケースを追加する
}

#[test]
fn test_parse_member_access() {
    // 基本的なメンバーアクセス
    {
        let input = "obj.property";
        let mut parser = Parser::new(None);
        let expr = parser.parse_expression(input).unwrap();
        
        match expr {
            Expr::MemberAccess { object, member, .. } => {
                match *object {
                    Expr::Identifier(ref name, _) => assert_eq!(name, "obj"),
                    _ => panic!("期待される識別子ではありません"),
                }
                
                assert_eq!(member, "property");
            },
            _ => panic!("期待されるメンバーアクセスではありません"),
        }
    }
    
    // チェーンされたメンバーアクセス
    {
        let input = "obj.inner.property";
        let mut parser = Parser::new(None);
        let expr = parser.parse_expression(input).unwrap();
        
        match expr {
            Expr::MemberAccess { object, member, .. } => {
                assert_eq!(member, "property");
                
                match *object {
                    Expr::MemberAccess { object: ref inner_obj, member: ref inner_member, .. } => {
                        match **inner_obj {
                            Expr::Identifier(ref name, _) => assert_eq!(name, "obj"),
                            _ => panic!("期待される識別子ではありません"),
                        }
                        
                        assert_eq!(*inner_member, "inner");
                    },
                    _ => panic!("期待されるメンバーアクセスではありません"),
                }
            },
            _ => panic!("期待されるメンバーアクセスではありません"),
        }
    }
    
    // メンバーアクセス後の関数呼び出し
    {
        let input = "obj.method(42)";
        let mut parser = Parser::new(None);
        let expr = parser.parse_expression(input).unwrap();
        
        match expr {
            Expr::FunctionCall { function, arguments, .. } => {
                match *function {
                    Expr::MemberAccess { object, member, .. } => {
                        match *object {
                            Expr::Identifier(ref name, _) => assert_eq!(name, "obj"),
                            _ => panic!("期待される識別子ではありません"),
                        }
                        
                        assert_eq!(member, "method");
                    },
                    _ => panic!("期待されるメンバーアクセスではありません"),
                }
                
                assert_eq!(arguments.len(), 1);
                match &arguments[0] {
                    Expr::IntLiteral(value, _) => assert_eq!(*value, 42),
                    _ => panic!("期待される整数リテラルではありません"),
                }
            },
            _ => panic!("期待される関数呼び出しではありません"),
        }
    }
    
    // 複雑な式の結果に対するメンバーアクセス
    {
        let input = "(obj.get_inner()).property";
        let mut parser = Parser::new(None);
        let expr = parser.parse_expression(input).unwrap();
        
        match expr {
            Expr::MemberAccess { object, member, .. } => {
                assert_eq!(member, "property");
                
                match *object {
                    Expr::ParenExpr(ref inner, _) => {
                        match **inner {
                            Expr::FunctionCall { .. } => (), // 関数呼び出しの詳細は省略
                            _ => panic!("期待される関数呼び出しではありません"),
                        }
                    },
                    _ => panic!("期待される括弧式ではありません"),
                }
            },
            _ => panic!("期待されるメンバーアクセスではありません"),
        }
    }
}
