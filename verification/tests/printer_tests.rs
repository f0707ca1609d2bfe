use protorun::ast::{BinaryOperator, Expr, LiteralValue, Pattern, Span, Stmt, Type, UnaryOperator};
use protorun::parser::Parser;
use protorun::printer::{
    decl_to_string, expr_to_string, op_to_string, pattern_to_string, program_lines, stmt_to_string,
    type_to_string, unary_op_to_string,
};

fn sp() -> Span {
    Span { start: 0, end: 0, line: 1, column: 1 }
}

fn expr_text(src: &str) -> String {
    let mut parser = Parser::new(None);
    expr_to_string(&parser.parse_expression(src).unwrap())
}

fn type_text(src: &str) -> String {
    let mut parser = Parser::new(None);
    type_to_string(&parser.parse_type(src).unwrap())
}

#[test]
fn binary_operations_are_parenthesised() {
    assert_eq!(expr_text("1 + 2 * 3"), "(1 + (2 * 3))");
    assert_eq!(expr_text("a && b || c"), "((a && b) || c)");
    assert_eq!(expr_text("x <= 10"), "(x <= 10)");
}

#[test]
fn calls_members_and_literals() {
    assert_eq!(expr_text("f(1, x)"), "f(1, x)");
    assert_eq!(expr_text("p.name"), "p.name");
    assert_eq!(expr_text("[1, 2, 3]"), "[1, 2, 3]");
    assert_eq!(expr_text("\"hi\""), "\"hi\"");
    assert_eq!(expr_text("true"), "true");
    assert_eq!(expr_text("()"), "()");
    assert_eq!(expr_text("3.14"), "3.14");
}

#[test]
fn integers_in_decimal() {
    assert_eq!(expr_to_string(&Expr::IntLiteral(0, sp())), "0");
    assert_eq!(expr_to_string(&Expr::IntLiteral(1200, sp())), "1200");
    assert_eq!(expr_to_string(&Expr::IntLiteral(-42, sp())), "-42");
    assert_eq!(expr_to_string(&Expr::IntLiteral(i64::MIN, sp())), "-9223372036854775808");
    assert_eq!(expr_to_string(&Expr::IntLiteral(i64::MAX, sp())), "9223372036854775807");
}

#[test]
fn unary_and_function_expressions() {
    let neg = Expr::UnaryOp {
        operator: UnaryOperator::Not,
        expr: Box::new(Expr::Identifier("ok".to_string(), sp())),
        span: sp(),
    };
    assert_eq!(expr_to_string(&neg), "!(ok)");
    assert_eq!(expr_text("fn (x: Int, y) => x"), "(x: Int, y) => x");
}

#[test]
fn types_as_written() {
    assert_eq!(type_text("(Int, Int) -> Int"), "(Int, Int) -> Int");
    assert_eq!(type_text("(String) -> String & IO"), "(String) -> String & IO");
    assert_eq!(type_text("[Int]"), "[Int]");
    assert_eq!(type_text("&mut Int"), "&mut Int");
    assert_eq!(type_text("&Int"), "&Int");
    assert_eq!(type_text("own String"), "own String");
    assert_eq!(type_text("Map<String, Int>"), "Map<String, Int>");
}

#[test]
fn patterns_and_operators() {
    let p = Pattern::Constructor {
        name: "Some".to_string(),
        arguments: vec![
            Pattern::Identifier("x".to_string(), sp()),
            Pattern::Literal(LiteralValue::String("a".to_string()), sp()),
            Pattern::Wildcard(sp()),
        ],
        span: sp(),
    };
    assert_eq!(pattern_to_string(&p), "Some(x, \"a\", _)");
    let none = Pattern::Constructor { name: "None".to_string(), arguments: vec![], span: sp() };
    assert_eq!(pattern_to_string(&none), "None");
    let t = Pattern::Tuple(vec![Pattern::Literal(LiteralValue::Int(1), sp()), Pattern::Literal(LiteralValue::Unit, sp())], sp());
    assert_eq!(pattern_to_string(&t), "(1, ())");
    assert_eq!(op_to_string(&BinaryOperator::Neq), "!=");
    assert_eq!(op_to_string(&BinaryOperator::Mod), "%");
    assert_eq!(unary_op_to_string(&UnaryOperator::Neg), "-");
}

#[test]
fn statements_and_declarations() {
    let r = Stmt::Return { value: Some(Expr::IntLiteral(1, sp())), span: sp() };
    assert_eq!(stmt_to_string(&r), "return 1");
    assert_eq!(stmt_to_string(&Stmt::Return { value: None, span: sp() }), "return");
    let mut parser = Parser::new(None);
    let program = parser.parse_program("let x: Int = 1 + 2").unwrap();
    assert_eq!(decl_to_string(&program.declarations[0]), "let x: Int = (1 + 2)");
    let ty = Type::Simple { name: "Int".to_string(), span: sp() };
    assert_eq!(type_to_string(&ty), "Int");
}

#[test]
fn program_report_lines() {
    let mut parser = Parser::new(None);
    let program = parser.parse_program("let x = 1\nvar y = 2\nx + y").unwrap();
    let lines = program_lines(&program);
    assert_eq!(
        lines,
        vec![
            "宣言数: 2".to_string(),
            "宣言 #1: let x = 1".to_string(),
            "宣言 #2: var y = 2".to_string(),
            "文数: 1".to_string(),
            "文 #1: (x + y)".to_string(),
        ]
    );
}

#[test]
fn if_expression_prints_without_elif_branches() {
    let with_elif = expr_text("if x > 0 { 1 } elif x < 0 { 2 } else { 3 }");
    let without = expr_text("if x > 0 { 1 } else { 3 }");
    assert_eq!(with_elif, without);
    assert!(!with_elif.contains("elif"));
    assert!(with_elif.starts_with("if (x > 0) "));
}

#[test]
fn printed_types_read_back() {
    for src in ["Map<String, (Int) -> [&mut Int]>", "own &Vec<T>", "() -> Unit", "(A, B) -> (C) -> D"] {
        let printed = type_text(src);
        assert_eq!(type_text(&printed), printed);
    }
    assert_eq!(type_text("Map<String, (Int) -> [&mut Int]>"), "Map<String, (Int) -> [&mut Int]>");
}
