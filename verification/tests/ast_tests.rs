use protorun::ast::{ExportDecl, ImportDecl, ImportItem, Span};

#[test]
fn test_span_creation() {
    let span = Span { start: 0, end: 5, line: 1, column: 1 };

    assert_eq!(span.start, 0);
    assert_eq!(span.end, 5);
    assert_eq!(span.line, 1);
    assert_eq!(span.column, 1);
}

#[test]
fn test_export_decl() {
    let span = Span { start: 0, end: 10, line: 1, column: 1 };

    let single_export = ExportDecl::Single { name: "add".to_string(), span: span.clone() };

    match single_export {
        ExportDecl::Single { name, span: export_span } => {
            assert_eq!(name, "add");
            assert_eq!(export_span, span);
        }
        _ => panic!("期待される個別エクスポートではありません"),
    }

    let group_export = ExportDecl::Group {
        names: vec!["add".to_string(), "subtract".to_string()],
        span: span.clone(),
    };

    match group_export {
        ExportDecl::Group { names, span: export_span } => {
            assert_eq!(names.len(), 2);
            assert_eq!(names[0], "add");
            assert_eq!(names[1], "subtract");
            assert_eq!(export_span, span);
        }
        _ => panic!("期待されるグループエクスポートではありません"),
    }
}

#[test]
fn test_import_decl() {
    let span = Span { start: 0, end: 15, line: 1, column: 1 };

    let selective_import = ImportDecl::Selective {
        module_name: "math".to_string(),
        imports: vec![
            ImportItem { name: "add".to_string(), alias: None, span: span.clone() },
            ImportItem { name: "subtract".to_string(), alias: Some("sub".to_string()), span: span.clone() },
        ],
        span: span.clone(),
    };

    match selective_import {
        ImportDecl::Selective { module_name, imports, span: import_span } => {
            assert_eq!(module_name, "math");
            assert_eq!(imports.len(), 2);
            assert_eq!(imports[0].name, "add");
            assert_eq!(imports[0].alias, None);
            assert_eq!(imports[1].name, "subtract");
            assert_eq!(imports[1].alias, Some("sub".to_string()));
            assert_eq!(import_span, span);
        }
        _ => panic!("期待される選択的インポートではありません"),
    }

    let module_import = ImportDecl::Module {
        module_name: "math".to_string(),
        alias: "Math".to_string(),
        span: span.clone(),
    };

    match module_import {
        ImportDecl::Module { module_name, alias, span: import_span } => {
            assert_eq!(module_name, "math");
            assert_eq!(alias, "Math");
            assert_eq!(import_span, span);
        }
        _ => panic!("期待されるモジュールインポートではありません"),
    }
}
