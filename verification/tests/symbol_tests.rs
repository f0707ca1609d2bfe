use protorun::ast::Span;
use protorun::parser::common::ParserContext;
use protorun::symbol::{register_type_symbol, ScopeKind, Symbol, SymbolKind, SymbolTable, TypeInfo, TypeKind};

fn variable(name: &str) -> Symbol {
    Symbol {
        name: name.to_string(),
        kind: SymbolKind::Variable,
        type_annotation: None,
        declaration_span: Span { start: 0, end: 1, line: 1, column: 1 },
        is_mutable: false,
        type_info: None,
        is_used: false,
    }
}

#[test]
fn test_symbol_addition() {
    let mut table = SymbolTable::new(ScopeKind::Global);
    let symbol = variable("x");

    assert!(table.add_symbol(symbol.clone()));
    assert!(!table.add_symbol(symbol));
}

#[test]
fn test_symbol_lookup() {
    let mut table = SymbolTable::new(ScopeKind::Global);
    table.add_symbol(variable("x"));

    let found = table.lookup_symbol("x");
    assert!(found.is_some());
    assert_eq!(found.unwrap().name, "x");

    assert!(table.lookup_symbol("y").is_none());
}

#[test]
fn test_nested_scopes() {
    let mut global = SymbolTable::new(ScopeKind::Global);
    global.add_symbol(variable("global_var"));

    let mut function = SymbolTable::with_parent(ScopeKind::Function, global);
    function.add_symbol(variable("function_var"));

    let global_var = function.lookup_symbol_recursive("global_var");
    assert!(global_var.is_some());
    assert_eq!(global_var.unwrap().name, "global_var");

    let global = function.parent().unwrap();
    assert!(global.lookup_symbol_recursive("function_var").is_none());
}

#[test]
fn test_type_symbol_registration() {
    let mut table = SymbolTable::new(ScopeKind::Global);
    let type_symbol = Symbol {
        name: "MyStruct".to_string(),
        kind: SymbolKind::Type,
        type_annotation: None,
        declaration_span: Span { start: 0, end: 1, line: 1, column: 1 },
        is_mutable: false,
        type_info: Some(TypeInfo {
            kind: TypeKind::Struct,
            type_parameters: vec!["T".to_string()],
            fields: None,
            variants: None,
            super_trait: None,
            aliased_type: None,
        }),
        is_used: false,
    };

    assert!(table.add_symbol(type_symbol.clone()));

    let found = table.lookup_symbol("MyStruct");
    assert!(found.is_some());
    let found = found.unwrap();
    assert_eq!(found.kind, SymbolKind::Type);
    assert!(found.type_info.is_some());
    let type_info = found.type_info.as_ref().unwrap();
    assert_eq!(type_info.kind, TypeKind::Struct);
    assert_eq!(type_info.type_parameters, vec!["T".to_string()]);
}

#[test]
fn test_symbol_usage_tracking() {
    let mut table = SymbolTable::new(ScopeKind::Global);
    table.add_symbol(variable("x"));

    let unused = table.find_unused_symbols();
    assert_eq!(unused.len(), 1);
    assert_eq!(unused[0].name, "x");

    assert!(table.mark_symbol_used("x"));

    let unused = table.find_unused_symbols();
    assert_eq!(unused.len(), 0);
}

#[test]
fn test_find_symbols_by_kind() {
    let mut table = SymbolTable::new(ScopeKind::Global);
    table.add_symbol(variable("x"));

    let type_symbol = Symbol {
        name: "MyType".to_string(),
        kind: SymbolKind::Type,
        type_annotation: None,
        declaration_span: Span { start: 0, end: 1, line: 1, column: 1 },
        is_mutable: false,
        type_info: Some(TypeInfo {
            kind: TypeKind::Struct,
            type_parameters: Vec::new(),
            fields: None,
            variants: None,
            super_trait: None,
            aliased_type: None,
        }),
        is_used: false,
    };
    table.add_symbol(type_symbol);

    let vars = table.find_symbols_by_kind(SymbolKind::Variable);
    assert_eq!(vars.len(), 1);
    assert_eq!(vars[0].name, "x");

    let types = table.find_symbols_by_kind(SymbolKind::Type);
    assert_eq!(types.len(), 1);
    assert_eq!(types[0].name, "MyType");
}

#[test]
fn shadowing_resolves_innermost_and_marks_only_it() {
    let mut global = SymbolTable::new(ScopeKind::Global);
    let mut outer_x = variable("x");
    outer_x.is_mutable = true;
    global.add_symbol(outer_x);
    let mut block = SymbolTable::with_parent(ScopeKind::Block, global);
    block.add_symbol(variable("x"));

    assert!(!block.lookup_symbol_recursive("x").unwrap().is_mutable);
    assert!(block.mark_symbol_used("x"));
    assert_eq!(block.find_unused_symbols().len(), 0);
    assert_eq!(block.parent().unwrap().find_unused_symbols().len(), 1);
    assert!(!block.mark_symbol_used("nothing"));
    assert_eq!(block.get_all_symbols().len(), 1);
}

#[test]
fn parser_context_scopes() {
    let mut ctx = ParserContext::new("let x = 1", Some("f.pr".to_string()));
    assert_eq!(ctx.scope_depth(), 0);
    assert!(ctx.add_symbol(variable("x")));
    ctx.enter_scope(ScopeKind::Function);
    assert_eq!(ctx.scope_depth(), 1);
    assert_eq!(ctx.current_scope_kind(), ScopeKind::Function);
    assert!(ctx.lookup_symbol("x").is_some());
    assert!(ctx.add_symbol(variable("y")));
    assert!(ctx.mark_symbol_used("x"));
    assert_eq!(ctx.find_unused_symbols().len(), 1);
    ctx.exit_scope();
    assert_eq!(ctx.scope_depth(), 0);
    assert_eq!(ctx.current_scope_kind(), ScopeKind::Global);
    assert!(ctx.lookup_symbol("y").is_none());
    assert_eq!(ctx.find_unused_symbols().len(), 0);
    ctx.exit_scope();
    assert_eq!(ctx.scope_depth(), 0);
    assert!(register_type_symbol(&mut ctx, "Point", TypeKind::Struct, vec![], Span { start: 0, end: 1, line: 1, column: 1 }));
    assert_eq!(ctx.find_symbols_by_kind(SymbolKind::Type).len(), 1);
    let span = ctx.calculate_span(&"let x = 1"[4..]);
    assert_eq!(span, Span { start: 3, end: 4, line: 1, column: 4 });
}

#[test]
fn scope_depth_follows_entries_and_exits() {
    let mut ctx = ParserContext::new("", None);
    ctx.enter_scope(ScopeKind::Module);
    ctx.enter_scope(ScopeKind::Function);
    ctx.enter_scope(ScopeKind::Block);
    assert_eq!(ctx.scope_depth(), 3);
    ctx.exit_scope();
    assert_eq!(ctx.scope_depth(), 2);
    ctx.exit_scope();
    ctx.exit_scope();
    assert_eq!(ctx.scope_depth(), 0);
}

#[test]
fn exit_restores_lookups_after_adds() {
    let mut ctx = ParserContext::new("", None);
    assert!(ctx.add_symbol(variable("x")));
    ctx.enter_scope(ScopeKind::Block);
    assert!(ctx.add_symbol(variable("y")));
    assert!(ctx.add_symbol(variable("z")));
    assert!(ctx.add_symbol(variable("x")));
    ctx.exit_scope();
    assert!(ctx.lookup_symbol("x").is_some());
    assert!(ctx.lookup_symbol("y").is_none());
    assert!(ctx.lookup_symbol("z").is_none());
}

#[test]
fn marking_changes_only_the_marked_symbol() {
    let mut table = SymbolTable::new(ScopeKind::Global);
    assert!(table.add_symbol(variable("x")));
    assert!(table.add_symbol(variable("y")));
    assert!(table.mark_symbol_used("x"));
    assert!(table.mark_symbol_used("x"));
    assert!(table.lookup_symbol("x").unwrap().is_used);
    assert!(!table.lookup_symbol("y").unwrap().is_used);
    assert!(!table.mark_symbol_used("w"));
    assert_eq!(table.find_unused_symbols().len(), 1);
    assert_eq!(table.get_all_symbols().len(), 2);
}

#[test]
fn kinds_partition_all_symbols() {
    let mut table = SymbolTable::new(ScopeKind::Global);
    assert!(table.add_symbol(variable("x")));
    let mut f = variable("f");
    f.kind = SymbolKind::Function;
    assert!(table.add_symbol(f));
    let mut p = variable("p");
    p.kind = SymbolKind::Parameter;
    assert!(table.add_symbol(p));
    let total = table.find_symbols_by_kind(SymbolKind::Variable).len()
        + table.find_symbols_by_kind(SymbolKind::Function).len()
        + table.find_symbols_by_kind(SymbolKind::Type).len()
        + table.find_symbols_by_kind(SymbolKind::Parameter).len();
    assert_eq!(total, table.get_all_symbols().len());
    assert_eq!(table.find_unused_symbols().len(), 3);
}
