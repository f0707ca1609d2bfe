//! Modules: imports, exports and the items of a module body.
use vstd::prelude::*;
use crate::ast::{Module, ExportDecl, ImportDecl, ImportItem, Decl, Pattern, TypeDecl, TraitDecl, ImplDecl};
use crate::parser::common::{
    Expected, ParseFailure, Parsed, failure_outcome, one_more, with_prefix, lemma_prefix_more, forward, ws_byte, ws_byte_at, ws_end,
    ws_comments, ws_lit, keyword, ws_ident, ws_identifier, ident_at, identifier_string,
    ascii_text, span_at, span_of, miss, fail, is_miss, lemma_ws_end, lit_at,
};
use crate::parser::keywords as kw;
use crate::parser::expressions::missed;
use crate::parser::declarations::{
    DeclKind, TypeDeclKind, parse_declaration_at, parse_declaration, type_declaration_at,
    parse_type_declaration, trait_declaration_at, parse_trait_declaration, impl_declaration_at,
    parse_impl_declaration, decl_outcome, type_decl_outcome,
    decl_kind, type_decl_kind, trait_kind, impl_kind,
};
use crate::ast::{TypeModel, Span};
use crate::parser::patterns::PatternKind;

verus! {

/// What an import is: selective, with the module's name and the imported names with
/// their aliases and spans, or of a whole module, with its name and alias; each with
/// its span.
pub enum ImportKind {
    Selective(Seq<char>, Seq<(Seq<char>, Option<Seq<char>>, Span)>, Span),
    Whole(Seq<char>, Seq<char>, Span),
}

/// An imported name, its alias and its span.
pub open spec fn import_item_kind(it: ImportItem) -> (Seq<char>, Option<Seq<char>>, Span) {
    (
        it.name@,
        match it.alias {
            Some(a) => Some(a@),
            None => None,
        },
        it.span,
    )
}

/// The imported names and aliases of a selective import.
pub open spec fn import_item_kinds(its: Seq<ImportItem>) -> Seq<(Seq<char>, Option<Seq<char>>, Span)> {
    Seq::new(its.len(), |i: int| import_item_kind(its[i]))
}

/// The kind of an import.
pub open spec fn import_kind(d: ImportDecl) -> ImportKind {
    match d {
        ImportDecl::Selective { module_name, imports, span } => ImportKind::Selective(
            module_name@,
            import_item_kinds(imports@),
            span,
        ),
        ImportDecl::Module { module_name, alias, span } => ImportKind::Whole(module_name@, alias@, span),
    }
}

/// The texts of a sequence of strings.
pub open spec fn string_views(ns: Seq<String>) -> Seq<Seq<char>> {
    Seq::new(ns.len(), |i: int| ns[i]@)
}

/// What an export is: one name, or a group of names; each with its span.
pub enum ExportKind {
    Single(Seq<char>, Span),
    Group(Seq<Seq<char>>, Span),
}

/// The kind of an export.
pub open spec fn export_kind(x: ExportDecl) -> ExportKind {
    match x {
        ExportDecl::Single { name, span } => ExportKind::Single(name@, span),
        ExportDecl::Group { names, span } => ExportKind::Group(string_views(names@), span),
    }
}

/// The export of an exported declaration: the name of a `let` of a name or of a `var`,
/// with the declaration's span.
pub open spec fn decl_export(d: DeclKind) -> Option<ExportKind> {
    match d {
        DeclKind::Let(PatternKind::Identifier(n, _), _, _, sp) => Some(ExportKind::Single(n, sp)),
        DeclKind::Var(n, _, _, sp) => Some(ExportKind::Single(n, sp)),
        _ => None,
    }
}

/// The name of a type declaration.
pub open spec fn type_decl_name(t: TypeDeclKind) -> Seq<char> {
    match t {
        TypeDeclKind::Record(n, _, _, _) => n,
        TypeDeclKind::Enum(n, _, _, _) => n,
        TypeDeclKind::Alias(n, _, _, _) => n,
    }
}

/// The span of a type declaration.
pub open spec fn type_decl_span(t: TypeDeclKind) -> Span {
    match t {
        TypeDeclKind::Record(_, _, _, sp) => sp,
        TypeDeclKind::Enum(_, _, _, sp) => sp,
        TypeDeclKind::Alias(_, _, _, sp) => sp,
    }
}

/// What a module is: its name, imports, exports, and declarations of every kind, each
/// list in the order of the module body, how many expressions it holds, and its span.
pub struct ModuleModel {
    pub path: Seq<char>,
    pub imports: Seq<ImportKind>,
    pub exports: Seq<ExportKind>,
    pub declarations: Seq<DeclKind>,
    pub type_declarations: Seq<TypeDeclKind>,
    pub trait_declarations: Seq<(Seq<char>, Seq<(Seq<char>, Option<TypeModel>, Span)>, Option<TypeModel>, Seq<DeclKind>, Span)>,
    pub impl_declarations: Seq<(Seq<(Seq<char>, Option<TypeModel>, Span)>, TypeModel, TypeModel, Seq<DeclKind>, Span)>,
    pub expressions: nat,
    pub span: Span,
}

/// The model of a module.
pub open spec fn module_model(m: Module) -> ModuleModel {
    ModuleModel {
        path: m.path@,
        imports: m.imports@.map_values(|d: ImportDecl| import_kind(d)),
        exports: m.exports@.map_values(|x: ExportDecl| export_kind(x)),
        declarations: m.declarations@.map_values(|d: Decl| decl_kind(d)),
        type_declarations: m.type_declarations@.map_values(|d: TypeDecl| type_decl_kind(d)),
        trait_declarations: m.trait_declarations@.map_values(|t: TraitDecl| trait_kind(t)),
        impl_declarations: m.impl_declarations@.map_values(|t: ImplDecl| impl_kind(t)),
        expressions: m.expressions@.len(),
        span: m.span,
    }
}

/// A module's model with one more item of its body: an import is added to the imports,
/// a group of names to the exports, and a declaration to the declarations of its kind,
/// after the export of its name when it is exported.
pub open spec fn add_module_item(m: ModuleModel, k: ModuleItemKind) -> ModuleModel {
    match k {
        ModuleItemKind::Import(i) => ModuleModel { imports: m.imports.push(i), ..m },
        ModuleItemKind::ExportGroup(ns, sp) => ModuleModel { exports: m.exports.push(ExportKind::Group(ns, sp)), ..m },
        ModuleItemKind::Declaration(x, d) => ModuleModel {
            exports: if x && decl_export(d) is Some {
                m.exports.push(decl_export(d)->0)
            } else {
                m.exports
            },
            declarations: m.declarations.push(d),
            ..m
        },
        ModuleItemKind::TypeDeclaration(x, t) => ModuleModel {
            exports: if x { m.exports.push(ExportKind::Single(type_decl_name(t), type_decl_span(t))) } else { m.exports },
            type_declarations: m.type_declarations.push(t),
            ..m
        },
        ModuleItemKind::TraitDeclaration(x, t) => ModuleModel {
            exports: if x { m.exports.push(ExportKind::Single(t.0, t.4)) } else { m.exports },
            trait_declarations: m.trait_declarations.push(t),
            ..m
        },
        ModuleItemKind::Impl(t) => ModuleModel { impl_declarations: m.impl_declarations.push(t), ..m },
    }
}

/// The model of a module with the given name, body items, taken in order, and span.
pub open spec fn module_model_of(path: Seq<char>, ks: Seq<ModuleItemKind>, span: Span) -> ModuleModel
    decreases ks.len(),
{
    if ks.len() == 0 {
        ModuleModel {
            path,
            imports: Seq::empty(),
            exports: Seq::empty(),
            declarations: Seq::empty(),
            type_declarations: Seq::empty(),
            trait_declarations: Seq::empty(),
            impl_declarations: Seq::empty(),
            expressions: 0,
            span,
        }
    } else {
        add_module_item(module_model_of(path, ks.drop_last(), span), ks.last())
    }
}

/// Whether an item of a module body adds an export: an export group, and a declaration,
/// type declaration or trait written with `export` (a declaration only when it binds a
/// name).
pub open spec fn exports_something(k: ModuleItemKind) -> bool {
    match k {
        ModuleItemKind::ExportGroup(_, _) => true,
        ModuleItemKind::Declaration(x, d) => x && decl_export(d) is Some,
        ModuleItemKind::TypeDeclaration(x, _) => x,
        ModuleItemKind::TraitDeclaration(x, _) => x,
        _ => false,
    }
}

/// The number of items that add an export.
pub open spec fn export_count(ks: Seq<ModuleItemKind>) -> nat
    decreases ks.len(),
{
    if ks.len() == 0 {
        0
    } else {
        export_count(ks.drop_last()) + if exports_something(ks.last()) { 1nat } else { 0nat }
    }
}

/// A module exports, in body order, one entry for each item written with `export` and
/// each export group: an exported type declaration or trait by its name and span, an
/// exported `let` of a name or `var` by that name and the declaration's span, and a
/// group with its names; nothing else is exported.
pub proof fn law_module_exports(path: Seq<char>, ks: Seq<ModuleItemKind>, sp: Span)
    ensures
        module_model_of(path, ks, sp).exports.len() == export_count(ks),
        forall|i: int| 0 <= i < ks.len() ==> (#[trigger] ks[i] matches ModuleItemKind::TypeDeclaration(true, t)
            ==> module_model_of(path, ks, sp).exports[export_count(ks.take(i)) as int]
            == ExportKind::Single(type_decl_name(t), type_decl_span(t))),
        forall|i: int| 0 <= i < ks.len() ==> (#[trigger] ks[i] matches ModuleItemKind::TraitDeclaration(true, t)
            ==> module_model_of(path, ks, sp).exports[export_count(ks.take(i)) as int]
            == ExportKind::Single(t.0, t.4)),
        forall|i: int| 0 <= i < ks.len() ==> (#[trigger] ks[i] matches ModuleItemKind::ExportGroup(ns, gs)
            ==> module_model_of(path, ks, sp).exports[export_count(ks.take(i)) as int]
            == ExportKind::Group(ns, gs)),
        forall|i: int| 0 <= i < ks.len() ==> (#[trigger] ks[i] matches ModuleItemKind::Declaration(true, d)
            ==> (d matches DeclKind::Let(PatternKind::Identifier(n, _), _, _, dsp)
            ==> module_model_of(path, ks, sp).exports[export_count(ks.take(i)) as int]
            == ExportKind::Single(n, dsp))
            && (d matches DeclKind::Var(n, _, _, dsp)
            ==> module_model_of(path, ks, sp).exports[export_count(ks.take(i)) as int]
            == ExportKind::Single(n, dsp))),
    decreases ks.len(),
{
    if ks.len() > 0 {
        let init = ks.drop_last();
        law_module_exports(path, init, sp);
        let m0 = module_model_of(path, init, sp);
        let m = module_model_of(path, ks, sp);
        let n = ks.len() - 1;
        assert forall|i: int| 0 <= i < n implies #[trigger] ks.take(i) == init.take(i) by {
            assert(ks.take(i) =~= init.take(i));
        }
        assert(ks.take(n) =~= init);
        assert(m.exports.len() >= m0.exports.len());
        assert forall|j: int| 0 <= j < m0.exports.len() implies #[trigger] m.exports[j] == m0.exports[j] by {}
        assert forall|i: int| 0 <= i < n implies #[trigger] ks[i] == init[i] by {}
        lemma_export_count_bound(init);
        assert forall|i: int| 0 <= i < n && exports_something(ks[i]) implies export_count(ks.take(i)) < m0.exports.len() by {
            lemma_export_count_prefix(init, i);
        }
    }
}

/// Counting over a prefix: an exporting item before the end is counted below the total.
proof fn lemma_export_count_prefix(ks: Seq<ModuleItemKind>, i: int)
    requires
        0 <= i < ks.len(),
        exports_something(ks[i]),
    ensures
        export_count(ks.take(i)) < export_count(ks),
    decreases ks.len(),
{
    let n = ks.len() - 1;
    assert(ks.take(n) =~= ks.drop_last());
    if i == n {
        assert(ks.take(i) =~= ks.drop_last());
    } else {
        assert(ks.drop_last().take(i) =~= ks.take(i));
        assert(ks.drop_last()[i] == ks[i]);
        lemma_export_count_prefix(ks.drop_last(), i);
    }
}

/// The count of a sequence is at least that of any prefix.
proof fn lemma_export_count_bound(ks: Seq<ModuleItemKind>)
    ensures
        export_count(ks) <= ks.len(),
    decreases ks.len(),
{
    if ks.len() > 0 {
        lemma_export_count_bound(ks.drop_last());
    }
}

/// Whether a module item is a declaration, type declaration or trait marked exported.
pub open spec fn marked_exported(k: ModuleItemKind) -> bool {
    match k {
        ModuleItemKind::Declaration(x, _) => x,
        ModuleItemKind::TypeDeclaration(x, _) => x,
        ModuleItemKind::TraitDeclaration(x, _) => x,
        _ => false,
    }
}

/// A declaration is exported exactly when it is written after `export`: an item that
/// does not start with `export` is never marked exported, and a declaration, type
/// declaration or trait after `export` (not an export group) is read as that item
/// marked exported.
pub proof fn law_module_export_flag(s: Seq<u8>, p: int)
    requires
        0 <= p <= s.len(),
    ensures
        ws_lit(s, p, kw::lit_export()) is None ==> (module_item_at(s, p) matches Parsed::Done(_, k)
            ==> !marked_exported(k)),
        ws_lit(s, p, kw::lit_export()) matches Some(q) ==> (ws_byte(s, q, 123u8) is None
            ==> (module_decl_at(s, q, true, false) matches Parsed::Done(e, k) ==> module_item_at(s, p)
            == Parsed::Done(e, k) && (k is Declaration || k is TypeDeclaration || k is TraitDeclaration)
            && marked_exported(k))),
{
    reveal_with_fuel(module_item_at, 1);
    reveal_with_fuel(import_at, 1);
    lemma_ws_end(s, p);
    let w = ws_end(s, p);
    if ws_lit(s, p, kw::lit_export()) is Some {
        assert(s.subrange(w, w + 6)[0] == s[w]);
        assert(!lit_at(s, w, kw::lit_import())) by {
            if lit_at(s, w, kw::lit_import()) {
                assert(s.subrange(w, w + 6)[0] == s[w]);
            }
        }
    }
}

/// name (`as` name)?: an item of a selective import, its name and alias.
#[verifier::opaque]
pub open spec fn import_item_at(s: Seq<u8>, p: int) -> Parsed<(Seq<char>, Option<Seq<char>>, Span)> {
    match ws_ident(s, p) {
        None => Parsed::Failed(false, ws_end(s, p), Expected::Keyword),
        Some((a, b, c)) => match ws_lit(s, c, kw::lit_as()) {
            None => Parsed::Done(c, (ascii_text(s.subrange(a, b)), None, span_of(s, c))),
            Some(q) => match ws_ident(s, q) {
                None => Parsed::Done(c, (ascii_text(s.subrange(a, b)), None, span_of(s, c))),
                Some((a2, b2, e)) => Parsed::Done(e, (ascii_text(s.subrange(a, b)), Some(ascii_text(s.subrange(a2, b2))), span_of(s, e))),
            },
        },
    }
}

/// Import items, each followed by an optional `,`: their names and aliases.
#[verifier::opaque]
pub open spec fn import_items_at(s: Seq<u8>, p: int) -> Parsed<Seq<(Seq<char>, Option<Seq<char>>, Span)>>
    decreases s.len() - p,
{
    match import_item_at(s, p) {
        Parsed::Failed(_, _, _) => Parsed::Done(p, Seq::empty()),
        Parsed::Done(e, k) => {
            let e2 = crate::parser::expressions::opt_comma(s, e);
            if forward(s, p, e2) {
                one_more(k, import_items_at(s, e2))
            } else {
                Parsed::Done(e2, seq![k])
            }
        },
    }
}

/// `"` name `"`: a module name in quotes.
pub open spec fn quoted_name_at(s: Seq<u8>, p: int) -> Parsed<Seq<char>> {
    match ws_byte(s, p, 34u8) {
        None => Parsed::Failed(false, ws_end(s, p), Expected::Char(34u8)),
        Some(q) => match ident_at(s, q) {
            None => Parsed::Failed(false, q, Expected::Keyword),
            Some(b) => match ws_byte(s, b, 34u8) {
                None => Parsed::Failed(false, ws_end(s, b), Expected::Char(34u8)),
                Some(e) => Parsed::Done(e, ascii_text(s.subrange(q, b))),
            },
        },
    }
}

/// `import` `{` items `}` `from` `"` name `"`, or `import` `"` name `"` `as` name.
/// Once `{` is read, a missing `}` is final.
#[verifier::opaque]
pub open spec fn import_at(s: Seq<u8>, p: int) -> Parsed<ImportKind> {
    match ws_lit(s, p, kw::lit_import()) {
        None => Parsed::Failed(false, ws_end(s, p), Expected::Keyword),
        Some(q) => {
            let selective: Parsed<ImportKind> = match ws_lit(s, q, kw::lit_lbrace()) {
                None => Parsed::Failed(false, ws_end(s, q), Expected::Keyword),
                Some(q2) => match import_items_at(s, q2) {
                    Parsed::Failed(fatal, x, k) => Parsed::Failed(fatal, x, k),
                    Parsed::Done(e, its) => match ws_byte(s, e, 125u8) {
                        None => Parsed::Failed(true, ws_end(s, e), Expected::Char(125u8)),
                        Some(e2) => match ws_lit(s, e2, kw::lit_from()) {
                            None => Parsed::Failed(false, ws_end(s, e2), Expected::Keyword),
                            Some(q3) => match quoted_name_at(s, q3) {
                                Parsed::Failed(fatal, x, k) => Parsed::Failed(fatal, x, k),
                                Parsed::Done(f, name) => Parsed::Done(f, ImportKind::Selective(name, its, span_of(s, f))),
                            },
                        },
                    },
                },
            };
            if !missed(selective) {
                selective
            } else {
                match quoted_name_at(s, q) {
                    Parsed::Failed(fatal, x, k) => Parsed::Failed(fatal, x, k),
                    Parsed::Done(e, name) => match ws_lit(s, e, kw::lit_as()) {
                        None => Parsed::Failed(false, ws_end(s, e), Expected::Keyword),
                        Some(q4) => match ws_ident(s, q4) {
                            None => Parsed::Failed(false, ws_end(s, q4), Expected::Keyword),
                            Some((a, b, c)) => Parsed::Done(c, ImportKind::Whole(name, ascii_text(s.subrange(a, b)), span_of(s, c))),
                        },
                    },
                }
            }
        },
    }
}

/// What an item of a module body is.
pub enum ModuleItemKind {
    Import(ImportKind),
    ExportGroup(Seq<Seq<char>>, Span),
    Declaration(bool, DeclKind),
    TypeDeclaration(bool, TypeDeclKind),
    TraitDeclaration(bool, (Seq<char>, Seq<(Seq<char>, Option<TypeModel>, Span)>, Option<TypeModel>, Seq<DeclKind>, Span)),
    Impl((Seq<(Seq<char>, Option<TypeModel>, Span)>, TypeModel, TypeModel, Seq<DeclKind>, Span)),
}

/// Names, each followed by an optional `,`: the names.
#[verifier::opaque]
pub open spec fn export_names_at(s: Seq<u8>, p: int) -> Parsed<Seq<Seq<char>>>
    decreases s.len() - p,
{
    match ws_ident(s, p) {
        None => Parsed::Done(p, Seq::empty()),
        Some((a, b, c)) => {
            let e2 = crate::parser::expressions::opt_comma(s, c);
            if forward(s, p, e2) {
                one_more(ascii_text(s.subrange(a, b)), export_names_at(s, e2))
            } else {
                Parsed::Done(e2, seq![ascii_text(s.subrange(a, b))])
            }
        },
    }
}

/// The item `f` reads at the position after white space, followed by white space.
pub open spec fn spaced<T>(s: Seq<u8>, r: Parsed<T>) -> Parsed<T> {
    match r {
        Parsed::Done(e, v) => Parsed::Done(ws_end(s, e), v),
        Parsed::Failed(fatal, x, k) => Parsed::Failed(fatal, x, k),
    }
}

/// A declaration, a type declaration, a trait or (when `with_impl`) an implementation,
/// with white space around it: the first that reads one.
pub open spec fn module_decl_at(s: Seq<u8>, p: int, exported: bool, with_impl: bool) -> Parsed<ModuleItemKind> {
    let q = ws_end(s, p);
    match spaced(s, parse_declaration_at(s, q)) {
        Parsed::Done(e, k) => Parsed::Done(e, ModuleItemKind::Declaration(exported, k)),
        Parsed::Failed(true, x, k) => Parsed::Failed(true, x, k),
        Parsed::Failed(false, x1, k1) => match spaced(s, type_declaration_at(s, q)) {
            Parsed::Done(e, k) => Parsed::Done(e, ModuleItemKind::TypeDeclaration(exported, k)),
            Parsed::Failed(true, x, k) => Parsed::Failed(true, x, k),
            Parsed::Failed(false, x2, k2) => match spaced(s, trait_declaration_at(s, q)) {
                Parsed::Done(e, k) => Parsed::Done(e, ModuleItemKind::TraitDeclaration(exported, k)),
                Parsed::Failed(true, x, k) => Parsed::Failed(true, x, k),
                Parsed::Failed(false, x3, k3) => if with_impl {
                    match spaced(s, impl_declaration_at(s, q)) {
                        Parsed::Done(e, k) => Parsed::Done(e, ModuleItemKind::Impl(k)),
                        Parsed::Failed(fatal, x, k) => Parsed::Failed(fatal, x, k),
                    }
                } else {
                    Parsed::Failed(false, x3, k3)
                },
            },
        },
    }
}

/// An item of a module body: an import, `export` `{` names `}`, `export` and a
/// declaration, or a declaration; the first that reads one.
#[verifier::opaque]
pub open spec fn module_item_at(s: Seq<u8>, p: int) -> Parsed<ModuleItemKind> {
    match spaced(s, import_at(s, ws_end(s, p))) {
        Parsed::Done(e, k) => Parsed::Done(e, ModuleItemKind::Import(k)),
        Parsed::Failed(true, x, k) => Parsed::Failed(true, x, k),
        Parsed::Failed(false, _, _) => {
            let group: Parsed<ModuleItemKind> = match ws_lit(s, p, kw::lit_export()) {
                None => Parsed::Failed(false, ws_end(s, p), Expected::Keyword),
                Some(q) => match ws_byte(s, q, 123u8) {
                    None => Parsed::Failed(false, ws_end(s, q), Expected::Char(123u8)),
                    Some(q2) => match export_names_at(s, q2) {
                        Parsed::Failed(fatal, x, k) => Parsed::Failed(fatal, x, k),
                        Parsed::Done(e, ns) => match ws_byte(s, e, 125u8) {
                            None => Parsed::Failed(true, ws_end(s, e), Expected::Char(125u8)),
                            Some(f) => Parsed::Done(f, ModuleItemKind::ExportGroup(ns, span_of(s, p))),
                        },
                    },
                },
            };
            if !missed(group) {
                group
            } else {
                let exported: Parsed<ModuleItemKind> = match ws_lit(s, p, kw::lit_export()) {
                    None => Parsed::Failed(false, ws_end(s, p), Expected::Keyword),
                    Some(q) => module_decl_at(s, q, true, false),
                };
                if !missed(exported) {
                    exported
                } else {
                    module_decl_at(s, p, false, true)
                }
            }
        },
    }
}

/// The items of a module body, up to its `}`: their kinds, and the position of `}`. The
/// end of the input before `}` is a failure.
#[verifier::opaque]
pub open spec fn module_items_at(s: Seq<u8>, p: int) -> Parsed<Seq<ModuleItemKind>>
    decreases s.len() - p,
{
    let n = ws_end(s, p);
    if !(p <= n && n <= s.len()) {
        Parsed::Failed(false, n, Expected::ModuleBodyEnd)
    } else if n < s.len() && s[n] == 125u8 {
        Parsed::Done(n, Seq::empty())
    } else if n >= s.len() {
        Parsed::Failed(false, n, Expected::ModuleBodyEnd)
    } else {
        match module_item_at(s, n) {
            Parsed::Failed(fatal, x, k) => Parsed::Failed(fatal, x, k),
            Parsed::Done(e, k) => if forward(s, p, e) {
                one_more(k, module_items_at(s, e))
            } else {
                Parsed::Failed(false, e, Expected::ModuleBodyEnd)
            },
        }
    }
}

/// `module` name `{` items `}`: its name, the kinds of its items and its span.
#[verifier::opaque]
pub open spec fn module_at(s: Seq<u8>, p: int) -> Parsed<(Seq<char>, Seq<ModuleItemKind>, Span)> {
    match ws_lit(s, p, kw::lit_module()) {
        None => Parsed::Failed(false, ws_end(s, p), Expected::Keyword),
        Some(q) => match ws_ident(s, q) {
            None => Parsed::Failed(false, ws_end(s, q), Expected::Keyword),
            Some((a, b, c)) => match ws_byte(s, c, 123u8) {
                None => Parsed::Failed(false, ws_end(s, c), Expected::Char(123u8)),
                Some(q2) => match module_items_at(s, q2) {
                    Parsed::Failed(fatal, x, k) => Parsed::Failed(fatal, x, k),
                    Parsed::Done(e, ks) => match ws_byte(s, e, 125u8) {
                        None => Parsed::Failed(true, ws_end(s, e), Expected::Char(125u8)),
                        Some(f) => Parsed::Done(f, (ascii_text(s.subrange(a, b)), ks, span_of(s, f))),
                    },
                },
            },
        },
    }
}

/// The outcome of a function that reads an item of a selective import.
pub open spec fn import_item_outcome(r: Result<(usize, ImportItem), ParseFailure>) -> Parsed<(Seq<char>, Option<Seq<char>>, Span)> {
    match r {
        Ok((e, it)) => Parsed::Done(e as int, import_item_kind(it)),
        Err(f) => failure_outcome(f),
    }
}

/// The imported names with one more.
pub proof fn lemma_import_item_kinds_push(its: Seq<ImportItem>, x: ImportItem)
    ensures
        import_item_kinds(its.push(x)) == import_item_kinds(its).push(import_item_kind(x)),
{
    assert(import_item_kinds(its.push(x)) =~= import_item_kinds(its).push(import_item_kind(x)));
}

/// The texts of strings with one more.
pub proof fn lemma_string_views_push(ns: Seq<String>, x: String)
    ensures
        string_views(ns.push(x)) == string_views(ns).push(x@),
{
    assert(string_views(ns.push(x)) =~= string_views(ns).push(x@));
}

/// A module's model with one more item, from the items taken in order.
pub proof fn lemma_module_model_step(path: Seq<char>, ks: Seq<ModuleItemKind>, span: Span, i: int)
    requires
        0 <= i < ks.len(),
    ensures
        module_model_of(path, ks.take(i + 1), span) == add_module_item(module_model_of(path, ks.take(i), span), ks[i]),
{
    assert(ks.take(i + 1).drop_last() =~= ks.take(i));
}

// ---------------------------------------------------------------------------
// The parsing functions.
// ---------------------------------------------------------------------------

/// An item of a selective import.
fn parse_import_item(input: &[u8], pos: usize) -> (r: Result<(usize, ImportItem), ParseFailure>)
    requires
        pos <= input@.len(),
    ensures
        import_item_outcome(r) == import_item_at(input@, pos as int),
        r matches Ok((e, _)) ==> pos < e <= input@.len(),
        r matches Err(f) ==> f.pos <= input@.len(),
{
    proof {
        reveal_with_fuel(import_item_at, 1);
        lemma_ws_end(input@, pos as int);
    }
    let (c, name) = match ws_identifier(input, pos) {
        None => {
            return Err(miss(ws_comments(input, pos), Expected::Keyword));
        },
        Some(v) => v,
    };
    let (e, alias): (usize, Option<String>) = match keyword(input, c, &kw::kw_as()) {
        None => (c, None),
        Some(q) => match ws_identifier(input, q) {
            None => (c, None),
            Some((e, a)) => (e, Some(a)),
        },
    };
    Ok((e, ImportItem { name, alias, span: span_at(input, e) }))
}

/// Import items, each followed by an optional `,`.
fn import_items(input: &[u8], pos: usize) -> (r: (usize, Vec<ImportItem>))
    requires
        pos <= input@.len(),
    ensures
        import_items_at(input@, pos as int) == Parsed::Done(r.0 as int, import_item_kinds(r.1@)),
        pos <= r.0 <= input@.len(),
{
    let mut items: Vec<ImportItem> = Vec::new();
    let mut cur = pos;
    loop
        invariant
            pos <= cur <= input@.len(),
            import_items_at(input@, pos as int) == with_prefix(import_item_kinds(items@), import_items_at(input@, cur as int)),
        decreases input@.len() - cur,
    {
        proof {
            reveal_with_fuel(import_items_at, 1);
            assert(import_item_kinds(items@) + Seq::empty() =~= import_item_kinds(items@));
        }
        match parse_import_item(input, cur) {
            Err(_) => {
                return (cur, items);
            },
            Ok((e, item)) => {
                let ghost items0 = items@;
                items.push(item);
                let next = match ws_byte_at(input, e, 44u8) {
                    Some(q) => q,
                    None => e,
                };
                proof {
                    lemma_import_item_kinds_push(items0, items@.last());
                    assert(items@ =~= items0.push(items@.last()));
                    lemma_prefix_more(import_item_kinds(items0), import_item_kind(items@.last()), import_items_at(input@, next as int));
                }
                cur = next;
            },
        }
    }
}

/// `"` name `"`.
fn quoted_name(input: &[u8], pos: usize) -> (r: Result<(usize, String), ParseFailure>)
    requires
        pos <= input@.len(),
    ensures
        match r {
            Ok((e, name)) => quoted_name_at(input@, pos as int) == Parsed::Done(e as int, name@),
            Err(f) => quoted_name_at(input@, pos as int) == failure_outcome::<Seq<char>>(f),
        },
        r matches Ok((e, _)) ==> pos < e <= input@.len(),
        r matches Err(f) ==> f.pos <= input@.len(),
{
    proof {
        lemma_ws_end(input@, pos as int);
    }
    let q = match ws_byte_at(input, pos, 34u8) {
        None => {
            return Err(miss(ws_comments(input, pos), Expected::Char(34u8)));
        },
        Some(q) => q,
    };
    let (b, name) = match identifier_string(input, q) {
        None => {
            return Err(miss(q, Expected::Keyword));
        },
        Some(v) => v,
    };
    proof {
        lemma_ws_end(input@, b as int);
    }
    match ws_byte_at(input, b, 34u8) {
        None => Err(miss(ws_comments(input, b), Expected::Char(34u8))),
        Some(e) => Ok((e, name)),
    }
}

/// The outcome of a function that reads an import.
pub open spec fn import_outcome(r: Result<(usize, ImportDecl), ParseFailure>) -> Parsed<ImportKind> {
    match r {
        Ok((e, d)) => Parsed::Done(e as int, import_kind(d)),
        Err(f) => failure_outcome(f),
    }
}

/// An import: selective or of a whole module.
pub fn parse_import(input: &[u8], pos: usize) -> (r: Result<(usize, ImportDecl), ParseFailure>)
    requires
        pos <= input@.len(),
    ensures
        import_outcome(r) == import_at(input@, pos as int),
        r matches Ok((e, _)) ==> pos < e <= input@.len(),
        r matches Err(f) ==> f.pos <= input@.len(),
{
    proof {
        reveal_with_fuel(import_at, 1);
        lemma_ws_end(input@, pos as int);
    }
    let q = match keyword(input, pos, &kw::kw_import()) {
        None => {
            return Err(miss(ws_comments(input, pos), Expected::Keyword));
        },
        Some(q) => q,
    };
    proof {
        lemma_ws_end(input@, q as int);
    }
    let selective: Result<(usize, ImportDecl), ParseFailure> = match keyword(input, q, &kw::kw_lbrace()) {
        None => Err(miss(ws_comments(input, q), Expected::Keyword)),
        Some(q2) => {
            let (e, imports) = import_items(input, q2);
            proof {
                lemma_ws_end(input@, e as int);
            }
            match ws_byte_at(input, e, 125u8) {
                None => Err(fail(ws_comments(input, e), Expected::Char(125u8))),
                Some(e2) => {
                    proof {
                        lemma_ws_end(input@, e2 as int);
                    }
                    match keyword(input, e2, &kw::kw_from()) {
                        None => Err(miss(ws_comments(input, e2), Expected::Keyword)),
                        Some(q3) => match quoted_name(input, q3) {
                            Err(f) => Err(f),
                            Ok((f, module_name)) => Ok((f, ImportDecl::Selective { module_name, imports, span: span_at(input, f) })),
                        },
                    }
                },
            }
        },
    };
    if !is_miss(&selective) {
        return selective;
    }
    let (e, module_name) = match quoted_name(input, q) {
        Err(f) => {
            return Err(f);
        },
        Ok(v) => v,
    };
    proof {
        lemma_ws_end(input@, e as int);
    }
    let q4 = match keyword(input, e, &kw::kw_as()) {
        None => {
            return Err(miss(ws_comments(input, e), Expected::Keyword));
        },
        Some(q4) => q4,
    };
    proof {
        lemma_ws_end(input@, q4 as int);
    }
    match ws_identifier(input, q4) {
        None => Err(miss(ws_comments(input, q4), Expected::Keyword)),
        Some((c, alias)) => Ok((c, ImportDecl::Module { module_name, alias, span: span_at(input, c) })),
    }
}

/// An item of a module body.
enum ModuleItem {
    Import(ImportDecl),
    ExportGroup { names: Vec<String>, span: crate::ast::Span },
    Declaration { decl: Decl, is_exported: bool },
    TypeDeclaration { decl: TypeDecl, is_exported: bool },
    TraitDeclaration { decl: TraitDecl, is_exported: bool },
    ImplDeclaration(ImplDecl),
}

/// The kind of a module item.
spec fn module_item_kind(m: ModuleItem) -> ModuleItemKind {
    match m {
        ModuleItem::Import(d) => ModuleItemKind::Import(import_kind(d)),
        ModuleItem::ExportGroup { names, span } => ModuleItemKind::ExportGroup(string_views(names@), span),
        ModuleItem::Declaration { decl, is_exported } => ModuleItemKind::Declaration(is_exported, decl_kind(decl)),
        ModuleItem::TypeDeclaration { decl, is_exported } => ModuleItemKind::TypeDeclaration(is_exported, type_decl_kind(decl)),
        ModuleItem::TraitDeclaration { decl, is_exported } => ModuleItemKind::TraitDeclaration(is_exported, trait_kind(decl)),
        ModuleItem::ImplDeclaration(d) => ModuleItemKind::Impl(impl_kind(d)),
    }
}

spec fn module_item_kinds(ms: Seq<ModuleItem>) -> Seq<ModuleItemKind> {
    Seq::new(ms.len(), |i: int| module_item_kind(ms[i]))
}

spec fn module_items_outcome(r: Result<(usize, Vec<ModuleItem>), ParseFailure>) -> Parsed<Seq<ModuleItemKind>> {
    match r {
        Ok((e, v)) => Parsed::Done(e as int, module_item_kinds(v@)),
        Err(f) => failure_outcome(f),
    }
}

proof fn lemma_module_item_kinds_push(ms: Seq<ModuleItem>, x: ModuleItem)
    ensures
        module_item_kinds(ms.push(x)) == module_item_kinds(ms).push(module_item_kind(x)),
{
    assert(module_item_kinds(ms.push(x)) =~= module_item_kinds(ms).push(module_item_kind(x)));
}

spec fn module_item_outcome(r: Result<(usize, ModuleItem), ParseFailure>) -> Parsed<ModuleItemKind> {
    match r {
        Ok((e, m)) => Parsed::Done(e as int, module_item_kind(m)),
        Err(f) => failure_outcome(f),
    }
}

/// Names, each followed by an optional `,`.
fn export_names(input: &[u8], pos: usize) -> (r: (usize, Vec<String>))
    requires
        pos <= input@.len(),
    ensures
        export_names_at(input@, pos as int) == Parsed::Done(r.0 as int, string_views(r.1@)),
        pos <= r.0 <= input@.len(),
{
    let mut names: Vec<String> = Vec::new();
    let mut cur = pos;
    loop
        invariant
            pos <= cur <= input@.len(),
            export_names_at(input@, pos as int) == with_prefix(string_views(names@), export_names_at(input@, cur as int)),
        decreases input@.len() - cur,
    {
        proof {
            reveal_with_fuel(export_names_at, 1);
            assert(string_views(names@) + Seq::empty() =~= string_views(names@));
        }
        match ws_identifier(input, cur) {
            None => {
                return (cur, names);
            },
            Some((c, name)) => {
                let ghost names0 = names@;
                names.push(name);
                let next = match ws_byte_at(input, c, 44u8) {
                    Some(q) => q,
                    None => c,
                };
                proof {
                    lemma_string_views_push(names0, names@.last());
                    assert(names@ =~= names0.push(names@.last()));
                    lemma_prefix_more(string_views(names0), names@.last()@, export_names_at(input@, next as int));
                }
                cur = next;
            },
        }
    }
}

/// A declaration, a type declaration, a trait or (when `with_impl`) an implementation.
fn module_decl(input: &[u8], pos: usize, exported: bool, with_impl: bool) -> (r: Result<(usize, ModuleItem), ParseFailure>)
    requires
        pos <= input@.len(),
    ensures
        module_item_outcome(r) == module_decl_at(input@, pos as int, exported, with_impl),
        r matches Ok((e, _)) ==> pos < e <= input@.len(),
        r matches Err(f) ==> f.pos <= input@.len(),
{
    proof {
        lemma_ws_end(input@, pos as int);
    }
    let q = ws_comments(input, pos);
    match parse_declaration(input, q) {
        Ok((e, decl)) => {
            proof {
                lemma_ws_end(input@, e as int);
            }
            return Ok((ws_comments(input, e), ModuleItem::Declaration { decl, is_exported: exported }));
        },
        Err(f) => if f.fatal {
            return Err(f);
        },
    }
    match parse_type_declaration(input, q) {
        Ok((e, decl)) => {
            proof {
                lemma_ws_end(input@, e as int);
            }
            return Ok((ws_comments(input, e), ModuleItem::TypeDeclaration { decl, is_exported: exported }));
        },
        Err(f) => if f.fatal {
            return Err(f);
        },
    }
    let trait_result = parse_trait_declaration(input, q);
    match trait_result {
        Ok((e, decl)) => {
            proof {
                lemma_ws_end(input@, e as int);
            }
            return Ok((ws_comments(input, e), ModuleItem::TraitDeclaration { decl, is_exported: exported }));
        },
        Err(f) => if f.fatal || !with_impl {
            return Err(f);
        },
    }
    match parse_impl_declaration(input, q) {
        Ok((e, decl)) => {
            proof {
                lemma_ws_end(input@, e as int);
            }
            Ok((ws_comments(input, e), ModuleItem::ImplDeclaration(decl)))
        },
        Err(f) => Err(f),
    }
}

/// An item of a module body.
fn parse_module_item(input: &[u8], pos: usize) -> (r: Result<(usize, ModuleItem), ParseFailure>)
    requires
        pos <= input@.len(),
    ensures
        module_item_outcome(r) == module_item_at(input@, pos as int),
        r matches Ok((e, _)) ==> pos < e <= input@.len(),
        r matches Err(f) ==> f.pos <= input@.len(),
{
    proof {
        reveal_with_fuel(module_item_at, 1);
        lemma_ws_end(input@, pos as int);
    }
    let q0 = ws_comments(input, pos);
    match parse_import(input, q0) {
        Ok((e, d)) => {
            proof {
                lemma_ws_end(input@, e as int);
            }
            return Ok((ws_comments(input, e), ModuleItem::Import(d)));
        },
        Err(f) => if f.fatal {
            return Err(f);
        },
    }
    match keyword(input, pos, &kw::kw_export()) {
        None => {},
        Some(q) => {
            proof {
                lemma_ws_end(input@, q as int);
            }
            match ws_byte_at(input, q, 123u8) {
                None => {},
                Some(q2) => {
                    let (e, names) = export_names(input, q2);
                    proof {
                        lemma_ws_end(input@, e as int);
                    }
                    match ws_byte_at(input, e, 125u8) {
                        None => {
                            return Err(fail(ws_comments(input, e), Expected::Char(125u8)));
                        },
                        Some(f) => {
                            return Ok((f, ModuleItem::ExportGroup { names, span: span_at(input, pos) }));
                        },
                    }
                },
            }
            let exported = module_decl(input, q, true, false);
            if !is_miss(&exported) {
                return exported;
            }
        },
    }
    module_decl(input, pos, false, true)
}

/// The items of a module body, up to its `}`.
fn module_items(input: &[u8], pos: usize) -> (r: Result<(usize, Vec<ModuleItem>), ParseFailure>)
    requires
        pos <= input@.len(),
    ensures
        module_items_outcome(r) == module_items_at(input@, pos as int),
        r matches Ok((e, _)) ==> pos <= e <= input@.len(),
        r matches Err(f) ==> f.pos <= input@.len(),
{
    let mut items: Vec<ModuleItem> = Vec::new();
    let mut cur = pos;
    loop
        invariant
            pos <= cur <= input@.len(),
            module_items_at(input@, pos as int) == with_prefix(module_item_kinds(items@), module_items_at(input@, cur as int)),
        decreases input@.len() - cur,
    {
        proof {
            reveal_with_fuel(module_items_at, 1);
            lemma_ws_end(input@, cur as int);
            assert(module_item_kinds(items@) + Seq::empty() =~= module_item_kinds(items@));
        }
        let n = ws_comments(input, cur);
        if n < input.len() && input[n] == 125u8 {
            return Ok((n, items));
        }
        if n >= input.len() {
            return Err(miss(n, Expected::ModuleBodyEnd));
        }
        match parse_module_item(input, n) {
            Err(f) => {
                return Err(f);
            },
            Ok((e, m)) => {
                let ghost items0 = items@;
                items.push(m);
                proof {
                    lemma_module_item_kinds_push(items0, items@.last());
                    assert(items@ =~= items0.push(items@.last()));
                    lemma_prefix_more(module_item_kinds(items0), module_item_kind(items@.last()), module_items_at(input@, e as int));
                }
                cur = e;
            },
        }
    }
}

/// The single export of an exported declaration: the name of a `let` of a name or of a
/// `var`, with the declaration's span; none for other patterns and for handlers.
fn declaration_export(decl: &Decl) -> (r: Option<ExportDecl>)
    ensures
        r matches Some(x) ==> decl_export(decl_kind(*decl)) == Some(export_kind(x)),
        r is None ==> decl_export(decl_kind(*decl)) is None,
{
    match decl {
        Decl::Let { pattern, span, .. } => match pattern {
            Pattern::Identifier(name, _) => Some(ExportDecl::Single { name: name.clone(), span: *span }),
            _ => None,
        },
        Decl::Var { name, span, .. } => Some(ExportDecl::Single { name: name.clone(), span: *span }),
        Decl::HandlerDecl(_) => None,
    }
}

/// `module` name `{` items `}`: the items are sorted into imports, exports and the
/// kinds of declarations; an exported declaration adds an export of its name.
pub fn parse_module(input: &[u8], pos: usize) -> (r: Result<(usize, Module), ParseFailure>)
    requires
        pos <= input@.len(),
    ensures
        match module_at(input@, pos as int) {
            Parsed::Done(e, (path, ks, sp)) => r matches Ok((x, m)) && x == e && module_model(m) == module_model_of(path, ks, sp),
            Parsed::Failed(fatal, x, k) => r matches Err(f) && failure_outcome::<()>(f) == Parsed::<()>::Failed(fatal, x, k),
        },
        r matches Ok((e, _)) ==> pos < e <= input@.len(),
        r matches Err(f) ==> f.pos <= input@.len(),
{
    proof {
        reveal_with_fuel(module_at, 1);
        lemma_ws_end(input@, pos as int);
    }
    let q = match keyword(input, pos, &kw::kw_module()) {
        None => {
            return Err(miss(ws_comments(input, pos), Expected::Keyword));
        },
        Some(q) => q,
    };
    proof {
        lemma_ws_end(input@, q as int);
    }
    let (c, path) = match ws_identifier(input, q) {
        None => {
            return Err(miss(ws_comments(input, q), Expected::Keyword));
        },
        Some(v) => v,
    };
    proof {
        lemma_ws_end(input@, c as int);
    }
    let q2 = match ws_byte_at(input, c, 123u8) {
        None => {
            return Err(miss(ws_comments(input, c), Expected::Char(123u8)));
        },
        Some(q2) => q2,
    };
    let (e, items) = match module_items(input, q2) {
        Err(f) => {
            return Err(f);
        },
        Ok(v) => v,
    };
    proof {
        lemma_ws_end(input@, e as int);
    }
    let f = match ws_byte_at(input, e, 125u8) {
        None => {
            return Err(fail(ws_comments(input, e), Expected::Char(125u8)));
        },
        Some(f) => f,
    };
    let ghost ks = module_item_kinds(items@);
    let ghost items0 = items@;
    let mut exports: Vec<ExportDecl> = Vec::new();
    let mut imports: Vec<ImportDecl> = Vec::new();
    let mut declarations: Vec<Decl> = Vec::new();
    let mut type_declarations: Vec<TypeDecl> = Vec::new();
    let mut trait_declarations: Vec<TraitDecl> = Vec::new();
    let mut impl_declarations: Vec<ImplDecl> = Vec::new();
    let mut items = items;
    let ghost mut sorted: int = 0;
    proof {
        assert(ks.take(0) =~= Seq::<ModuleItemKind>::empty());
        assert(imports@.map_values(|d: ImportDecl| import_kind(d)) =~= Seq::<ImportKind>::empty());
        assert(exports@.map_values(|x: ExportDecl| export_kind(x)) =~= Seq::<ExportKind>::empty());
        assert(declarations@.map_values(|d: Decl| decl_kind(d)) =~= Seq::<DeclKind>::empty());
        assert(type_declarations@.map_values(|d: TypeDecl| type_decl_kind(d)) =~= Seq::<TypeDeclKind>::empty());
        assert(trait_declarations@.map_values(|t: TraitDecl| trait_kind(t)) =~= Seq::empty());
        assert(impl_declarations@.map_values(|t: ImplDecl| impl_kind(t)) =~= Seq::empty());
    }
    while items.len() > 0
        invariant
            0 <= sorted <= items0.len(),
            ks == module_item_kinds(items0),
            items@ == items0.skip(sorted),
            module_model_of(path@, ks.take(sorted), span_of(input@, f as int)) == (ModuleModel {
                path: path@,
                imports: imports@.map_values(|d: ImportDecl| import_kind(d)),
                exports: exports@.map_values(|x: ExportDecl| export_kind(x)),
                declarations: declarations@.map_values(|d: Decl| decl_kind(d)),
                type_declarations: type_declarations@.map_values(|d: TypeDecl| type_decl_kind(d)),
                trait_declarations: trait_declarations@.map_values(|t: TraitDecl| trait_kind(t)),
                impl_declarations: impl_declarations@.map_values(|t: ImplDecl| impl_kind(t)),
                expressions: 0,
                span: span_of(input@, f as int),
            }),
        decreases items@.len(),
    {
        proof {
            lemma_module_model_step(path@, ks, span_of(input@, f as int), sorted);
            assert(items0.skip(sorted + 1) =~= items0.skip(sorted).subrange(1, items0.skip(sorted).len() as int));
        }
        let item = items.remove(0);
        let ghost before_imports = imports@;
        let ghost before_exports = exports@;
        let ghost before_decls = declarations@;
        let ghost before_types = type_declarations@;
        let ghost before_traits = trait_declarations@;
        let ghost before_impls = impl_declarations@;
        assert(module_item_kind(item) == ks[sorted]);
        match item {
            ModuleItem::Import(i) => {
                imports.push(i);
                assert(imports@.map_values(|d: ImportDecl| import_kind(d)) =~= before_imports.map_values(|d: ImportDecl| import_kind(d)).push(import_kind(imports@.last())));
            },
            ModuleItem::ExportGroup { names, span } => {
                let x = ExportDecl::Group { names, span };
                exports.push(x);
                assert(exports@.map_values(|x: ExportDecl| export_kind(x)) =~= before_exports.map_values(|x: ExportDecl| export_kind(x)).push(export_kind(exports@.last())));
            },
            ModuleItem::Declaration { decl, is_exported } => {
                if is_exported {
                    match declaration_export(&decl) {
                        Some(x) => {
                            exports.push(x);
                            assert(exports@.map_values(|x: ExportDecl| export_kind(x)) =~= before_exports.map_values(|x: ExportDecl| export_kind(x)).push(export_kind(exports@.last())));
                        },
                        None => {},
                    }
                }
                declarations.push(decl);
                assert(declarations@.map_values(|d: Decl| decl_kind(d)) =~= before_decls.map_values(|d: Decl| decl_kind(d)).push(decl_kind(declarations@.last())));
            },
            ModuleItem::TypeDeclaration { decl, is_exported } => {
                if is_exported {
                    let x = match &decl {
                        TypeDecl::Record { name, span, .. } => ExportDecl::Single { name: name.clone(), span: *span },
                        TypeDecl::Enum { name, span, .. } => ExportDecl::Single { name: name.clone(), span: *span },
                        TypeDecl::Alias { name, span, .. } => ExportDecl::Single { name: name.clone(), span: *span },
                    };
                    assert(export_kind(x) == ExportKind::Single(type_decl_name(type_decl_kind(decl)), type_decl_span(type_decl_kind(decl))));
                    exports.push(x);
                    assert(exports@.map_values(|x: ExportDecl| export_kind(x)) =~= before_exports.map_values(|x: ExportDecl| export_kind(x)).push(export_kind(exports@.last())));
                }
                type_declarations.push(decl);
                assert(type_declarations@.map_values(|d: TypeDecl| type_decl_kind(d)) =~= before_types.map_values(|d: TypeDecl| type_decl_kind(d)).push(type_decl_kind(type_declarations@.last())));
            },
            ModuleItem::TraitDeclaration { decl, is_exported } => {
                if is_exported {
                    let x = ExportDecl::Single { name: decl.name.clone(), span: decl.span };
                    exports.push(x);
                    assert(exports@.map_values(|x: ExportDecl| export_kind(x)) =~= before_exports.map_values(|x: ExportDecl| export_kind(x)).push(export_kind(exports@.last())));
                }
                trait_declarations.push(decl);
                assert(trait_declarations@.map_values(|t: TraitDecl| trait_kind(t)) =~= before_traits.map_values(|t: TraitDecl| trait_kind(t)).push(trait_kind(trait_declarations@.last())));
            },
            ModuleItem::ImplDeclaration(d) => {
                impl_declarations.push(d);
                assert(impl_declarations@.map_values(|t: ImplDecl| impl_kind(t)) =~= before_impls.map_values(|t: ImplDecl| impl_kind(t)).push(impl_kind(impl_declarations@.last())));
            },
        }
        proof {
            sorted = sorted + 1;
        }
    }
    proof {
        assert(ks.take(sorted) =~= ks);
    }
    let m = Module {
        path,
        exports,
        imports,
        declarations,
        type_declarations,
        trait_declarations,
        impl_declarations,
        expressions: Vec::new(),
        span: span_at(input, f),
    };
    Ok((f, m))
}

} // verus!
