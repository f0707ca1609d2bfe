//! Statements (`return`) and whole programs.
use vstd::prelude::*;
use crate::ast::{Stmt, Expr, Program, Decl, TypeDecl, TraitDecl, ImplDecl, Module, TypeModel, Span};
use crate::parser::common::{
    Expected, ParseFailure, Parsed, failure_outcome, forward, ws_end, ws_comments, ws_lit,
    keyword, span_of, span_at, miss, fail, lemma_ws_end,
};
use crate::parser::keywords as kw;
use crate::parser::expressions::{
    ExprKind, expr_kind, expression_at, expression, missed, space_end, spaces,
};
use crate::parser::declarations::{
    DeclKind, decl_kind, TypeDeclKind, type_decl_kind, trait_kind, impl_kind, parse_declaration_at, parse_declaration,
    type_declaration_at, parse_type_declaration, trait_declaration_at, parse_trait_declaration,
    impl_declaration_at, parse_impl_declaration,
};
use crate::parser::modules::{module_at, parse_module, ModuleModel, module_model, module_model_of};

verus! {

/// `return` expression?: the kind of the value it returns, if any, and its span.
#[verifier::opaque]
pub open spec fn return_statement_at(s: Seq<u8>, p: int) -> Parsed<(Option<ExprKind>, Span)>
    decreases s.len() - p, 1int,
{
    match ws_lit(s, p, kw::lit_return()) {
        None => Parsed::Failed(false, ws_end(s, p), Expected::Keyword),
        Some(q) => if !forward(s, p, q) {
            Parsed::Failed(false, q, Expected::Keyword)
        } else {
            match expression_at(s, q) {
                Parsed::Done(e, k) => Parsed::Done(e, (Some(k), span_of(s, e))),
                Parsed::Failed(fatal, x, k) => if fatal {
                    Parsed::Failed(true, x, k)
                } else {
                    Parsed::Done(q, (None, span_of(s, q)))
                },
            }
        },
    }
}

/// A statement: a `return` statement.
#[verifier::opaque]
pub open spec fn statement_at(s: Seq<u8>, p: int) -> Parsed<(Option<ExprKind>, Span)>
    decreases s.len() - p, 2int,
{
    return_statement_at(s, p)
}

/// The kind of the value a statement returns, if any, and its span.
pub open spec fn stmt_value(st: Stmt) -> (Option<ExprKind>, Span) {
    match st {
        Stmt::Return { value, span } => (
            match value {
                Some(x) => Some(expr_kind(x)),
                None => None,
            },
            span,
        ),
    }
}

/// The outcome of a function that reads a statement.
pub open spec fn stmt_outcome(r: Result<(usize, Stmt), ParseFailure>) -> Parsed<(Option<ExprKind>, Span)> {
    match r {
        Ok((e, st)) => Parsed::Done(e as int, stmt_value(st)),
        Err(f) => failure_outcome(f),
    }
}

/// `return` expression?; its span is recorded where it ends.
pub fn return_statement(input: &[u8], pos: usize) -> (r: Result<(usize, Stmt), ParseFailure>)
    requires
        pos <= input@.len(),
    ensures
        stmt_outcome(r) == return_statement_at(input@, pos as int),
        r matches Ok((e, _)) ==> pos < e <= input@.len(),
        r matches Err(f) ==> f.pos <= input@.len(),
    decreases input@.len() - pos, 1int,
{
    proof {
        reveal_with_fuel(expression_at, 1);
        reveal_with_fuel(return_statement_at, 1);
    }
    proof {
        lemma_ws_end(input@, pos as int);
    }
    let q = match keyword(input, pos, &kw::kw_return()) {
        None => {
            return Err(miss(ws_comments(input, pos), Expected::Keyword));
        },
        Some(q) => q,
    };
    let (e, value): (usize, Option<Expr>) = match expression(input, q) {
        Ok((e, x)) => (e, Some(x)),
        Err(f) => {
            if f.fatal {
                return Err(f);
            }
            (q, None)
        },
    };
    Ok((e, Stmt::Return { value, span: span_at(input, e) }))
}

/// A statement.
pub fn statement(input: &[u8], pos: usize) -> (r: Result<(usize, Stmt), ParseFailure>)
    requires
        pos <= input@.len(),
    ensures
        stmt_outcome(r) == statement_at(input@, pos as int),
        r matches Ok((e, _)) ==> pos < e <= input@.len(),
        r matches Err(f) ==> f.pos <= input@.len(),
    decreases input@.len() - pos, 2int,
{
    proof {
        reveal_with_fuel(return_statement_at, 1);
        reveal_with_fuel(statement_at, 1);
    }
    return_statement(input, pos)
}

// ---------------------------------------------------------------------------
// Programs.
// ---------------------------------------------------------------------------

/// What a top-level item is.
pub enum TopKind {
    Declaration(DeclKind),
    TypeDeclaration(TypeDeclKind),
    Trait((Seq<char>, Seq<(Seq<char>, Option<TypeModel>, Span)>, Option<TypeModel>, Seq<DeclKind>, Span)),
    Impl((Seq<(Seq<char>, Option<TypeModel>, Span)>, TypeModel, TypeModel, Seq<DeclKind>, Span)),
    Module(ModuleModel),
    Expression(ExprKind),
}

/// A top-level item: the first of a declaration, a type declaration, a trait, an
/// implementation, a module and an expression.
#[verifier::opaque]
pub open spec fn top_item_at(s: Seq<u8>, p: int) -> Parsed<TopKind> {
    match parse_declaration_at(s, p) {
        Parsed::Done(e, k) => Parsed::Done(e, TopKind::Declaration(k)),
        Parsed::Failed(true, x, k) => Parsed::Failed(true, x, k),
        Parsed::Failed(false, _, _) => match type_declaration_at(s, p) {
            Parsed::Done(e, k) => Parsed::Done(e, TopKind::TypeDeclaration(k)),
            Parsed::Failed(true, x, k) => Parsed::Failed(true, x, k),
            Parsed::Failed(false, _, _) => match trait_declaration_at(s, p) {
                Parsed::Done(e, tk) => Parsed::Done(e, TopKind::Trait(tk)),
                Parsed::Failed(true, x, k) => Parsed::Failed(true, x, k),
                Parsed::Failed(false, _, _) => match impl_declaration_at(s, p) {
                    Parsed::Done(e, ik) => Parsed::Done(e, TopKind::Impl(ik)),
                    Parsed::Failed(true, x, k) => Parsed::Failed(true, x, k),
                    Parsed::Failed(false, _, _) => match module_at(s, p) {
                        Parsed::Done(e, (name, ks, sp)) => Parsed::Done(e, TopKind::Module(module_model_of(name, ks, sp))),
                        Parsed::Failed(true, x, k) => Parsed::Failed(true, x, k),
                        Parsed::Failed(false, _, _) => match expression_at(s, p) {
                            Parsed::Done(e, k) => Parsed::Done(e, TopKind::Expression(k)),
                            Parsed::Failed(fatal, x, k) => Parsed::Failed(fatal, x, k),
                        },
                    },
                },
            },
        },
    }
}

/// The end of a top-level item that ends at `e`: white space, then an optional `;` and
/// the white space after it.
pub open spec fn top_end(s: Seq<u8>, e: int) -> int {
    let q = space_end(s, e);
    if 0 <= q < s.len() && s[q] == 59u8 {
        space_end(s, q + 1)
    } else {
        q
    }
}

/// The top-level items of a program, each followed by white space and an optional `;`,
/// in order.
#[verifier::opaque]
pub open spec fn program_items_at(s: Seq<u8>, p: int) -> Parsed<Seq<TopKind>>
    decreases s.len() - p,
{
    match top_item_at(s, p) {
        Parsed::Failed(fatal, x, k) => if fatal {
            Parsed::Failed(true, x, k)
        } else {
            Parsed::Done(p, Seq::empty())
        },
        Parsed::Done(e, k) => {
            let e2 = top_end(s, e);
            if forward(s, p, e2) {
                match program_items_at(s, e2) {
                    Parsed::Done(f, ks) => Parsed::Done(f, seq![k] + ks),
                    Parsed::Failed(fatal, x, kk) => Parsed::Failed(fatal, x, kk),
                }
            } else {
                Parsed::Done(e2, seq![k])
            }
        },
    }
}

/// A program: white space, top-level items (each followed by an optional `;`), white
/// space, up to the end of the input.
/// When input that is not white space or comments is left after the last item that
/// reads, the program fails where the next item failed to read.
#[verifier::opaque]
pub open spec fn program_at(s: Seq<u8>, p: int) -> Parsed<Seq<TopKind>> {
    match program_items_at(s, space_end(s, p)) {
        Parsed::Done(e, ks) => if ws_end(s, e) >= s.len() {
            Parsed::Done(space_end(s, e), ks)
        } else {
            match top_item_at(s, e) {
                Parsed::Failed(_, x, k) => Parsed::Failed(true, x, k),
                Parsed::Done(_, _) => Parsed::Failed(true, ws_end(s, e), Expected::Keyword),
            }
        },
        Parsed::Failed(fatal, x, k) => Parsed::Failed(fatal, x, k),
    }
}

/// The declarations among top-level items, in order.
pub open spec fn decls_of(ks: Seq<TopKind>) -> Seq<DeclKind>
    decreases ks.len(),
{
    if ks.len() == 0 {
        Seq::empty()
    } else {
        decls_of(ks.drop_last()) + match ks.last() {
            TopKind::Declaration(d) => seq![d],
            _ => Seq::empty(),
        }
    }
}

/// The type declarations among top-level items, in order.
pub open spec fn type_decls_of(ks: Seq<TopKind>) -> Seq<TypeDeclKind>
    decreases ks.len(),
{
    if ks.len() == 0 {
        Seq::empty()
    } else {
        type_decls_of(ks.drop_last()) + match ks.last() {
            TopKind::TypeDeclaration(d) => seq![d],
            _ => Seq::empty(),
        }
    }
}

/// The traits among top-level items, by their numbers of methods, in order.
pub open spec fn traits_of(ks: Seq<TopKind>) -> Seq<(Seq<char>, Seq<(Seq<char>, Option<TypeModel>, Span)>, Option<TypeModel>, Seq<DeclKind>, Span)>
    decreases ks.len(),
{
    if ks.len() == 0 {
        Seq::empty()
    } else {
        traits_of(ks.drop_last()) + match ks.last() {
            TopKind::Trait(n) => seq![n],
            _ => Seq::empty(),
        }
    }
}

/// The implementations among top-level items, by their numbers of methods, in order.
pub open spec fn impls_of(ks: Seq<TopKind>) -> Seq<(Seq<(Seq<char>, Option<TypeModel>, Span)>, TypeModel, TypeModel, Seq<DeclKind>, Span)>
    decreases ks.len(),
{
    if ks.len() == 0 {
        Seq::empty()
    } else {
        impls_of(ks.drop_last()) + match ks.last() {
            TopKind::Impl(n) => seq![n],
            _ => Seq::empty(),
        }
    }
}

/// The modules among top-level items, by their names and numbers of items, in order.
pub open spec fn modules_of(ks: Seq<TopKind>) -> Seq<ModuleModel>
    decreases ks.len(),
{
    if ks.len() == 0 {
        Seq::empty()
    } else {
        modules_of(ks.drop_last()) + match ks.last() {
            TopKind::Module(mm) => seq![mm],
            _ => Seq::empty(),
        }
    }
}

/// The expressions among top-level items, in order.
pub open spec fn exprs_of(ks: Seq<TopKind>) -> Seq<ExprKind>
    decreases ks.len(),
{
    if ks.len() == 0 {
        Seq::empty()
    } else {
        exprs_of(ks.drop_last()) + match ks.last() {
            TopKind::Expression(x) => seq![x],
            _ => Seq::empty(),
        }
    }
}

/// Whether a program holds, in each of its lists, the items of that kind among `ks`,
/// in order.
pub open spec fn program_matches(prog: Program, ks: Seq<TopKind>) -> bool {
    &&& prog.declarations@.map_values(|d: Decl| decl_kind(d)) == decls_of(ks)
    &&& prog.type_declarations@.map_values(|d: TypeDecl| type_decl_kind(d)) == type_decls_of(ks)
    &&& prog.trait_declarations@.map_values(|t: TraitDecl| trait_kind(t)) == traits_of(ks)
    &&& prog.impl_declarations@.map_values(|t: ImplDecl| impl_kind(t)) == impls_of(ks)
    &&& prog.modules@.map_values(|m: Module| module_model(m)) == modules_of(ks)
    &&& prog.expressions@.map_values(|x: Expr| expr_kind(x)) == exprs_of(ks)
}

/// A top-level item.
enum TopLevelItem {
    Declaration(Decl),
    TypeDeclaration(TypeDecl),
    TraitDeclaration(TraitDecl),
    ImplDeclaration(ImplDecl),
    Module(Module),
    Expression(Expr),
}

spec fn top_kind(t: TopLevelItem) -> TopKind {
    match t {
        TopLevelItem::Declaration(d) => TopKind::Declaration(decl_kind(d)),
        TopLevelItem::TypeDeclaration(d) => TopKind::TypeDeclaration(type_decl_kind(d)),
        TopLevelItem::TraitDeclaration(d) => TopKind::Trait(trait_kind(d)),
        TopLevelItem::ImplDeclaration(d) => TopKind::Impl(impl_kind(d)),
        TopLevelItem::Module(m) => TopKind::Module(module_model(m)),
        TopLevelItem::Expression(x) => TopKind::Expression(expr_kind(x)),
    }
}

/// A top-level item.
fn top_item(input: &[u8], pos: usize) -> (r: Result<(usize, TopLevelItem), ParseFailure>)
    requires
        pos <= input@.len(),
    ensures
        match r {
            Ok((e, t)) => top_item_at(input@, pos as int) == Parsed::Done(e as int, top_kind(t)),
            Err(f) => top_item_at(input@, pos as int) == failure_outcome::<TopKind>(f),
        },
        r matches Ok((e, _)) ==> pos < e <= input@.len(),
        r matches Err(f) ==> f.pos <= input@.len(),
{
    proof {
        reveal_with_fuel(top_item_at, 1);
    }
    match parse_declaration(input, pos) {
        Ok((e, d)) => {
            return Ok((e, TopLevelItem::Declaration(d)));
        },
        Err(f) => if f.fatal {
            return Err(f);
        },
    }
    match parse_type_declaration(input, pos) {
        Ok((e, d)) => {
            return Ok((e, TopLevelItem::TypeDeclaration(d)));
        },
        Err(f) => if f.fatal {
            return Err(f);
        },
    }
    match parse_trait_declaration(input, pos) {
        Ok((e, d)) => {
            return Ok((e, TopLevelItem::TraitDeclaration(d)));
        },
        Err(f) => if f.fatal {
            return Err(f);
        },
    }
    match parse_impl_declaration(input, pos) {
        Ok((e, d)) => {
            return Ok((e, TopLevelItem::ImplDeclaration(d)));
        },
        Err(f) => if f.fatal {
            return Err(f);
        },
    }
    match parse_module(input, pos) {
        Ok((e, m)) => {
            return Ok((e, TopLevelItem::Module(m)));
        },
        Err(f) => if f.fatal {
            return Err(f);
        },
    }
    match expression(input, pos) {
        Ok((e, x)) => Ok((e, TopLevelItem::Expression(x))),
        Err(f) => Err(f),
    }
}

/// A whole program: its top-level items, sorted into declarations, type declarations,
/// traits, implementations, modules and expressions, each list in the order of the
/// input; each item may be followed by `;`. Input left unread after the last item is
/// a failure.
pub fn program(input: &[u8], pos: usize) -> (r: Result<(usize, Program), ParseFailure>)
    requires
        pos <= input@.len(),
    ensures
        match program_at(input@, pos as int) {
            Parsed::Done(e, ks) => r matches Ok((x, prog)) && x == e && program_matches(prog, ks),
            Parsed::Failed(fatal, x, k) => r matches Err(f) && failure_outcome::<Seq<TopKind>>(f) == Parsed::<Seq<TopKind>>::Failed(fatal, x, k),
        },
        r matches Ok((e, _)) ==> pos <= e <= input@.len(),
        r matches Err(f) ==> f.pos <= input@.len(),
{
    proof {
        reveal_with_fuel(program_at, 1);
    }
    let start = spaces(input, pos);
    let mut declarations: Vec<Decl> = Vec::new();
    let mut type_declarations: Vec<TypeDecl> = Vec::new();
    let mut trait_declarations: Vec<TraitDecl> = Vec::new();
    let mut impl_declarations: Vec<ImplDecl> = Vec::new();
    let mut modules: Vec<Module> = Vec::new();
    let mut expressions: Vec<Expr> = Vec::new();
    let ghost mut ks: Seq<TopKind> = Seq::empty();
    let mut cur = start;
    let mut failure: Option<ParseFailure> = None;
    let mut stopped: Option<ParseFailure> = None;
    proof {
        assert(declarations@.map_values(|d: Decl| decl_kind(d)) =~= decls_of(ks));
        assert(type_declarations@.map_values(|d: TypeDecl| type_decl_kind(d)) =~= type_decls_of(ks));
        assert(trait_declarations@.map_values(|t: TraitDecl| trait_kind(t)) =~= traits_of(ks));
        assert(impl_declarations@.map_values(|t: ImplDecl| impl_kind(t)) =~= impls_of(ks));
        assert(modules@.map_values(|m: Module| module_model(m)) =~= modules_of(ks));
        assert(expressions@.map_values(|x: Expr| expr_kind(x)) =~= exprs_of(ks));
        assert(ks + Seq::<TopKind>::empty() =~= ks);
    }
    loop
        invariant_except_break
            failure is None,
        invariant
            start <= cur <= input@.len(),
            program_matches(
                Program { modules, declarations, type_declarations, trait_declarations, impl_declarations, expressions },
                ks,
            ),
            program_items_at(input@, start as int) == match program_items_at(input@, cur as int) {
                Parsed::Done(f, rest) => Parsed::Done(f, ks + rest),
                Parsed::Failed(fatal, x, k) => Parsed::Failed(fatal, x, k),
            },
        ensures
            start <= cur <= input@.len(),
            program_matches(
                Program { modules, declarations, type_declarations, trait_declarations, impl_declarations, expressions },
                ks,
            ),
            failure matches Some(f) ==> f.pos <= input@.len()
                && program_items_at(input@, start as int) == failure_outcome::<Seq<TopKind>>(f),
            failure is None ==> program_items_at(input@, start as int) == Parsed::Done(cur as int, ks),
            failure is None ==> (stopped matches Some(f) && f.pos <= input@.len()
                && top_item_at(input@, cur as int) == failure_outcome::<TopKind>(f)),
        decreases input@.len() - cur,
    {
        proof {
            reveal_with_fuel(program_items_at, 1);
        }
        match top_item(input, cur) {
            Err(f) => {
                if f.fatal {
                    failure = Some(f);
                } else {
                    proof {
                        assert(ks + Seq::<TopKind>::empty() =~= ks);
                    }
                    stopped = Some(f);
                }
                break;
            },
            Ok((e, item)) => {
                let ghost k = top_kind(item);
                let ghost old_ks = ks;
                let ghost old_prog = Program { modules, declarations, type_declarations, trait_declarations, impl_declarations, expressions };
                match item {
                    TopLevelItem::Declaration(d) => declarations.push(d),
                    TopLevelItem::TypeDeclaration(d) => type_declarations.push(d),
                    TopLevelItem::TraitDeclaration(d) => trait_declarations.push(d),
                    TopLevelItem::ImplDeclaration(d) => impl_declarations.push(d),
                    TopLevelItem::Module(m) => modules.push(m),
                    TopLevelItem::Expression(x) => expressions.push(x),
                }
                proof {
                    ks = old_ks.push(k);
                    assert(ks.drop_last() =~= old_ks);
                    lemma_program_push(old_prog, Program { modules, declarations, type_declarations, trait_declarations, impl_declarations, expressions }, old_ks, k);
                }
                let q = spaces(input, e);
                let e2 = if q < input.len() && input[q] == 59u8 {
                    spaces(input, q + 1)
                } else {
                    q
                };
                proof {
                    match program_items_at(input@, e2 as int) {
                        Parsed::Done(f, rest) => {
                            assert(old_ks + (seq![k] + rest) =~= ks + rest);
                        },
                        Parsed::Failed(_, _, _) => {},
                    }
                }
                cur = e2;
            },
        }
    }
    match failure {
        Some(f) => {
            return Err(f);
        },
        None => {},
    }
    proof {
        lemma_ws_end(input@, cur as int);
    }
    let rest = ws_comments(input, cur);
    if rest < input.len() {
        match stopped {
            Some(f) => {
                return Err(fail(f.pos, f.expected));
            },
            None => {
                return Err(fail(rest, Expected::Keyword));
            },
        }
    }
    let end = spaces(input, cur);
    Ok((end, Program { modules, declarations, type_declarations, trait_declarations, impl_declarations, expressions }))
}

/// Adding an item to the list of its kind keeps a program matched with the kinds.
proof fn lemma_program_push(old_prog: Program, new_prog: Program, ks: Seq<TopKind>, k: TopKind)
    requires
        program_matches(old_prog, ks),
        match k {
            TopKind::Declaration(d) => new_prog.declarations@.len() == old_prog.declarations@.len() + 1
                && new_prog.declarations@.drop_last() =~= old_prog.declarations@
                && decl_kind(new_prog.declarations@.last()) == d,
            _ => new_prog.declarations@ =~= old_prog.declarations@,
        },
        match k {
            TopKind::TypeDeclaration(d) => new_prog.type_declarations@.len() == old_prog.type_declarations@.len() + 1
                && new_prog.type_declarations@.drop_last() =~= old_prog.type_declarations@
                && type_decl_kind(new_prog.type_declarations@.last()) == d,
            _ => new_prog.type_declarations@ =~= old_prog.type_declarations@,
        },
        match k {
            TopKind::Trait(n) => new_prog.trait_declarations@.len() == old_prog.trait_declarations@.len() + 1
                && new_prog.trait_declarations@.drop_last() =~= old_prog.trait_declarations@
                && trait_kind(new_prog.trait_declarations@.last()) == n,
            _ => new_prog.trait_declarations@ =~= old_prog.trait_declarations@,
        },
        match k {
            TopKind::Impl(n) => new_prog.impl_declarations@.len() == old_prog.impl_declarations@.len() + 1
                && new_prog.impl_declarations@.drop_last() =~= old_prog.impl_declarations@
                && impl_kind(new_prog.impl_declarations@.last()) == n,
            _ => new_prog.impl_declarations@ =~= old_prog.impl_declarations@,
        },
        match k {
            TopKind::Module(mm) => new_prog.modules@.len() == old_prog.modules@.len() + 1
                && new_prog.modules@.drop_last() =~= old_prog.modules@
                && module_model(new_prog.modules@.last()) == mm,
            _ => new_prog.modules@ =~= old_prog.modules@,
        },
        match k {
            TopKind::Expression(x) => new_prog.expressions@.len() == old_prog.expressions@.len() + 1
                && new_prog.expressions@.drop_last() =~= old_prog.expressions@
                && expr_kind(new_prog.expressions@.last()) == x,
            _ => new_prog.expressions@ =~= old_prog.expressions@,
        },
    ensures
        program_matches(new_prog, ks.push(k)),
{
    let ks2 = ks.push(k);
    assert(ks2.drop_last() =~= ks);
    assert(new_prog.declarations@.map_values(|d: Decl| decl_kind(d)) =~= decls_of(ks2));
    assert(new_prog.type_declarations@.map_values(|d: TypeDecl| type_decl_kind(d)) =~= type_decls_of(ks2));
    assert(new_prog.trait_declarations@.map_values(|t: TraitDecl| trait_kind(t)) =~= traits_of(ks2));
    assert(new_prog.impl_declarations@.map_values(|t: ImplDecl| impl_kind(t)) =~= impls_of(ks2));
    assert(new_prog.modules@.map_values(|m: Module| module_model(m)) =~= modules_of(ks2));
    assert(new_prog.expressions@.map_values(|x: Expr| expr_kind(x)) =~= exprs_of(ks2));
}

} // verus!
