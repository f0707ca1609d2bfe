//! Declarations: `let`, `var`, handlers, generic parameters, record, enum and alias
//! types, traits and implementations.
use vstd::prelude::*;
use crate::ast::{
    Decl, TypeDecl, EnumVariant, TraitDecl, ImplDecl, HandlerDecl, LetHandlerFunction,
    GenericParam, Parameter, Type, Pattern,
};
use crate::parser::common::{
    Expected, ParseFailure, Parsed, failure_outcome, one_more, with_prefix, lemma_prefix_more, forward, ws_byte, ws_byte_at, ws_end,
    ws_comments, ws_lit, keyword, ws_ident, ws_identifier, ascii_text, span_of, span_at, miss,
    fail, is_miss, lemma_ws_end,
};
use crate::parser::keywords as kw;
use crate::parser::types::{type_at, parse_type, type_list_at, type_list, types_outcome};
use crate::ast::types_model;
use crate::ast::{TypeModel, Span};
use crate::parser::patterns::{PatternKind, pattern_at, pattern};
use crate::parser::expressions::{
    ExprKind, expr_kind, expression_at, expression, function_expr_at, function_expr, missed,
    optional_value,
};
use crate::parser::common::no_span;

verus! {

/// What a declaration is: a `let` with the kind of its pattern, the model of its type
/// annotation and the kind of its value; a `var` with its name, annotation and value;
/// or a handler with the models of its effect and target types and the kinds of its
/// functions.
pub enum DeclKind {
    Let(PatternKind, Option<TypeModel>, ExprKind, Span),
    Var(Seq<char>, Option<TypeModel>, ExprKind, Span),
    Handler(TypeModel, TypeModel, Seq<(Seq<char>, Option<Seq<(Seq<char>, Option<TypeModel>, Span)>>, ExprKind, Span)>, Span),
}

/// The kind of a generic parameter: its name, the model of its constraint and its span.
pub open spec fn generic_kind(g: GenericParam) -> (Seq<char>, Option<TypeModel>, Span) {
    (g.name@, opt_type_model(g.constraints), g.span)
}

/// The kinds of a sequence of generic parameters.
pub open spec fn generic_kinds(gs: Seq<GenericParam>) -> Seq<(Seq<char>, Option<TypeModel>, Span)> {
    Seq::new(gs.len(), |i: int| generic_kind(gs[i]))
}

/// The kinds of optional generic parameters.
pub open spec fn opt_generic_kinds(o: Option<Vec<GenericParam>>) -> Option<Seq<(Seq<char>, Option<TypeModel>, Span)>> {
    match o {
        Some(v) => Some(generic_kinds(v@)),
        None => None,
    }
}

/// The kinds of the functions of a handler: the name, the generic parameters and the
/// kind of the function expression.
pub open spec fn member_kinds(ms: Seq<LetHandlerFunction>) -> Seq<(Seq<char>, Option<Seq<(Seq<char>, Option<TypeModel>, Span)>>, ExprKind, Span)>
    decreases ms,
{
    Seq::new(
        ms.len(),
        |i: int|
            if 0 <= i < ms.len() {
                (ms[i].name@, opt_generic_kinds(ms[i].generic_params), expr_kind(ms[i].body), ms[i].span)
            } else {
                (Seq::empty(), None, ExprKind::UnitLiteral(no_span()), no_span())
            },
    )
}

/// The kind of a function of a handler.
pub open spec fn member_kind(m: LetHandlerFunction) -> (Seq<char>, Option<Seq<(Seq<char>, Option<TypeModel>, Span)>>, ExprKind, Span) {
    (m.name@, opt_generic_kinds(m.generic_params), expr_kind(m.body), m.span)
}

/// The kinds of generic parameters with one more.
pub proof fn lemma_generic_kinds_push(gs: Seq<GenericParam>, x: GenericParam)
    ensures
        generic_kinds(gs.push(x)) == generic_kinds(gs).push(generic_kind(x)),
{
    assert(generic_kinds(gs.push(x)) =~= generic_kinds(gs).push(generic_kind(x)));
}

/// The kinds of handler functions with one more.
pub proof fn lemma_member_kinds_push(ms: Seq<LetHandlerFunction>, x: LetHandlerFunction)
    ensures
        member_kinds(ms.push(x)) == member_kinds(ms).push(member_kind(x)),
{
    assert(member_kinds(ms.push(x)) =~= member_kinds(ms).push(member_kind(x)));
}

/// The model of an optional type.
pub open spec fn opt_type_model(t: Option<Type>) -> Option<TypeModel> {
    match t {
        Some(t) => Some(t.model()),
        None => None,
    }
}

/// The kind of a declaration.
pub open spec fn decl_kind(d: Decl) -> DeclKind
    decreases d,
{
    match d {
        Decl::Let { pattern, type_annotation, value, span } => DeclKind::Let(
            crate::parser::patterns::pattern_kind(pattern),
            opt_type_model(type_annotation),
            expr_kind(value),
            span,
        ),
        Decl::Var { name, type_annotation, value, span } => DeclKind::Var(
            name@,
            opt_type_model(type_annotation),
            expr_kind(value),
            span,
        ),
        Decl::HandlerDecl(h) => DeclKind::Handler(
            h.effect_type.model(),
            h.target_type.model(),
            member_kinds(h.members@),
            h.span,
        ),
    }
}

/// The outcome of a function that reads a generic parameter.
pub open spec fn generic_outcome(r: Result<(usize, GenericParam), ParseFailure>) -> Parsed<(Seq<char>, Option<TypeModel>, Span)> {
    match r {
        Ok((e, g)) => Parsed::Done(e as int, generic_kind(g)),
        Err(f) => failure_outcome(f),
    }
}

/// The outcome of a function that reads generic parameters.
pub open spec fn generics_outcome(r: Result<(usize, Vec<GenericParam>), ParseFailure>) -> Parsed<Seq<(Seq<char>, Option<TypeModel>, Span)>> {
    match r {
        Ok((e, v)) => Parsed::Done(e as int, generic_kinds(v@)),
        Err(f) => failure_outcome(f),
    }
}

/// The outcome of a function that reads a function of a handler.
pub open spec fn member_outcome(r: Result<(usize, LetHandlerFunction), ParseFailure>) -> Parsed<(Seq<char>, Option<Seq<(Seq<char>, Option<TypeModel>, Span)>>, ExprKind, Span)> {
    match r {
        Ok((e, m)) => Parsed::Done(e as int, member_kind(m)),
        Err(f) => failure_outcome(f),
    }
}

/// The outcome of a function that reads the functions of a handler.
pub open spec fn members_outcome(r: Result<(usize, Vec<LetHandlerFunction>), ParseFailure>) -> Parsed<Seq<(Seq<char>, Option<Seq<(Seq<char>, Option<TypeModel>, Span)>>, ExprKind, Span)>> {
    match r {
        Ok((e, v)) => Parsed::Done(e as int, member_kinds(v@)),
        Err(f) => failure_outcome(f),
    }
}

/// The outcome of a function that reads a declaration.
pub open spec fn decl_outcome(r: Result<(usize, Decl), ParseFailure>) -> Parsed<DeclKind> {
    match r {
        Ok((e, d)) => Parsed::Done(e as int, decl_kind(d)),
        Err(f) => failure_outcome(f),
    }
}

/// name (`:` type)?: a parameter, its name, the model of its type annotation and its
/// span, recorded where it ends.
#[verifier::opaque]
pub open spec fn parameter_at(s: Seq<u8>, p: int) -> Parsed<(Seq<char>, Option<TypeModel>, Span)> {
    match ws_ident(s, p) {
        None => Parsed::Failed(false, ws_end(s, p), Expected::Keyword),
        Some((a, b, c)) => match annotation_at(s, c) {
            Parsed::Done(e, tm) => Parsed::Done(e, (ascii_text(s.subrange(a, b)), tm, span_of(s, e))),
            Parsed::Failed(fatal, x, k) => Parsed::Failed(fatal, x, k),
        },
    }
}

/// The kind of a parameter: its name, the model of its type annotation and its span.
pub open spec fn param_kind(p: Parameter) -> (Seq<char>, Option<TypeModel>, Span) {
    (p.name@, opt_type_model(p.type_annotation), p.span)
}

/// The kinds of a sequence of parameters.
pub open spec fn param_kinds(ps: Seq<Parameter>) -> Seq<(Seq<char>, Option<TypeModel>, Span)> {
    Seq::new(ps.len(), |i: int| param_kind(ps[i]))
}

/// The outcome of a function that reads a parameter.
pub open spec fn param_outcome(r: Result<(usize, Parameter), ParseFailure>) -> Parsed<(Seq<char>, Option<TypeModel>, Span)> {
    match r {
        Ok((e, p)) => Parsed::Done(e as int, param_kind(p)),
        Err(f) => failure_outcome(f),
    }
}

/// The outcome of a function that reads parameters.
pub open spec fn params_outcome(r: Result<(usize, Vec<Parameter>), ParseFailure>) -> Parsed<Seq<(Seq<char>, Option<TypeModel>, Span)>> {
    match r {
        Ok((e, v)) => Parsed::Done(e as int, param_kinds(v@)),
        Err(f) => failure_outcome(f),
    }
}

/// The kinds of parameters with one more.
pub proof fn lemma_param_kinds_push(ps: Seq<Parameter>, x: Parameter)
    ensures
        param_kinds(ps.push(x)) == param_kinds(ps).push(param_kind(x)),
{
    assert(param_kinds(ps.push(x)) =~= param_kinds(ps).push(param_kind(x)));
}

/// An optional `:` type annotation at `p`: the model of the type, if there is one.
pub open spec fn annotation_at(s: Seq<u8>, p: int) -> Parsed<Option<TypeModel>> {
    match ws_byte(s, p, 58u8) {
        None => Parsed::Done(p, None),
        Some(q) => match type_at(s, q) {
            Parsed::Done(e, t) => Parsed::Done(e, Some(t)),
            Parsed::Failed(fatal, x, k) => if fatal {
                Parsed::Failed(true, x, k)
            } else {
                Parsed::Done(p, None)
            },
        },
    }
}

/// The outcome of a function that reads an optional type annotation.
pub open spec fn annotation_outcome(r: Result<(usize, Option<Type>), ParseFailure>) -> Parsed<Option<TypeModel>> {
    match r {
        Ok((e, t)) => Parsed::Done(e as int, opt_type_model(t)),
        Err(f) => failure_outcome(f),
    }
}

/// `let` pattern (`:` type)? `=` expression.
#[verifier::opaque]
pub open spec fn let_declaration_at(s: Seq<u8>, p: int) -> Parsed<DeclKind>
    decreases s.len() - p, 1int,
{
    match ws_lit(s, p, kw::lit_let()) {
        None => Parsed::Failed(false, ws_end(s, p), Expected::Keyword),
        Some(q) => match pattern_at(s, q) {
            Parsed::Failed(fatal, x, k) => Parsed::Failed(fatal, x, k),
            Parsed::Done(e1, pk) => match annotation_at(s, ws_end(s, e1)) {
                Parsed::Failed(fatal, x, k) => Parsed::Failed(fatal, x, k),
                Parsed::Done(e2, tm) => match ws_byte(s, e2, 61u8) {
                    None => Parsed::Failed(false, ws_end(s, e2), Expected::Char(61u8)),
                    Some(q3) => if !forward(s, p, q3) {
                        Parsed::Failed(false, q3, Expected::Char(61u8))
                    } else {
                        match expression_at(s, q3) {
                            Parsed::Failed(fatal, x, k) => Parsed::Failed(fatal, x, k),
                            Parsed::Done(e4, vk) => Parsed::Done(e4, DeclKind::Let(pk, tm, vk, span_of(s, p))),
                        }
                    },
                },
            },
        },
    }
}

/// `var` name (`:` type)? `=` expression.
#[verifier::opaque]
pub open spec fn var_declaration_at(s: Seq<u8>, p: int) -> Parsed<DeclKind>
    decreases s.len() - p, 1int,
{
    match ws_lit(s, p, kw::lit_var()) {
        None => Parsed::Failed(false, ws_end(s, p), Expected::Keyword),
        Some(q) => match ws_ident(s, q) {
            None => Parsed::Failed(false, ws_end(s, q), Expected::Keyword),
            Some((a, b, c)) => match annotation_at(s, c) {
                Parsed::Failed(fatal, x, k) => Parsed::Failed(fatal, x, k),
                Parsed::Done(e2, tm) => match ws_byte(s, e2, 61u8) {
                    None => Parsed::Failed(false, ws_end(s, e2), Expected::Char(61u8)),
                    Some(q3) => if !forward(s, p, ws_end(s, q3)) {
                        Parsed::Failed(false, q3, Expected::Char(61u8))
                    } else {
                        match expression_at(s, ws_end(s, q3)) {
                            Parsed::Failed(fatal, x, k) => Parsed::Failed(fatal, x, k),
                            Parsed::Done(e4, vk) => Parsed::Done(
                                ws_end(s, e4),
                                DeclKind::Var(ascii_text(s.subrange(a, b)), tm, vk, span_of(s, p)),
                            ),
                        }
                    },
                },
            },
        },
    }
}

/// `let` name (generic parameters)? `=` function expression: a handler function, its
/// name, generic parameters and the kind of its function expression.
#[verifier::opaque]
pub open spec fn let_handler_function_at(s: Seq<u8>, p: int) -> Parsed<(Seq<char>, Option<Seq<(Seq<char>, Option<TypeModel>, Span)>>, ExprKind, Span)>
    decreases s.len() - p, 1int,
{
    match ws_lit(s, p, kw::lit_let()) {
        None => Parsed::Failed(false, ws_end(s, p), Expected::Keyword),
        Some(q) => match ws_ident(s, q) {
            None => Parsed::Failed(false, ws_end(s, q), Expected::Keyword),
            Some((a, b, c)) => match optional_value(generic_params_at(s, c), c) {
                Parsed::Failed(fatal, x, k) => Parsed::Failed(fatal, x, k),
                Parsed::Done(e1, gs) => match ws_byte(s, e1, 61u8) {
                    None => Parsed::Failed(false, ws_end(s, e1), Expected::Char(61u8)),
                    Some(q2) => if !forward(s, p, q2) {
                        Parsed::Failed(false, q2, Expected::Char(61u8))
                    } else {
                        match function_expr_at(s, q2) {
                            Parsed::Failed(fatal, x, k) => Parsed::Failed(fatal, x, k),
                            Parsed::Done(e2, fk) => Parsed::Done(
                                e2,
                                (ascii_text(s.subrange(a, b)), gs, fk, span_of(s, s.len() - (e2 - p))),
                            ),
                        }
                    },
                },
            },
        },
    }
}

/// The functions of a handler body, up to its `}`: their kinds, and the position of `}`.
/// The end of the input before `}` is a failure.
#[verifier::opaque]
pub open spec fn handler_members_at(s: Seq<u8>, p: int) -> Parsed<Seq<(Seq<char>, Option<Seq<(Seq<char>, Option<TypeModel>, Span)>>, ExprKind, Span)>>
    decreases s.len() - p, 2int,
{
    let n = ws_end(s, p);
    if !(p <= n && n <= s.len()) {
        Parsed::Failed(false, n, Expected::HandlerBodyEnd)
    } else if n < s.len() && s[n] == 125u8 {
        Parsed::Done(n, Seq::empty())
    } else if n >= s.len() {
        Parsed::Failed(false, n, Expected::HandlerBodyEnd)
    } else {
        match let_handler_function_at(s, n) {
            Parsed::Failed(fatal, x, k) => Parsed::Failed(fatal, x, k),
            Parsed::Done(e, k) => if forward(s, p, e) {
                one_more(k, handler_members_at(s, e))
            } else {
                Parsed::Failed(false, e, Expected::HandlerBodyEnd)
            },
        }
    }
}

/// `handler` type `for` type `{` handler functions `}`.
#[verifier::opaque]
pub open spec fn handler_declaration_at(s: Seq<u8>, p: int) -> Parsed<DeclKind>
    decreases s.len() - p, 1int,
{
    match ws_lit(s, p, kw::lit_handler()) {
        None => Parsed::Failed(false, ws_end(s, p), Expected::Keyword),
        Some(q) => match type_at(s, q) {
            Parsed::Failed(fatal, x, k) => Parsed::Failed(fatal, x, k),
            Parsed::Done(e1, t1) => match ws_lit(s, e1, kw::lit_for()) {
                None => Parsed::Failed(false, ws_end(s, e1), Expected::Keyword),
                Some(q2) => match type_at(s, q2) {
                    Parsed::Failed(fatal, x, k) => Parsed::Failed(fatal, x, k),
                    Parsed::Done(e2, t2) => match ws_byte(s, e2, 123u8) {
                        None => Parsed::Failed(false, ws_end(s, e2), Expected::Char(123u8)),
                        Some(q3) => if !forward(s, p, q3) {
                            Parsed::Failed(false, q3, Expected::Char(123u8))
                        } else {
                            match handler_members_at(s, q3) {
                                Parsed::Failed(fatal, x, k) => Parsed::Failed(fatal, x, k),
                                Parsed::Done(e3, n) => match ws_byte(s, e3, 125u8) {
                                    None => Parsed::Failed(true, ws_end(s, e3), Expected::Char(125u8)),
                                    Some(f) => Parsed::Done(f, DeclKind::Handler(t1, t2, n, span_of(s, s.len() - (f - p)))),
                                },
                            }
                        },
                    },
                },
            },
        },
    }
}

/// A declaration: the first of `let`, `var` and handler declarations.
#[verifier::opaque]
pub open spec fn parse_declaration_at(s: Seq<u8>, p: int) -> Parsed<DeclKind>
    decreases s.len() - p, 2int,
{
    let r1 = let_declaration_at(s, p);
    if !missed(r1) {
        r1
    } else {
        let r2 = var_declaration_at(s, p);
        if !missed(r2) {
            r2
        } else {
            handler_declaration_at(s, p)
        }
    }
}

/// A generic parameter keeps its constraint: when its name is followed by `:` and a
/// type, that type is its constraint and the parameter ends where the type does; when no
/// `:` follows, it has no constraint and ends after its name. Its name is the
/// identifier read and its span the one given.
pub proof fn law_generic_constraint(s: Seq<u8>, p: int, sp: Span)
    ensures
        generic_item_at(s, p, sp) matches Parsed::Done(e, (n, c, span)) ==> ({
            let (a, b, after) = ws_ident(s, p)->0;
            &&& ws_ident(s, p) is Some
            &&& n == ascii_text(s.subrange(a, b))
            &&& span == sp
            &&& (ws_byte(s, after, 58u8) is None ==> c is None && e == after)
            &&& (ws_byte(s, after, 58u8) matches Some(q) ==> (type_at(s, q) matches Parsed::Done(te, t)
                ==> c == Some(t) && e == te))
            &&& (c matches Some(t) ==> ws_byte(s, after, 58u8) matches Some(q) && type_at(s, q)
                == Parsed::Done(e, t))
        }),
{
    reveal_with_fuel(generic_item_at, 1);
}

/// `<` name (`:` type)? separated by `,` `>`: generic parameters, their names and
/// constraints; a missing `>` is final.
#[verifier::opaque]
pub open spec fn generic_params_at(s: Seq<u8>, p: int) -> Parsed<Seq<(Seq<char>, Option<TypeModel>, Span)>> {
    match ws_byte(s, p, 60u8) {
        None => Parsed::Failed(false, ws_end(s, p), Expected::Char(60u8)),
        Some(q) => match generic_items_at(s, q, span_of(s, p)) {
            Parsed::Failed(fatal, x, k) => Parsed::Failed(fatal, x, k),
            Parsed::Done(e, ks) => match ws_byte(s, e, 62u8) {
                None => Parsed::Failed(true, ws_end(s, e), Expected::Char(62u8)),
                Some(f) => Parsed::Done(f, ks),
            },
        },
    }
}

/// name (`:` type)?: a generic parameter and its constraint.
#[verifier::opaque]
pub open spec fn generic_item_at(s: Seq<u8>, p: int, sp: Span) -> Parsed<(Seq<char>, Option<TypeModel>, Span)> {
    match ws_ident(s, p) {
        None => Parsed::Failed(false, ws_end(s, p), Expected::Keyword),
        Some((a, b, c)) => match annotation_at(s, c) {
            Parsed::Done(e, tm) => Parsed::Done(e, (ascii_text(s.subrange(a, b)), tm, sp)),
            Parsed::Failed(fatal, x, k) => Parsed::Failed(fatal, x, k),
        },
    }
}

#[verifier::opaque]
pub open spec fn generic_items_at(s: Seq<u8>, p: int, sp: Span) -> Parsed<Seq<(Seq<char>, Option<TypeModel>, Span)>> {
    match generic_item_at(s, p, sp) {
        Parsed::Failed(fatal, x, k) => if fatal {
            Parsed::Failed(true, x, k)
        } else {
            Parsed::Done(p, Seq::empty())
        },
        Parsed::Done(e, k) => one_more(k, generic_items_more_at(s, e, sp)),
    }
}

#[verifier::opaque]
pub open spec fn generic_items_more_at(s: Seq<u8>, p: int, sp: Span) -> Parsed<Seq<(Seq<char>, Option<TypeModel>, Span)>>
    decreases s.len() - p,
{
    match ws_byte(s, p, 44u8) {
        None => Parsed::Done(p, Seq::empty()),
        Some(q) => match generic_item_at(s, q, sp) {
            Parsed::Failed(fatal, x, k) => if fatal {
                Parsed::Failed(true, x, k)
            } else {
                Parsed::Done(p, Seq::empty())
            },
            Parsed::Done(e, k) => if forward(s, p, e) {
                one_more(k, generic_items_more_at(s, e, sp))
            } else {
                Parsed::Done(e, seq![k])
            },
        },
    }
}

// ---------------------------------------------------------------------------
// The parsing functions.
// ---------------------------------------------------------------------------

/// An optional `:` type annotation.
fn type_annotation(input: &[u8], pos: usize) -> (r: Result<(usize, Option<Type>), ParseFailure>)
    requires
        pos <= input@.len(),
    ensures
        annotation_outcome(r) == annotation_at(input@, pos as int),
        r matches Ok((e, _)) ==> pos <= e <= input@.len(),
        r matches Err(f) ==> f.pos <= input@.len(),
{
    match ws_byte_at(input, pos, 58u8) {
        None => Ok((pos, None)),
        Some(q) => match parse_type(input, q) {
            Ok((e, t)) => Ok((e, Some(t))),
            Err(f) => {
                if f.fatal {
                    return Err(f);
                }
                Ok((pos, None))
            },
        },
    }
}

/// name (`:` type)?: a parameter, with the span where it ends.
pub fn parameter(input: &[u8], pos: usize) -> (r: Result<(usize, Parameter), ParseFailure>)
    requires
        pos <= input@.len(),
    ensures
        param_outcome(r) == parameter_at(input@, pos as int),
        r matches Ok((e, _)) ==> pos < e <= input@.len(),
        r matches Err(f) ==> f.pos <= input@.len(),
{
    proof {
        reveal_with_fuel(parameter_at, 1);
    }
    proof {
        lemma_ws_end(input@, pos as int);
    }
    let (c, name) = match ws_identifier(input, pos) {
        None => {
            return Err(miss(ws_comments(input, pos), Expected::Keyword));
        },
        Some(v) => v,
    };
    match type_annotation(input, c) {
        Err(f) => Err(f),
        Ok((e, type_annotation)) => Ok((e, Parameter { name, type_annotation, span: span_at(input, e) })),
    }
}

/// `let` pattern (`:` type)? `=` expression; its span is recorded where it starts.
pub fn parse_let_declaration(input: &[u8], pos: usize) -> (r: Result<(usize, Decl), ParseFailure>)
    requires
        pos <= input@.len(),
    ensures
        decl_outcome(r) == let_declaration_at(input@, pos as int),
        r matches Ok((e, _)) ==> pos < e <= input@.len(),
        r matches Err(f) ==> f.pos <= input@.len(),
    decreases input@.len() - pos, 1int,
{
    proof {
        reveal_with_fuel(expression_at, 1);
        reveal_with_fuel(let_declaration_at, 1);
    }
    proof {
        lemma_ws_end(input@, pos as int);
    }
    let q = match keyword(input, pos, &kw::kw_let()) {
        None => {
            return Err(miss(ws_comments(input, pos), Expected::Keyword));
        },
        Some(q) => q,
    };
    let (e1, pat) = match pattern(input, q) {
        Err(f) => {
            return Err(f);
        },
        Ok(v) => v,
    };
    proof {
        lemma_ws_end(input@, e1 as int);
    }
    let e1 = ws_comments(input, e1);
    let (e2, type_annotation) = match type_annotation(input, e1) {
        Err(f) => {
            return Err(f);
        },
        Ok(v) => v,
    };
    proof {
        lemma_ws_end(input@, e2 as int);
    }
    let q3 = match ws_byte_at(input, e2, 61u8) {
        None => {
            return Err(miss(ws_comments(input, e2), Expected::Char(61u8)));
        },
        Some(q3) => q3,
    };
    match expression(input, q3) {
        Err(f) => Err(f),
        Ok((e4, value)) => Ok((e4, Decl::Let { pattern: pat, type_annotation, value, span: span_at(input, pos) })),
    }
}

/// `var` name (`:` type)? `=` expression; its span is recorded where it starts.
pub fn parse_var_declaration(input: &[u8], pos: usize) -> (r: Result<(usize, Decl), ParseFailure>)
    requires
        pos <= input@.len(),
    ensures
        decl_outcome(r) == var_declaration_at(input@, pos as int),
        r matches Ok((e, _)) ==> pos < e <= input@.len(),
        r matches Err(f) ==> f.pos <= input@.len(),
    decreases input@.len() - pos, 1int,
{
    proof {
        reveal_with_fuel(expression_at, 1);
        reveal_with_fuel(var_declaration_at, 1);
    }
    proof {
        lemma_ws_end(input@, pos as int);
    }
    let q = match keyword(input, pos, &kw::kw_var()) {
        None => {
            return Err(miss(ws_comments(input, pos), Expected::Keyword));
        },
        Some(q) => q,
    };
    proof {
        lemma_ws_end(input@, q as int);
    }
    let (c, name) = match ws_identifier(input, q) {
        None => {
            return Err(miss(ws_comments(input, q), Expected::Keyword));
        },
        Some(v) => v,
    };
    let (e2, type_annotation) = match type_annotation(input, c) {
        Err(f) => {
            return Err(f);
        },
        Ok(v) => v,
    };
    proof {
        lemma_ws_end(input@, e2 as int);
    }
    let q3 = match ws_byte_at(input, e2, 61u8) {
        None => {
            return Err(miss(ws_comments(input, e2), Expected::Char(61u8)));
        },
        Some(q3) => q3,
    };
    proof {
        lemma_ws_end(input@, q3 as int);
    }
    let q4 = ws_comments(input, q3);
    match expression(input, q4) {
        Err(f) => Err(f),
        Ok((e4, value)) => {
            proof {
                lemma_ws_end(input@, e4 as int);
            }
            Ok((ws_comments(input, e4), Decl::Var { name, type_annotation, value, span: span_at(input, pos) }))
        },
    }
}

/// `let` name (generic parameters)? `=` function expression.
fn parse_let_handler_function(input: &[u8], pos: usize) -> (r: Result<(usize, LetHandlerFunction), ParseFailure>)
    requires
        pos <= input@.len(),
    ensures
        member_outcome(r) == let_handler_function_at(input@, pos as int),
        r matches Ok((e, _)) ==> pos < e <= input@.len(),
        r matches Err(f) ==> f.pos <= input@.len(),
    decreases input@.len() - pos, 1int,
{
    proof {
        reveal_with_fuel(function_expr_at, 1);
        reveal_with_fuel(generic_params_at, 1);
        reveal_with_fuel(let_handler_function_at, 1);
    }
    proof {
        lemma_ws_end(input@, pos as int);
    }
    let q = match keyword(input, pos, &kw::kw_let()) {
        None => {
            return Err(miss(ws_comments(input, pos), Expected::Keyword));
        },
        Some(q) => q,
    };
    proof {
        lemma_ws_end(input@, q as int);
    }
    let (c, name) = match ws_identifier(input, q) {
        None => {
            return Err(miss(ws_comments(input, q), Expected::Keyword));
        },
        Some(v) => v,
    };
    let (e1, generic_params): (usize, Option<Vec<GenericParam>>) = match parse_generic_params(input, c) {
        Ok((e, ps)) => (e, Some(ps)),
        Err(f) => {
            if f.fatal {
                return Err(f);
            }
            (c, None)
        },
    };
    proof {
        lemma_ws_end(input@, e1 as int);
    }
    let q2 = match ws_byte_at(input, e1, 61u8) {
        None => {
            return Err(miss(ws_comments(input, e1), Expected::Char(61u8)));
        },
        Some(q2) => q2,
    };
    match function_expr(input, q2) {
        Err(f) => Err(f),
        Ok((e2, body)) => {
            let span = span_at(input, input.len() - (e2 - pos));
            Ok((e2, LetHandlerFunction { name, generic_params, body, span }))
        },
    }
}

/// The functions of a handler body, up to its `}`.
fn handler_members(input: &[u8], pos: usize) -> (r: Result<(usize, Vec<LetHandlerFunction>), ParseFailure>)
    requires
        pos <= input@.len(),
    ensures
        members_outcome(r) == handler_members_at(input@, pos as int),
        r matches Ok((e, _)) ==> pos <= e <= input@.len(),
        r matches Err(f) ==> f.pos <= input@.len(),
    decreases input@.len() - pos, 2int,
{
    proof {
        reveal_with_fuel(handler_members_at, 1);
        reveal_with_fuel(let_handler_function_at, 1);
    }
    let mut items: Vec<LetHandlerFunction> = Vec::new();
    let mut cur = pos;
    loop
        invariant
            pos <= cur <= input@.len(),
            handler_members_at(input@, pos as int) == with_prefix(member_kinds(items@), handler_members_at(input@, cur as int)),
        decreases input@.len() - cur,
    {
        proof {
            reveal_with_fuel(handler_members_at, 1);
            reveal_with_fuel(let_handler_function_at, 1);
        }
        proof {
            lemma_ws_end(input@, cur as int);
            assert(member_kinds(items@) + Seq::empty() =~= member_kinds(items@));
        }
        let n = ws_comments(input, cur);
        if n < input.len() && input[n] == 125u8 {
            return Ok((n, items));
        }
        if n >= input.len() {
            return Err(miss(n, Expected::HandlerBodyEnd));
        }
        match parse_let_handler_function(input, n) {
            Err(f) => {
                return Err(f);
            },
            Ok((e, m)) => {
                let ghost items0 = items@;
                items.push(m);
                proof {
                    lemma_member_kinds_push(items0, items@.last());
                    assert(items@ =~= items0.push(items@.last()));
                    lemma_prefix_more(member_kinds(items0), member_kind(items@.last()), handler_members_at(input@, e as int));
                }
                cur = e;
            },
        }
    }
}

/// `handler` type `for` type `{` handler functions `}`.
pub fn parse_handler_declaration(input: &[u8], pos: usize) -> (r: Result<(usize, Decl), ParseFailure>)
    requires
        pos <= input@.len(),
    ensures
        decl_outcome(r) == handler_declaration_at(input@, pos as int),
        r matches Ok((e, _)) ==> pos < e <= input@.len(),
        r matches Err(f) ==> f.pos <= input@.len(),
    decreases input@.len() - pos, 1int,
{
    proof {
        reveal_with_fuel(handler_declaration_at, 1);
        reveal_with_fuel(handler_members_at, 1);
    }
    proof {
        lemma_ws_end(input@, pos as int);
    }
    let q = match keyword(input, pos, &kw::kw_handler()) {
        None => {
            return Err(miss(ws_comments(input, pos), Expected::Keyword));
        },
        Some(q) => q,
    };
    let (e1, effect_type) = match parse_type(input, q) {
        Err(f) => {
            return Err(f);
        },
        Ok(v) => v,
    };
    proof {
        lemma_ws_end(input@, e1 as int);
    }
    let q2 = match keyword(input, e1, &kw::kw_for()) {
        None => {
            return Err(miss(ws_comments(input, e1), Expected::Keyword));
        },
        Some(q2) => q2,
    };
    let (e2, target_type) = match parse_type(input, q2) {
        Err(f) => {
            return Err(f);
        },
        Ok(v) => v,
    };
    proof {
        lemma_ws_end(input@, e2 as int);
    }
    let q3 = match ws_byte_at(input, e2, 123u8) {
        None => {
            return Err(miss(ws_comments(input, e2), Expected::Char(123u8)));
        },
        Some(q3) => q3,
    };
    let (e3, members) = match handler_members(input, q3) {
        Err(f) => {
            return Err(f);
        },
        Ok(v) => v,
    };
    proof {
        lemma_ws_end(input@, e3 as int);
    }
    match ws_byte_at(input, e3, 125u8) {
        None => Err(fail(ws_comments(input, e3), Expected::Char(125u8))),
        Some(f) => {
            let span = span_at(input, input.len() - (f - pos));
            Ok((f, Decl::HandlerDecl(HandlerDecl { effect_type, target_type, members, span })))
        },
    }
}

/// A declaration: `let`, `var` or a handler.
pub fn parse_declaration(input: &[u8], pos: usize) -> (r: Result<(usize, Decl), ParseFailure>)
    requires
        pos <= input@.len(),
    ensures
        decl_outcome(r) == parse_declaration_at(input@, pos as int),
        r matches Ok((e, _)) ==> pos < e <= input@.len(),
        r matches Err(f) ==> f.pos <= input@.len(),
    decreases input@.len() - pos, 2int,
{
    proof {
        reveal_with_fuel(handler_declaration_at, 1);
        reveal_with_fuel(let_declaration_at, 1);
        reveal_with_fuel(parse_declaration_at, 1);
        reveal_with_fuel(var_declaration_at, 1);
    }
    let r1 = parse_let_declaration(input, pos);
    if !is_miss(&r1) {
        return r1;
    }
    let r2 = parse_var_declaration(input, pos);
    if !is_miss(&r2) {
        return r2;
    }
    parse_handler_declaration(input, pos)
}

/// name (`:` type)?: a generic parameter, with the given span.
fn generic_param(input: &[u8], pos: usize, span: crate::ast::Span) -> (r: Result<(usize, GenericParam), ParseFailure>)
    requires
        pos <= input@.len(),
    ensures
        generic_outcome(r) == generic_item_at(input@, pos as int, span),
        r matches Ok((e, _)) ==> pos < e <= input@.len(),
        r matches Err(f) ==> f.pos <= input@.len(),
{
    proof {
        reveal_with_fuel(generic_item_at, 1);
    }
    proof {
        reveal_with_fuel(generic_item_at, 1);
        lemma_ws_end(input@, pos as int);
    }
    let (c, name) = match ws_identifier(input, pos) {
        None => {
            return Err(miss(ws_comments(input, pos), Expected::Keyword));
        },
        Some(v) => v,
    };
    match type_annotation(input, c) {
        Err(f) => Err(f),
        Ok((e, constraints)) => Ok((e, GenericParam { name, constraints, span })),
    }
}

/// `<` name (`:` type)? separated by `,` `>`; every parameter's span is recorded where
/// the list starts.
pub fn parse_generic_params(input: &[u8], pos: usize) -> (r: Result<(usize, Vec<GenericParam>), ParseFailure>)
    requires
        pos <= input@.len(),
    ensures
        generics_outcome(r) == generic_params_at(input@, pos as int),
        r matches Ok((e, _)) ==> pos < e <= input@.len(),
        r matches Err(f) ==> f.pos <= input@.len(),
{
    proof {
        reveal_with_fuel(generic_items_at, 1);
        reveal_with_fuel(generic_params_at, 1);
    }
    proof {
        reveal_with_fuel(generic_params_at, 1);
        reveal_with_fuel(generic_items_at, 1);
        lemma_ws_end(input@, pos as int);
    }
    let q = match ws_byte_at(input, pos, 60u8) {
        None => {
            return Err(miss(ws_comments(input, pos), Expected::Char(60u8)));
        },
        Some(q) => q,
    };
    let span = span_at(input, pos);
    let mut items: Vec<GenericParam> = Vec::new();
    let mut cur = q;
    let mut failure: Option<ParseFailure> = None;
    proof {
        assert(generic_kinds(Seq::<GenericParam>::empty()) =~= Seq::<(Seq<char>, Option<TypeModel>, Span)>::empty());
    }
    match generic_param(input, q, span) {
        Err(f) => {
            if f.fatal {
                return Err(f);
            }
        },
        Ok((e, first)) => {
            items.push(first);
            cur = e;
            proof {
                assert(generic_kinds(items@) =~= seq![generic_kind(items@[0])]);
                lemma_prefix_more(Seq::<(Seq<char>, Option<TypeModel>, Span)>::empty(), generic_kind(items@[0]), generic_items_more_at(input@, e as int, span));
            }
            loop
                invariant_except_break
                    failure is None,
                invariant
                    q < cur <= input@.len(),
                    items@.len() >= 1,
                    generic_items_at(input@, q as int, span) == with_prefix(generic_kinds(items@), generic_items_more_at(input@, cur as int, span)),
                ensures
                    q < cur <= input@.len(),
                    failure matches Some(f) ==> f.fatal && f.pos <= input@.len()
                        && generic_items_at(input@, q as int, span) == failure_outcome::<Seq<(Seq<char>, Option<TypeModel>, Span)>>(f),
                    failure is None ==> generic_items_at(input@, q as int, span) == Parsed::Done(cur as int, generic_kinds(items@)),
                    items@.len() >= 1,
                decreases input@.len() - cur,
            {
                proof {
                    reveal_with_fuel(generic_item_at, 1);
                    reveal_with_fuel(generic_items_more_at, 1);
                    assert(generic_kinds(items@) + Seq::empty() =~= generic_kinds(items@));
                }
                let q2 = match ws_byte_at(input, cur, 44u8) {
                    None => {
                        break;
                    },
                    Some(q2) => q2,
                };
                match generic_param(input, q2, span) {
                    Err(f) => {
                        if f.fatal {
                            failure = Some(f);
                        }
                        break;
                    },
                    Ok((e2, p)) => {
                        let ghost items0 = items@;
                        items.push(p);
                        proof {
                            lemma_generic_kinds_push(items0, items@.last());
                            assert(items@ =~= items0.push(items@.last()));
                            lemma_prefix_more(generic_kinds(items0), generic_kind(items@.last()), generic_items_more_at(input@, e2 as int, span));
                        }
                        cur = e2;
                    },
                }
            }
        },
    }
    match failure {
        Some(f) => {
            return Err(f);
        },
        None => {},
    }
    let e = cur;
    proof {
        lemma_ws_end(input@, e as int);
    }
    match ws_byte_at(input, e, 62u8) {
        None => Err(fail(ws_comments(input, e), Expected::Char(62u8))),
        Some(f) => Ok((f, items)),
    }
}

// ---------------------------------------------------------------------------
// Type declarations, traits and implementations.
// ---------------------------------------------------------------------------

/// What a type declaration is: a record with its name, generic parameters and fields;
/// an enum with its name, generic parameters and variants; or an alias with its name,
/// generic parameters and the model of the type it names.
pub enum TypeDeclKind {
    Record(Seq<char>, Seq<(Seq<char>, Option<TypeModel>, Span)>, Seq<(Seq<char>, TypeModel)>, Span),
    Enum(Seq<char>, Seq<(Seq<char>, Option<TypeModel>, Span)>, Seq<(Seq<char>, Seq<TypeModel>, Span)>, Span),
    Alias(Seq<char>, Seq<(Seq<char>, Option<TypeModel>, Span)>, TypeModel, Span),
}

/// The kind of a record field: its name and the model of its type.
pub open spec fn field_kind(f: (String, Type)) -> (Seq<char>, TypeModel) {
    (f.0@, f.1.model())
}

/// The kinds of record fields.
pub open spec fn field_kinds(fs: Seq<(String, Type)>) -> Seq<(Seq<char>, TypeModel)> {
    Seq::new(fs.len(), |i: int| field_kind(fs[i]))
}

/// The kind of an enum variant: its name, the models of its field types and its span.
pub open spec fn variant_kind(v: EnumVariant) -> (Seq<char>, Seq<TypeModel>, Span) {
    (v.name@, types_model(v.fields@), v.span)
}

/// The kinds of enum variants.
pub open spec fn variant_kinds(vs: Seq<EnumVariant>) -> Seq<(Seq<char>, Seq<TypeModel>, Span)> {
    Seq::new(vs.len(), |i: int| variant_kind(vs[i]))
}

/// The kinds of record fields with one more.
pub proof fn lemma_field_kinds_push(fs: Seq<(String, Type)>, x: (String, Type))
    ensures
        field_kinds(fs.push(x)) == field_kinds(fs).push(field_kind(x)),
{
    assert(field_kinds(fs.push(x)) =~= field_kinds(fs).push(field_kind(x)));
}

/// The kinds of enum variants with one more.
pub proof fn lemma_variant_kinds_push(vs: Seq<EnumVariant>, x: EnumVariant)
    ensures
        variant_kinds(vs.push(x)) == variant_kinds(vs).push(variant_kind(x)),
{
    assert(variant_kinds(vs.push(x)) =~= variant_kinds(vs).push(variant_kind(x)));
}

/// The kinds of a sequence of declarations.
pub open spec fn decl_kinds(ds: Seq<Decl>) -> Seq<DeclKind> {
    Seq::new(ds.len(), |i: int| decl_kind(ds[i]))
}

/// The kind of a trait: its name, generic parameters, super trait, the kinds of its
/// methods and its span.
pub open spec fn trait_kind(t: TraitDecl) -> (Seq<char>, Seq<(Seq<char>, Option<TypeModel>, Span)>, Option<TypeModel>, Seq<DeclKind>, Span) {
    (t.name@, generic_kinds(t.type_parameters@), opt_type_model(t.super_trait), decl_kinds(t.methods@), t.span)
}

/// The kind of an implementation: its generic parameters, target type, trait, the
/// kinds of its methods and its span.
pub open spec fn impl_kind(t: ImplDecl) -> (Seq<(Seq<char>, Option<TypeModel>, Span)>, TypeModel, TypeModel, Seq<DeclKind>, Span) {
    (generic_kinds(t.type_parameters@), t.target_type.model(), t.trait_type.model(), decl_kinds(t.methods@), t.span)
}

/// The outcome of a function that reads a trait.
pub open spec fn trait_outcome(r: Result<(usize, TraitDecl), ParseFailure>) -> Parsed<(Seq<char>, Seq<(Seq<char>, Option<TypeModel>, Span)>, Option<TypeModel>, Seq<DeclKind>, Span)> {
    match r {
        Ok((e, t)) => Parsed::Done(e as int, trait_kind(t)),
        Err(f) => failure_outcome(f),
    }
}

/// The outcome of a function that reads an implementation.
pub open spec fn impl_outcome(r: Result<(usize, ImplDecl), ParseFailure>) -> Parsed<(Seq<(Seq<char>, Option<TypeModel>, Span)>, TypeModel, TypeModel, Seq<DeclKind>, Span)> {
    match r {
        Ok((e, t)) => Parsed::Done(e as int, impl_kind(t)),
        Err(f) => failure_outcome(f),
    }
}

/// The outcome of a function that reads declarations.
pub open spec fn decls_outcome(r: Result<(usize, Vec<Decl>), ParseFailure>) -> Parsed<Seq<DeclKind>> {
    match r {
        Ok((e, v)) => Parsed::Done(e as int, decl_kinds(v@)),
        Err(f) => failure_outcome(f),
    }
}

/// The kinds of declarations with one more.
pub proof fn lemma_decl_kinds_push(ds: Seq<Decl>, x: Decl)
    ensures
        decl_kinds(ds.push(x)) == decl_kinds(ds).push(decl_kind(x)),
{
    assert(decl_kinds(ds.push(x)) =~= decl_kinds(ds).push(decl_kind(x)));
}

/// The outcome of a function that reads a record field.
pub open spec fn field_outcome(r: Result<(usize, (String, Type)), ParseFailure>) -> Parsed<(Seq<char>, TypeModel)> {
    match r {
        Ok((e, f)) => Parsed::Done(e as int, field_kind(f)),
        Err(f) => failure_outcome(f),
    }
}

/// The outcome of a function that reads record fields.
pub open spec fn fields_outcome(r: Result<(usize, Vec<(String, Type)>), ParseFailure>) -> Parsed<Seq<(Seq<char>, TypeModel)>> {
    match r {
        Ok((e, v)) => Parsed::Done(e as int, field_kinds(v@)),
        Err(f) => failure_outcome(f),
    }
}

/// The outcome of a function that reads an enum variant.
pub open spec fn variant_outcome(r: Result<(usize, EnumVariant), ParseFailure>) -> Parsed<(Seq<char>, Seq<TypeModel>, Span)> {
    match r {
        Ok((e, v)) => Parsed::Done(e as int, variant_kind(v)),
        Err(f) => failure_outcome(f),
    }
}

/// The outcome of a function that reads enum variants.
pub open spec fn variants_outcome(r: Result<(usize, Vec<EnumVariant>), ParseFailure>) -> Parsed<Seq<(Seq<char>, Seq<TypeModel>, Span)>> {
    match r {
        Ok((e, v)) => Parsed::Done(e as int, variant_kinds(v@)),
        Err(f) => failure_outcome(f),
    }
}

/// The outcome of a function that reads the head of a type declaration: its name and
/// generic parameters.
pub open spec fn head_outcome(r: Result<(usize, (String, Vec<GenericParam>)), ParseFailure>) -> Parsed<(Seq<char>, Seq<(Seq<char>, Option<TypeModel>, Span)>)> {
    match r {
        Ok((e, h)) => Parsed::Done(e as int, (h.0@, generic_kinds(h.1@))),
        Err(f) => failure_outcome(f),
    }
}

/// The kind of a type declaration.
pub open spec fn type_decl_kind(d: TypeDecl) -> TypeDeclKind {
    match d {
        TypeDecl::Record { name, type_parameters, fields, span } => TypeDeclKind::Record(
            name@,
            generic_kinds(type_parameters@),
            field_kinds(fields@),
            span,
        ),
        TypeDecl::Enum { name, type_parameters, variants, span } => TypeDeclKind::Enum(
            name@,
            generic_kinds(type_parameters@),
            variant_kinds(variants@),
            span,
        ),
        TypeDecl::Alias { name, type_parameters, aliased_type, span } => TypeDeclKind::Alias(
            name@,
            generic_kinds(type_parameters@),
            aliased_type.model(),
            span,
        ),
    }
}

/// The outcome of a function that reads a type declaration.
pub open spec fn type_decl_outcome(r: Result<(usize, TypeDecl), ParseFailure>) -> Parsed<TypeDeclKind> {
    match r {
        Ok((e, d)) => Parsed::Done(e as int, type_decl_kind(d)),
        Err(f) => failure_outcome(f),
    }
}

/// name `:` type: a record field.
#[verifier::opaque]
pub open spec fn field_item_at(s: Seq<u8>, p: int) -> Parsed<(Seq<char>, TypeModel)> {
    match ws_ident(s, p) {
        None => Parsed::Failed(false, ws_end(s, p), Expected::Keyword),
        Some((a, b, c)) => match ws_byte(s, c, 58u8) {
            None => Parsed::Failed(false, ws_end(s, c), Expected::Char(58u8)),
            Some(q) => match type_at(s, q) {
                Parsed::Done(e, t) => Parsed::Done(e, (ascii_text(s.subrange(a, b)), t)),
                Parsed::Failed(fatal, x, k) => Parsed::Failed(fatal, x, k),
            },
        },
    }
}

/// Record fields separated by `,`, possibly none: their names and types.
#[verifier::opaque]
pub open spec fn field_items_at(s: Seq<u8>, p: int) -> Parsed<Seq<(Seq<char>, TypeModel)>> {
    match field_item_at(s, p) {
        Parsed::Failed(fatal, x, k) => if fatal {
            Parsed::Failed(true, x, k)
        } else {
            Parsed::Done(p, Seq::empty())
        },
        Parsed::Done(e, k) => one_more(k, field_items_more_at(s, e)),
    }
}

#[verifier::opaque]
pub open spec fn field_items_more_at(s: Seq<u8>, p: int) -> Parsed<Seq<(Seq<char>, TypeModel)>>
    decreases s.len() - p,
{
    match ws_byte(s, p, 44u8) {
        None => Parsed::Done(p, Seq::empty()),
        Some(q) => match field_item_at(s, q) {
            Parsed::Failed(fatal, x, k) => if fatal {
                Parsed::Failed(true, x, k)
            } else {
                Parsed::Done(p, Seq::empty())
            },
            Parsed::Done(e, k) => if forward(s, p, e) {
                one_more(k, field_items_more_at(s, e))
            } else {
                Parsed::Done(e, seq![k])
            },
        },
    }
}

/// The name of a type declaration after its keyword, then its optional generic
/// parameters: the name and the generic parameters (none when absent).
#[verifier::opaque]
pub open spec fn decl_head_at(s: Seq<u8>, p: int) -> Parsed<(Seq<char>, Seq<(Seq<char>, Option<TypeModel>, Span)>)> {
    match ws_ident(s, p) {
        None => Parsed::Failed(false, ws_end(s, p), Expected::Keyword),
        Some((a, b, c)) => match optional_value(generic_params_at(s, c), c) {
            Parsed::Failed(fatal, x, k) => Parsed::Failed(fatal, x, k),
            Parsed::Done(e, g) => Parsed::Done(
                e,
                (
                    ascii_text(s.subrange(a, b)),
                    match g {
                        Some(gs) => gs,
                        None => Seq::empty(),
                    },
                ),
            ),
        },
    }
}

/// `type` name (generic parameters)? `=` `{` fields `}`.
#[verifier::opaque]
pub open spec fn record_type_declaration_at(s: Seq<u8>, p: int) -> Parsed<TypeDeclKind> {
    match ws_lit(s, p, kw::lit_type()) {
        None => Parsed::Failed(false, ws_end(s, p), Expected::Keyword),
        Some(q) => match decl_head_at(s, q) {
            Parsed::Failed(fatal, x, k) => Parsed::Failed(fatal, x, k),
            Parsed::Done(e1, head) => match ws_lit(s, e1, kw::lit_eq()) {
                None => Parsed::Failed(false, ws_end(s, e1), Expected::Keyword),
                Some(q2) => match ws_byte(s, q2, 123u8) {
                    None => Parsed::Failed(false, ws_end(s, q2), Expected::Char(123u8)),
                    Some(q3) => match field_items_at(s, q3) {
                        Parsed::Failed(fatal, x, k) => Parsed::Failed(fatal, x, k),
                        Parsed::Done(e, fs) => match ws_byte(s, e, 125u8) {
                            None => Parsed::Failed(true, ws_end(s, e), Expected::Char(125u8)),
                            Some(f) => Parsed::Done(f, TypeDeclKind::Record(head.0, head.1, fs, span_of(s, f))),
                        },
                    },
                },
            },
        },
    }
}

/// name (`(` types `)`)?: an enum variant, its name and the models of its field types.
#[verifier::opaque]
pub open spec fn enum_variant_at(s: Seq<u8>, p: int) -> Parsed<(Seq<char>, Seq<TypeModel>, Span)> {
    match ws_ident(s, p) {
        None => Parsed::Failed(false, ws_end(s, p), Expected::Keyword),
        Some((a, b, c)) => match ws_byte(s, c, 40u8) {
            None => Parsed::Done(c, (ascii_text(s.subrange(a, b)), Seq::empty(), span_of(s, c))),
            Some(q) => match type_list_at(s, q) {
                Parsed::Failed(fatal, x, k) => if fatal {
                    Parsed::Failed(true, x, k)
                } else {
                    Parsed::Done(c, (ascii_text(s.subrange(a, b)), Seq::empty(), span_of(s, c)))
                },
                Parsed::Done(e, ts) => match ws_byte(s, e, 41u8) {
                    None => Parsed::Failed(true, ws_end(s, e), Expected::Char(41u8)),
                    Some(f) => Parsed::Done(f, (ascii_text(s.subrange(a, b)), ts, span_of(s, f))),
                },
            },
        },
    }
}

/// Enum variants separated by `,`, possibly none: their kinds.
#[verifier::opaque]
pub open spec fn variant_items_at(s: Seq<u8>, p: int) -> Parsed<Seq<(Seq<char>, Seq<TypeModel>, Span)>> {
    match enum_variant_at(s, p) {
        Parsed::Failed(fatal, x, k) => if fatal {
            Parsed::Failed(true, x, k)
        } else {
            Parsed::Done(p, Seq::empty())
        },
        Parsed::Done(e, k) => one_more(k, variant_items_more_at(s, e)),
    }
}

#[verifier::opaque]
pub open spec fn variant_items_more_at(s: Seq<u8>, p: int) -> Parsed<Seq<(Seq<char>, Seq<TypeModel>, Span)>>
    decreases s.len() - p,
{
    match ws_byte(s, p, 44u8) {
        None => Parsed::Done(p, Seq::empty()),
        Some(q) => match enum_variant_at(s, q) {
            Parsed::Failed(fatal, x, k) => if fatal {
                Parsed::Failed(true, x, k)
            } else {
                Parsed::Done(p, Seq::empty())
            },
            Parsed::Done(e, k) => if forward(s, p, e) {
                one_more(k, variant_items_more_at(s, e))
            } else {
                Parsed::Done(e, seq![k])
            },
        },
    }
}

/// `enum` name (generic parameters)? `{` variants `}`.
#[verifier::opaque]
pub open spec fn enum_declaration_at(s: Seq<u8>, p: int) -> Parsed<TypeDeclKind> {
    match ws_lit(s, p, kw::lit_enum()) {
        None => Parsed::Failed(false, ws_end(s, p), Expected::Keyword),
        Some(q) => match decl_head_at(s, q) {
            Parsed::Failed(fatal, x, k) => Parsed::Failed(fatal, x, k),
            Parsed::Done(e1, head) => match ws_byte(s, e1, 123u8) {
                None => Parsed::Failed(false, ws_end(s, e1), Expected::Char(123u8)),
                Some(q3) => match variant_items_at(s, q3) {
                    Parsed::Failed(fatal, x, k) => Parsed::Failed(fatal, x, k),
                    Parsed::Done(e, vs) => match ws_byte(s, e, 125u8) {
                        None => Parsed::Failed(true, ws_end(s, e), Expected::Char(125u8)),
                        Some(f) => Parsed::Done(f, TypeDeclKind::Enum(head.0, head.1, vs, span_of(s, f))),
                    },
                },
            },
        },
    }
}

/// `type` name (generic parameters)? `=` type.
#[verifier::opaque]
pub open spec fn type_alias_at(s: Seq<u8>, p: int) -> Parsed<TypeDeclKind> {
    match ws_lit(s, p, kw::lit_type()) {
        None => Parsed::Failed(false, ws_end(s, p), Expected::Keyword),
        Some(q) => match decl_head_at(s, q) {
            Parsed::Failed(fatal, x, k) => Parsed::Failed(fatal, x, k),
            Parsed::Done(e1, head) => match ws_lit(s, e1, kw::lit_eq()) {
                None => Parsed::Failed(false, ws_end(s, e1), Expected::Keyword),
                Some(q2) => match type_at(s, q2) {
                    Parsed::Failed(fatal, x, k) => Parsed::Failed(fatal, x, k),
                    Parsed::Done(e, t) => Parsed::Done(e, TypeDeclKind::Alias(head.0, head.1, t, span_of(s, e))),
                },
            },
        },
    }
}

/// The first of record, enum and alias declarations that reads one.
#[verifier::opaque]
pub open spec fn type_declaration_at(s: Seq<u8>, p: int) -> Parsed<TypeDeclKind> {
    let r1 = record_type_declaration_at(s, p);
    if !missed(r1) {
        r1
    } else {
        let r2 = enum_declaration_at(s, p);
        if !missed(r2) {
            r2
        } else {
            type_alias_at(s, p)
        }
    }
}

/// The position after an optional `;` and the white space around it.
pub open spec fn semicolon_end(s: Seq<u8>, e: int) -> int {
    let q = ws_end(s, e);
    if 0 <= q < s.len() && s[q] == 59u8 {
        ws_end(s, q + 1)
    } else {
        ws_end(s, q)
    }
}

/// Declarations, each followed by an optional `;`: their kinds.
#[verifier::opaque]
pub open spec fn decl_list_at(s: Seq<u8>, p: int) -> Parsed<Seq<DeclKind>>
    decreases s.len() - p,
{
    match parse_declaration_at(s, p) {
        Parsed::Failed(fatal, x, k) => if fatal {
            Parsed::Failed(true, x, k)
        } else {
            Parsed::Done(p, Seq::empty())
        },
        Parsed::Done(e, k) => {
            let e2 = semicolon_end(s, e);
            if forward(s, p, e2) {
                one_more(k, decl_list_at(s, e2))
            } else {
                Parsed::Done(e2, seq![k])
            }
        },
    }
}

/// `trait` name (generic parameters)? (`:` type)? `{` declarations `}`: its name,
/// generic parameters, super trait and the kinds of its methods.
#[verifier::opaque]
pub open spec fn trait_declaration_at(s: Seq<u8>, p: int) -> Parsed<(Seq<char>, Seq<(Seq<char>, Option<TypeModel>, Span)>, Option<TypeModel>, Seq<DeclKind>, Span)> {
    match ws_lit(s, p, kw::lit_trait()) {
        None => Parsed::Failed(false, ws_end(s, p), Expected::Keyword),
        Some(q) => match decl_head_at(s, q) {
            Parsed::Failed(fatal, x, k) => Parsed::Failed(fatal, x, k),
            Parsed::Done(e1, head) => match annotation_at(s, e1) {
                Parsed::Failed(fatal, x, k) => Parsed::Failed(fatal, x, k),
                Parsed::Done(e2, sup) => match ws_byte(s, e2, 123u8) {
                    None => Parsed::Failed(false, ws_end(s, e2), Expected::Char(123u8)),
                    Some(q3) => match decl_list_at(s, q3) {
                        Parsed::Failed(fatal, x, k) => Parsed::Failed(fatal, x, k),
                        Parsed::Done(e, ms) => match ws_byte(s, e, 125u8) {
                            None => Parsed::Failed(true, ws_end(s, e), Expected::Char(125u8)),
                            Some(f) => Parsed::Done(f, (head.0, head.1, sup, ms, span_of(s, f))),
                        },
                    },
                },
            },
        },
    }
}

/// `impl` (generic parameters)? type `:` type `{` declarations `}`: its generic
/// parameters (none when absent), target type, trait and the kinds of its methods.
#[verifier::opaque]
pub open spec fn impl_declaration_at(s: Seq<u8>, p: int) -> Parsed<(Seq<(Seq<char>, Option<TypeModel>, Span)>, TypeModel, TypeModel, Seq<DeclKind>, Span)> {
    match ws_lit(s, p, kw::lit_impl()) {
        None => Parsed::Failed(false, ws_end(s, p), Expected::Keyword),
        Some(q) => match optional_value(generic_params_at(s, q), q) {
            Parsed::Failed(fatal, x, k) => Parsed::Failed(fatal, x, k),
            Parsed::Done(e0, g) => match type_at(s, e0) {
                Parsed::Failed(fatal, x, k) => Parsed::Failed(fatal, x, k),
                Parsed::Done(e1, t1) => match ws_byte(s, e1, 58u8) {
                    None => Parsed::Failed(false, ws_end(s, e1), Expected::Char(58u8)),
                    Some(q2) => match type_at(s, q2) {
                        Parsed::Failed(fatal, x, k) => Parsed::Failed(fatal, x, k),
                        Parsed::Done(e2, t2) => match ws_byte(s, e2, 123u8) {
                            None => Parsed::Failed(false, ws_end(s, e2), Expected::Char(123u8)),
                            Some(q3) => match decl_list_at(s, q3) {
                                Parsed::Failed(fatal, x, k) => Parsed::Failed(fatal, x, k),
                                Parsed::Done(e, ms) => match ws_byte(s, e, 125u8) {
                                    None => Parsed::Failed(true, ws_end(s, e), Expected::Char(125u8)),
                                    Some(f) => Parsed::Done(
                                        f,
                                        (
                                            match g {
                                                Some(gs) => gs,
                                                None => Seq::empty(),
                                            },
                                            t1,
                                            t2,
                                            ms,
                                            span_of(s, f),
                                        ),
                                    ),
                                },
                            },
                        },
                    },
                },
            },
        },
    }
}

/// A record field: its name and type.
fn record_field(input: &[u8], pos: usize) -> (r: Result<(usize, (String, Type)), ParseFailure>)
    requires
        pos <= input@.len(),
    ensures
        field_outcome(r) == field_item_at(input@, pos as int),
        r matches Ok((e, _)) ==> pos < e <= input@.len(),
        r matches Err(f) ==> f.pos <= input@.len(),
{
    proof {
        reveal_with_fuel(field_item_at, 1);
    }
    proof {
        lemma_ws_end(input@, pos as int);
    }
    let (c, name) = match ws_identifier(input, pos) {
        None => {
            return Err(miss(ws_comments(input, pos), Expected::Keyword));
        },
        Some(v) => v,
    };
    proof {
        lemma_ws_end(input@, c as int);
    }
    let q = match ws_byte_at(input, c, 58u8) {
        None => {
            return Err(miss(ws_comments(input, c), Expected::Char(58u8)));
        },
        Some(q) => q,
    };
    match parse_type(input, q) {
        Ok((e, t)) => Ok((e, (name, t))),
        Err(f) => Err(f),
    }
}

/// Record fields separated by `,`.
fn record_fields(input: &[u8], pos: usize) -> (r: Result<(usize, Vec<(String, Type)>), ParseFailure>)
    requires
        pos <= input@.len(),
    ensures
        fields_outcome(r) == field_items_at(input@, pos as int),
        r matches Ok((e, _)) ==> pos <= e <= input@.len(),
        r matches Err(f) ==> f.pos <= input@.len(),
{
    proof {
        reveal_with_fuel(field_item_at, 1);
        reveal_with_fuel(field_items_at, 1);
        reveal_with_fuel(field_items_more_at, 1);
    }
    proof {
        assert(field_kinds(Seq::<(String, Type)>::empty()) =~= Seq::<(Seq<char>, TypeModel)>::empty());
    }
    let (e, first) = match record_field(input, pos) {
        Err(f) => {
            if f.fatal {
                return Err(f);
            }
            return Ok((pos, Vec::new()));
        },
        Ok(v) => v,
    };
    let mut items: Vec<(String, Type)> = Vec::new();
    items.push(first);
    proof {
        assert(field_kinds(items@) =~= seq![field_kind(items@[0])]);
        lemma_prefix_more(Seq::<(Seq<char>, TypeModel)>::empty(), field_kind(items@[0]), field_items_more_at(input@, e as int));
    }
    let mut cur = e;
    loop
        invariant
            pos < cur <= input@.len(),
            items@.len() >= 1,
            field_items_at(input@, pos as int) == with_prefix(field_kinds(items@), field_items_more_at(input@, cur as int)),
        decreases input@.len() - cur,
    {
        proof {
            assert(field_kinds(items@) + Seq::empty() =~= field_kinds(items@));
            reveal_with_fuel(field_item_at, 1);
            reveal_with_fuel(field_items_more_at, 1);
        }
        let q = match ws_byte_at(input, cur, 44u8) {
            None => {
                return Ok((cur, items));
            },
            Some(q) => q,
        };
        match record_field(input, q) {
            Err(f) => {
                if f.fatal {
                    return Err(f);
                }
                return Ok((cur, items));
            },
            Ok((e2, x)) => {
                let ghost items0 = items@;
                items.push(x);
                proof {
                    lemma_field_kinds_push(items0, items@.last());
                    assert(items@ =~= items0.push(items@.last()));
                    lemma_prefix_more(field_kinds(items0), field_kind(items@.last()), field_items_more_at(input@, e2 as int));
                }
                cur = e2;
            },
        }
    }
}

/// The name of a declaration after its keyword and its optional generic parameters.
fn decl_head(input: &[u8], pos: usize) -> (r: Result<(usize, (String, Vec<GenericParam>)), ParseFailure>)
    requires
        pos <= input@.len(),
    ensures
        head_outcome(r) == decl_head_at(input@, pos as int),
        r matches Ok((e, _)) ==> pos < e <= input@.len(),
        r matches Err(f) ==> f.pos <= input@.len(),
{
    proof {
        reveal_with_fuel(decl_head_at, 1);
        reveal_with_fuel(generic_params_at, 1);
    }
    proof {
        lemma_ws_end(input@, pos as int);
    }
    let (c, name) = match ws_identifier(input, pos) {
        None => {
            return Err(miss(ws_comments(input, pos), Expected::Keyword));
        },
        Some(v) => v,
    };
    proof {
        assert(generic_kinds(Seq::<GenericParam>::empty()) =~= Seq::<(Seq<char>, Option<TypeModel>, Span)>::empty());
    }
    match parse_generic_params(input, c) {
        Ok((e, ps)) => Ok((e, (name, ps))),
        Err(f) => {
            if f.fatal {
                return Err(f);
            }
            Ok((c, (name, Vec::new())))
        },
    }
}

/// `type` name (generic parameters)? `=` `{` fields `}`.
pub fn parse_record_type_declaration(input: &[u8], pos: usize) -> (r: Result<(usize, TypeDecl), ParseFailure>)
    requires
        pos <= input@.len(),
    ensures
        type_decl_outcome(r) == record_type_declaration_at(input@, pos as int),
        r matches Ok((e, _)) ==> pos < e <= input@.len(),
        r matches Err(f) ==> f.pos <= input@.len(),
{
    proof {
        reveal_with_fuel(decl_head_at, 1);
        reveal_with_fuel(field_items_at, 1);
        reveal_with_fuel(record_type_declaration_at, 1);
    }
    proof {
        lemma_ws_end(input@, pos as int);
    }
    let q = match keyword(input, pos, &kw::kw_type()) {
        None => {
            return Err(miss(ws_comments(input, pos), Expected::Keyword));
        },
        Some(q) => q,
    };
    let (e1, (name, type_parameters)) = match decl_head(input, q) {
        Err(f) => {
            return Err(f);
        },
        Ok(v) => v,
    };
    proof {
        lemma_ws_end(input@, e1 as int);
    }
    let q2 = match keyword(input, e1, &kw::kw_eq()) {
        None => {
            return Err(miss(ws_comments(input, e1), Expected::Keyword));
        },
        Some(q2) => q2,
    };
    proof {
        lemma_ws_end(input@, q2 as int);
    }
    let q3 = match ws_byte_at(input, q2, 123u8) {
        None => {
            return Err(miss(ws_comments(input, q2), Expected::Char(123u8)));
        },
        Some(q3) => q3,
    };
    let (e, fields) = match record_fields(input, q3) {
        Err(f) => {
            return Err(f);
        },
        Ok(v) => v,
    };
    proof {
        lemma_ws_end(input@, e as int);
    }
    match ws_byte_at(input, e, 125u8) {
        None => Err(fail(ws_comments(input, e), Expected::Char(125u8))),
        Some(f) => Ok((f, TypeDecl::Record { name, type_parameters, fields, span: span_at(input, f) })),
    }
}

/// An enum variant: name (`(` types `)`)?.
fn parse_enum_variant(input: &[u8], pos: usize) -> (r: Result<(usize, EnumVariant), ParseFailure>)
    requires
        pos <= input@.len(),
    ensures
        variant_outcome(r) == enum_variant_at(input@, pos as int),
        r matches Ok((e, _)) ==> pos < e <= input@.len(),
        r matches Err(f) ==> f.pos <= input@.len(),
{
    proof {
        reveal_with_fuel(enum_variant_at, 1);
    }
    proof {
        lemma_ws_end(input@, pos as int);
    }
    let (c, name) = match ws_identifier(input, pos) {
        None => {
            return Err(miss(ws_comments(input, pos), Expected::Keyword));
        },
        Some(v) => v,
    };
    proof {
        assert(types_model(Seq::<Type>::empty()) =~= Seq::<TypeModel>::empty());
    }
    let (e, fields): (usize, Vec<Type>) = match ws_byte_at(input, c, 40u8) {
        None => (c, Vec::new()),
        Some(q) => match type_list(input, q) {
            Err(f) => {
                if f.fatal {
                    return Err(f);
                }
                (c, Vec::new())
            },
            Ok((e1, ts)) => {
                proof {
                    lemma_ws_end(input@, e1 as int);
                }
                match ws_byte_at(input, e1, 41u8) {
                    None => {
                        return Err(fail(ws_comments(input, e1), Expected::Char(41u8)));
                    },
                    Some(f) => (f, ts),
                }
            },
        },
    };
    Ok((e, EnumVariant { name, fields, span: span_at(input, e) }))
}

/// Enum variants separated by `,`.
fn enum_variants(input: &[u8], pos: usize) -> (r: Result<(usize, Vec<EnumVariant>), ParseFailure>)
    requires
        pos <= input@.len(),
    ensures
        variants_outcome(r) == variant_items_at(input@, pos as int),
        r matches Ok((e, _)) ==> pos <= e <= input@.len(),
        r matches Err(f) ==> f.pos <= input@.len(),
{
    proof {
        reveal_with_fuel(enum_variant_at, 1);
        reveal_with_fuel(variant_items_at, 1);
        reveal_with_fuel(variant_items_more_at, 1);
    }
    proof {
        assert(variant_kinds(Seq::<EnumVariant>::empty()) =~= Seq::<(Seq<char>, Seq<TypeModel>, Span)>::empty());
    }
    let (e, first) = match parse_enum_variant(input, pos) {
        Err(f) => {
            if f.fatal {
                return Err(f);
            }
            return Ok((pos, Vec::new()));
        },
        Ok(v) => v,
    };
    let mut items: Vec<EnumVariant> = Vec::new();
    items.push(first);
    proof {
        assert(variant_kinds(items@) =~= seq![variant_kind(items@[0])]);
        lemma_prefix_more(Seq::<(Seq<char>, Seq<TypeModel>, Span)>::empty(), variant_kind(items@[0]), variant_items_more_at(input@, e as int));
    }
    let mut cur = e;
    loop
        invariant
            pos < cur <= input@.len(),
            items@.len() >= 1,
            variant_items_at(input@, pos as int) == with_prefix(variant_kinds(items@), variant_items_more_at(input@, cur as int)),
        decreases input@.len() - cur,
    {
        proof {
            assert(variant_kinds(items@) + Seq::empty() =~= variant_kinds(items@));
            reveal_with_fuel(enum_variant_at, 1);
            reveal_with_fuel(variant_items_more_at, 1);
        }
        let q = match ws_byte_at(input, cur, 44u8) {
            None => {
                return Ok((cur, items));
            },
            Some(q) => q,
        };
        match parse_enum_variant(input, q) {
            Err(f) => {
                if f.fatal {
                    return Err(f);
                }
                return Ok((cur, items));
            },
            Ok((e2, x)) => {
                let ghost items0 = items@;
                items.push(x);
                proof {
                    lemma_variant_kinds_push(items0, items@.last());
                    assert(items@ =~= items0.push(items@.last()));
                    lemma_prefix_more(variant_kinds(items0), variant_kind(items@.last()), variant_items_more_at(input@, e2 as int));
                }
                cur = e2;
            },
        }
    }
}

/// `enum` name (generic parameters)? `{` variants `}`.
pub fn parse_enum_declaration(input: &[u8], pos: usize) -> (r: Result<(usize, TypeDecl), ParseFailure>)
    requires
        pos <= input@.len(),
    ensures
        type_decl_outcome(r) == enum_declaration_at(input@, pos as int),
        r matches Ok((e, _)) ==> pos < e <= input@.len(),
        r matches Err(f) ==> f.pos <= input@.len(),
{
    proof {
        reveal_with_fuel(decl_head_at, 1);
        reveal_with_fuel(enum_declaration_at, 1);
        reveal_with_fuel(variant_items_at, 1);
    }
    proof {
        lemma_ws_end(input@, pos as int);
    }
    let q = match keyword(input, pos, &kw::kw_enum()) {
        None => {
            return Err(miss(ws_comments(input, pos), Expected::Keyword));
        },
        Some(q) => q,
    };
    let (e1, (name, type_parameters)) = match decl_head(input, q) {
        Err(f) => {
            return Err(f);
        },
        Ok(v) => v,
    };
    proof {
        lemma_ws_end(input@, e1 as int);
    }
    let q3 = match ws_byte_at(input, e1, 123u8) {
        None => {
            return Err(miss(ws_comments(input, e1), Expected::Char(123u8)));
        },
        Some(q3) => q3,
    };
    let (e, variants) = match enum_variants(input, q3) {
        Err(f) => {
            return Err(f);
        },
        Ok(v) => v,
    };
    proof {
        lemma_ws_end(input@, e as int);
    }
    match ws_byte_at(input, e, 125u8) {
        None => Err(fail(ws_comments(input, e), Expected::Char(125u8))),
        Some(f) => Ok((f, TypeDecl::Enum { name, type_parameters, variants, span: span_at(input, f) })),
    }
}

/// `type` name (generic parameters)? `=` type.
pub fn parse_type_alias(input: &[u8], pos: usize) -> (r: Result<(usize, TypeDecl), ParseFailure>)
    requires
        pos <= input@.len(),
    ensures
        type_decl_outcome(r) == type_alias_at(input@, pos as int),
        r matches Ok((e, _)) ==> pos < e <= input@.len(),
        r matches Err(f) ==> f.pos <= input@.len(),
{
    proof {
        reveal_with_fuel(decl_head_at, 1);
        reveal_with_fuel(type_alias_at, 1);
    }
    proof {
        lemma_ws_end(input@, pos as int);
    }
    let q = match keyword(input, pos, &kw::kw_type()) {
        None => {
            return Err(miss(ws_comments(input, pos), Expected::Keyword));
        },
        Some(q) => q,
    };
    let (e1, (name, type_parameters)) = match decl_head(input, q) {
        Err(f) => {
            return Err(f);
        },
        Ok(v) => v,
    };
    proof {
        lemma_ws_end(input@, e1 as int);
    }
    let q2 = match keyword(input, e1, &kw::kw_eq()) {
        None => {
            return Err(miss(ws_comments(input, e1), Expected::Keyword));
        },
        Some(q2) => q2,
    };
    match parse_type(input, q2) {
        Err(f) => Err(f),
        Ok((e, aliased_type)) => Ok((e, TypeDecl::Alias { name, type_parameters, aliased_type, span: span_at(input, e) })),
    }
}

/// A type declaration: record, enum or alias.
pub fn parse_type_declaration(input: &[u8], pos: usize) -> (r: Result<(usize, TypeDecl), ParseFailure>)
    requires
        pos <= input@.len(),
    ensures
        type_decl_outcome(r) == type_declaration_at(input@, pos as int),
        r matches Ok((e, _)) ==> pos < e <= input@.len(),
        r matches Err(f) ==> f.pos <= input@.len(),
{
    proof {
        reveal_with_fuel(enum_declaration_at, 1);
        reveal_with_fuel(record_type_declaration_at, 1);
        reveal_with_fuel(type_alias_at, 1);
        reveal_with_fuel(type_declaration_at, 1);
    }
    let r1 = parse_record_type_declaration(input, pos);
    if !is_miss(&r1) {
        return r1;
    }
    let r2 = parse_enum_declaration(input, pos);
    if !is_miss(&r2) {
        return r2;
    }
    parse_type_alias(input, pos)
}

/// The position after an optional `;` and the white space around it.
fn semicolon(input: &[u8], e: usize) -> (r: usize)
    requires
        e <= input@.len(),
    ensures
        r == semicolon_end(input@, e as int),
        e <= r <= input@.len(),
{
    proof {
        lemma_ws_end(input@, e as int);
    }
    let q = ws_comments(input, e);
    proof {
        lemma_ws_end(input@, q as int);
    }
    if q < input.len() && input[q] == 59u8 {
        proof {
            lemma_ws_end(input@, q + 1);
        }
        ws_comments(input, q + 1)
    } else {
        ws_comments(input, q)
    }
}

/// Declarations, each followed by an optional `;`.
#[verifier::spinoff_prover]
#[verifier::rlimit(60)]
fn decl_list(input: &[u8], pos: usize) -> (r: Result<(usize, Vec<Decl>), ParseFailure>)
    requires
        pos <= input@.len(),
    ensures
        decls_outcome(r) == decl_list_at(input@, pos as int),
        r matches Ok((e, _)) ==> pos <= e <= input@.len(),
        r matches Err(f) ==> f.pos <= input@.len(),
{
    proof {
        reveal_with_fuel(decl_list_at, 1);
        reveal_with_fuel(parse_declaration_at, 1);
    }
    let mut items: Vec<Decl> = Vec::new();
    let mut cur = pos;
    loop
        invariant
            pos <= cur <= input@.len(),
            decl_list_at(input@, pos as int) == with_prefix(decl_kinds(items@), decl_list_at(input@, cur as int)),
        decreases input@.len() - cur,
    {
        proof {
            reveal_with_fuel(decl_list_at, 1);
            reveal_with_fuel(parse_declaration_at, 1);
            assert(decl_kinds(items@) + Seq::empty() =~= decl_kinds(items@));
        }
        match parse_declaration(input, cur) {
            Err(f) => {
                if f.fatal {
                    return Err(f);
                }
                return Ok((cur, items));
            },
            Ok((e, d)) => {
                let ghost items0 = items@;
                items.push(d);
                let next = semicolon(input, e);
                proof {
                    lemma_decl_kinds_push(items0, items@.last());
                    assert(items@ =~= items0.push(items@.last()));
                    lemma_prefix_more(decl_kinds(items0), decl_kind(items@.last()), decl_list_at(input@, next as int));
                }
                cur = next;
            },
        }
    }
}

/// `trait` name (generic parameters)? (`:` type)? `{` declarations `}`.
pub fn parse_trait_declaration(input: &[u8], pos: usize) -> (r: Result<(usize, TraitDecl), ParseFailure>)
    requires
        pos <= input@.len(),
    ensures
        trait_outcome(r) == trait_declaration_at(input@, pos as int),
        r matches Ok((e, _)) ==> pos < e <= input@.len(),
        r matches Err(f) ==> f.pos <= input@.len(),
{
    proof {
        reveal_with_fuel(decl_head_at, 1);
        reveal_with_fuel(decl_list_at, 1);
        reveal_with_fuel(trait_declaration_at, 1);
    }
    proof {
        lemma_ws_end(input@, pos as int);
    }
    let q = match keyword(input, pos, &kw::kw_trait()) {
        None => {
            return Err(miss(ws_comments(input, pos), Expected::Keyword));
        },
        Some(q) => q,
    };
    let (e1, (name, type_parameters)) = match decl_head(input, q) {
        Err(f) => {
            return Err(f);
        },
        Ok(v) => v,
    };
    let (e2, super_trait) = match type_annotation(input, e1) {
        Err(f) => {
            return Err(f);
        },
        Ok(v) => v,
    };
    proof {
        lemma_ws_end(input@, e2 as int);
    }
    let q3 = match ws_byte_at(input, e2, 123u8) {
        None => {
            return Err(miss(ws_comments(input, e2), Expected::Char(123u8)));
        },
        Some(q3) => q3,
    };
    let (e, methods) = match decl_list(input, q3) {
        Err(f) => {
            return Err(f);
        },
        Ok(v) => v,
    };
    proof {
        lemma_ws_end(input@, e as int);
    }
    match ws_byte_at(input, e, 125u8) {
        None => Err(fail(ws_comments(input, e), Expected::Char(125u8))),
        Some(f) => Ok((f, TraitDecl { name, type_parameters, super_trait, methods, span: span_at(input, f) })),
    }
}

/// `impl` (generic parameters)? type `:` type `{` declarations `}`.
pub fn parse_impl_declaration(input: &[u8], pos: usize) -> (r: Result<(usize, ImplDecl), ParseFailure>)
    requires
        pos <= input@.len(),
    ensures
        impl_outcome(r) == impl_declaration_at(input@, pos as int),
        r matches Ok((e, _)) ==> pos < e <= input@.len(),
        r matches Err(f) ==> f.pos <= input@.len(),
{
    proof {
        reveal_with_fuel(decl_list_at, 1);
        reveal_with_fuel(generic_params_at, 1);
        reveal_with_fuel(impl_declaration_at, 1);
    }
    proof {
        lemma_ws_end(input@, pos as int);
    }
    let q = match keyword(input, pos, &kw::kw_impl()) {
        None => {
            return Err(miss(ws_comments(input, pos), Expected::Keyword));
        },
        Some(q) => q,
    };
    proof {
        assert(generic_kinds(Seq::<GenericParam>::empty()) =~= Seq::<(Seq<char>, Option<TypeModel>, Span)>::empty());
    }
    let (e0, type_parameters): (usize, Vec<GenericParam>) = match parse_generic_params(input, q) {
        Ok(v) => v,
        Err(f) => {
            if f.fatal {
                return Err(f);
            }
            (q, Vec::new())
        },
    };
    let (e1, target_type) = match parse_type(input, e0) {
        Err(f) => {
            return Err(f);
        },
        Ok(v) => v,
    };
    proof {
        lemma_ws_end(input@, e1 as int);
    }
    let q2 = match ws_byte_at(input, e1, 58u8) {
        None => {
            return Err(miss(ws_comments(input, e1), Expected::Char(58u8)));
        },
        Some(q2) => q2,
    };
    let (e2, trait_type) = match parse_type(input, q2) {
        Err(f) => {
            return Err(f);
        },
        Ok(v) => v,
    };
    proof {
        lemma_ws_end(input@, e2 as int);
    }
    let q3 = match ws_byte_at(input, e2, 123u8) {
        None => {
            return Err(miss(ws_comments(input, e2), Expected::Char(123u8)));
        },
        Some(q3) => q3,
    };
    let (e, methods) = match decl_list(input, q3) {
        Err(f) => {
            return Err(f);
        },
        Ok(v) => v,
    };
    proof {
        lemma_ws_end(input@, e as int);
    }
    match ws_byte_at(input, e, 125u8) {
        None => Err(fail(ws_comments(input, e), Expected::Char(125u8))),
        Some(f) => Ok((f, ImplDecl { type_parameters, target_type, trait_type, methods, span: span_at(input, f) })),
    }
}

} // verus!
