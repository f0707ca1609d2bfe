//! Expressions: literals, names, blocks, calls and member access, unary and binary
//! operators, assignment, `if`, `match`, comprehensions, `bind`, `with`, collection
//! literals and function expressions.
//!
//! The functions of this module, of `statements` and of the `let`, `var` and `handler`
//! declarations call each other. Each is described by a function of the same name
//! ending in `_at`, which gives, for the input bytes and a position, what the parse
//! reads: where it ends and what kind of node it builds, or where it fails and what
//! was expected there. A call at the same position always goes to a function of lower
//! rank (the second component of `decreases`), and a call at a later position is
//! guarded by `forward`, which always holds: parsing moves forward.
use vstd::prelude::*;
use crate::ast::{
    Expr, BinaryOperator, UnaryOperator, ComprehensionKind, BlockItem, Parameter,
    EffectParameter, WithBinding, Pattern,
};
use crate::parser::common::{
    Expected, ParseFailure, Parsed, failure_outcome, one_more, with_prefix, lemma_prefix_more, forward, ws_byte, ws_byte_at, ws_end,
    ws_comments, ws_lit, keyword, ws_ident, ws_identifier, ident_at, identifier_string,
    ascii_text, span_of, span_at, miss, fail, is_miss, lemma_ws_end, lit_at, tag_at,
    space_byte, no_span,
};
use crate::parser::keywords as kw;
use crate::parser::literals::{
    LiteralModel, int_literal_at, float_literal_at, string_literal_at, bool_literal_at,
    unit_literal_at, int_literal_expr, float_literal_expr, string_literal_expr,
    bool_literal_expr, unit_literal_expr, literal_expr_value,
};
use crate::parser::patterns::{PatternKind, pattern_kind, pattern_at, pattern};
use crate::parser::types::{type_at, parse_type};
use crate::parser::statements::{statement_at, statement};
use crate::parser::declarations::{
    DeclKind, decl_kind, opt_type_model, parse_declaration_at, parse_declaration, parameter_at,
    parameter, param_kind, param_kinds, params_outcome, lemma_param_kinds_push,
};
use crate::ast::{Stmt, TypeModel, Span};

verus! {

/// What an expression is: literal values, names, operators, and the kinds of all its
/// parts (operands, callee and arguments, elements and entries, conditions and
/// branches, match cases, comprehension parts, bindings, block items, parameters and
/// type annotations). Where in the source each node lies (its span) is not part of it.
pub enum ExprKind {
    IntLiteral(int, Span),
    FloatLiteral(Seq<char>, Span),
    BoolLiteral(bool, Span),
    StringLiteral(Seq<char>, Span),
    UnitLiteral(Span),
    ListLiteral(Seq<ExprKind>, Span),
    MapLiteral(Seq<(ExprKind, ExprKind)>, Span),
    SetLiteral(Seq<ExprKind>, Span),
    TupleLiteral(Seq<ExprKind>, Span),
    FunctionExpr(
        Option<Seq<(Seq<char>, Option<TypeModel>, Span)>>,
        Option<Seq<(Seq<char>, TypeModel, Span)>>,
        Option<Seq<(Seq<char>, Option<TypeModel>, Span)>>,
        Box<ExprKind>,
        Span,
    ),
    Identifier(Seq<char>, Span),
    BinaryOp(BinaryOperator, Box<ExprKind>, Box<ExprKind>, Span),
    UnaryOp(UnaryOperator, Box<ExprKind>, Span),
    FunctionCall(Box<ExprKind>, Seq<ExprKind>, Span),
    MemberAccess(Box<ExprKind>, Seq<char>, Span),
    ParenExpr(Box<ExprKind>, Span),
    IfExpr(Box<ExprKind>, Box<ExprKind>, Seq<(ExprKind, ExprKind)>, Option<Box<ExprKind>>, Span),
    MatchExpr(Box<ExprKind>, Seq<(PatternKind, Option<ExprKind>, ExprKind)>, Span),
    Comprehension(ComprehensionKind, Box<ExprKind>, PatternKind, Box<ExprKind>, Option<Box<ExprKind>>, Span),
    BindExpr(Seq<(PatternKind, ExprKind)>, Box<ExprKind>, Span),
    WithExpr(Seq<(Seq<char>, ExprKind, Option<TypeModel>, Span)>, Box<ExprKind>, Span),
    BlockExpr(Seq<ItemKind>, Span),
    Assignment(Box<ExprKind>, Box<ExprKind>, Span),
}


/// The kinds of a sequence of expressions.
pub open spec fn expr_kinds(es: Seq<Expr>) -> Seq<ExprKind>
    decreases es,
{
    Seq::new(es.len(), |i: int| if 0 <= i < es.len() { expr_kind(es[i]) } else { ExprKind::UnitLiteral(no_span()) })
}

/// The kinds of a sequence of pairs of expressions.
pub open spec fn pair_kinds(ps: Seq<(Expr, Expr)>) -> Seq<(ExprKind, ExprKind)>
    decreases ps,
{
    Seq::new(
        ps.len(),
        |i: int|
            if 0 <= i < ps.len() {
                (expr_kind(ps[i].0), expr_kind(ps[i].1))
            } else {
                (ExprKind::UnitLiteral(no_span()), ExprKind::UnitLiteral(no_span()))
            },
    )
}

/// The kinds of match cases: the pattern, the guard and the body.
pub open spec fn case_kinds(cs: Seq<(Pattern, Option<Expr>, Expr)>) -> Seq<(PatternKind, Option<ExprKind>, ExprKind)>
    decreases cs,
{
    Seq::new(
        cs.len(),
        |i: int|
            if 0 <= i < cs.len() {
                (
                    pattern_kind(cs[i].0),
                    match cs[i].1 {
                        Some(g) => Some(expr_kind(g)),
                        None => None,
                    },
                    expr_kind(cs[i].2),
                )
            } else {
                (PatternKind::Wildcard(no_span()), None, ExprKind::UnitLiteral(no_span()))
            },
    )
}

/// What a block item is: a declaration, a statement with the kind of the value it
/// returns and its span, or an expression, each with its kind.
pub enum ItemKind {
    Declaration(DeclKind),
    Statement(Option<ExprKind>, Span),
    Expression(ExprKind),
}

/// The kinds of the bindings of a `bind` expression: the pattern and the expression.
pub open spec fn bind_kinds(bs: Seq<(Pattern, Expr)>) -> Seq<(PatternKind, ExprKind)>
    decreases bs,
{
    Seq::new(
        bs.len(),
        |i: int|
            if 0 <= i < bs.len() {
                (pattern_kind(bs[i].0), expr_kind(bs[i].1))
            } else {
                (PatternKind::Wildcard(no_span()), ExprKind::UnitLiteral(no_span()))
            },
    )
}

/// The kinds of the bindings of a `with` expression: the name, the instance and the
/// model of the type annotation.
pub open spec fn with_kinds(bs: Seq<WithBinding>) -> Seq<(Seq<char>, ExprKind, Option<TypeModel>, Span)>
    decreases bs,
{
    Seq::new(
        bs.len(),
        |i: int|
            if 0 <= i < bs.len() {
                (bs[i].alias@, expr_kind(bs[i].instance), opt_type_model(bs[i].type_annotation), bs[i].span)
            } else {
                (Seq::empty(), ExprKind::UnitLiteral(no_span()), None, no_span())
            },
    )
}

/// The kinds of the items of a block.
pub open spec fn item_kinds(items: Seq<BlockItem>) -> Seq<ItemKind>
    decreases items,
{
    Seq::new(
        items.len(),
        |i: int| if 0 <= i < items.len() { item_kind(items[i]) } else { ItemKind::Expression(ExprKind::UnitLiteral(no_span())) },
    )
}

/// The kind of a block item.
pub open spec fn item_kind(it: BlockItem) -> ItemKind
    decreases it,
{
    match it {
        BlockItem::Declaration(d) => ItemKind::Declaration(decl_kind(d)),
        BlockItem::Statement(st) => match st {
            Stmt::Return { value, span } => ItemKind::Statement(
                match value {
                    Some(x) => Some(expr_kind(x)),
                    None => None,
                },
                span,
            ),
        },
        BlockItem::Expression(x) => ItemKind::Expression(expr_kind(x)),
    }
}

/// The kind of a binding of a `bind` expression.
pub open spec fn bind_kind(b: (Pattern, Expr)) -> (PatternKind, ExprKind) {
    (pattern_kind(b.0), expr_kind(b.1))
}

/// The kind of a binding of a `with` expression.
pub open spec fn with_kind(b: WithBinding) -> (Seq<char>, ExprKind, Option<TypeModel>, Span) {
    (b.alias@, expr_kind(b.instance), opt_type_model(b.type_annotation), b.span)
}

/// The kinds of optional parameters: names and annotation models.
pub open spec fn opt_param_kinds(o: Option<Vec<Parameter>>) -> Option<Seq<(Seq<char>, Option<TypeModel>, Span)>> {
    match o {
        Some(v) => Some(param_kinds(v@)),
        None => None,
    }
}

/// The kind of an effect parameter: its name and the model of its type.
pub open spec fn effect_kind(p: EffectParameter) -> (Seq<char>, TypeModel, Span) {
    (p.name@, p.effect_type.model(), p.span)
}

/// The kinds of a sequence of effect parameters.
pub open spec fn effect_kinds(ps: Seq<EffectParameter>) -> Seq<(Seq<char>, TypeModel, Span)> {
    Seq::new(ps.len(), |i: int| effect_kind(ps[i]))
}

/// The kinds of optional effect parameters.
pub open spec fn opt_effect_kinds(o: Option<Vec<EffectParameter>>) -> Option<Seq<(Seq<char>, TypeModel, Span)>> {
    match o {
        Some(v) => Some(effect_kinds(v@)),
        None => None,
    }
}

/// The kind of an optional expression.
pub open spec fn opt_expr_kind(o: Option<Expr>) -> Option<ExprKind> {
    match o {
        Some(x) => Some(expr_kind(x)),
        None => None,
    }
}

/// The kind of a match case.
pub open spec fn case_kind(c: (Pattern, Option<Expr>, Expr)) -> (PatternKind, Option<ExprKind>, ExprKind) {
    (pattern_kind(c.0), opt_expr_kind(c.1), expr_kind(c.2))
}

/// An optional kind, boxed.
pub open spec fn opt_box(o: Option<ExprKind>) -> Option<Box<ExprKind>> {
    match o {
        Some(k) => Some(Box::new(k)),
        None => None,
    }
}

/// The kind of an expression.
pub open spec fn expr_kind(e: Expr) -> ExprKind
    decreases e,
{
    match e {
        Expr::IntLiteral(v, sp) => ExprKind::IntLiteral(v as int, sp),
        Expr::FloatLiteral(t, sp) => ExprKind::FloatLiteral(t@, sp),
        Expr::BoolLiteral(b, sp) => ExprKind::BoolLiteral(b, sp),
        Expr::StringLiteral(t, sp) => ExprKind::StringLiteral(t@, sp),
        Expr::UnitLiteral(sp) => ExprKind::UnitLiteral(sp),
        Expr::ListLiteral { elements, span } => ExprKind::ListLiteral(expr_kinds(elements@), span),
        Expr::MapLiteral { entries, span } => ExprKind::MapLiteral(pair_kinds(entries@), span),
        Expr::SetLiteral { elements, span } => ExprKind::SetLiteral(expr_kinds(elements@), span),
        Expr::TupleLiteral { elements, span } => ExprKind::TupleLiteral(expr_kinds(elements@), span),
        Expr::FunctionExpr { parameters, effect_parameters, implicit_parameters, body, span } => ExprKind::FunctionExpr(
            opt_param_kinds(parameters),
            opt_effect_kinds(effect_parameters),
            opt_param_kinds(implicit_parameters),
            Box::new(expr_kind(*body)),
            span,
        ),
        Expr::Identifier(n, sp) => ExprKind::Identifier(n@, sp),
        Expr::BinaryOp { left, operator, right, span } => ExprKind::BinaryOp(
            operator,
            Box::new(expr_kind(*left)),
            Box::new(expr_kind(*right)),
            span,
        ),
        Expr::UnaryOp { operator, expr, span } => ExprKind::UnaryOp(operator, Box::new(expr_kind(*expr)), span),
        Expr::FunctionCall { function, arguments, span } => ExprKind::FunctionCall(
            Box::new(expr_kind(*function)),
            expr_kinds(arguments@),
            span,
        ),
        Expr::MemberAccess { object, member, span } => ExprKind::MemberAccess(
            Box::new(expr_kind(*object)),
            member@,
            span,
        ),
        Expr::ParenExpr(x, sp) => ExprKind::ParenExpr(Box::new(expr_kind(*x)), sp),
        Expr::IfExpr { condition, then_branch, elif_branches, else_branch, span } => ExprKind::IfExpr(
            Box::new(expr_kind(*condition)),
            Box::new(expr_kind(*then_branch)),
            pair_kinds(elif_branches@),
            match else_branch {
                Some(x) => Some(Box::new(expr_kind(*x))),
                None => None,
            },
            span,
        ),
        Expr::MatchExpr { scrutinee, cases, span } => ExprKind::MatchExpr(
            Box::new(expr_kind(*scrutinee)),
            case_kinds(cases@),
            span,
        ),
        Expr::CollectionComprehension { kind, output_expr, input_expr, pattern, condition, span } =>
            ExprKind::Comprehension(
            kind,
            Box::new(expr_kind(*output_expr)),
            pattern_kind(pattern),
            Box::new(expr_kind(*input_expr)),
            match condition {
                Some(c) => Some(Box::new(expr_kind(*c))),
                None => None,
            },
            span,
        ),
        Expr::BindExpr { bindings, final_expr, span } => ExprKind::BindExpr(
            bind_kinds(bindings@),
            Box::new(expr_kind(*final_expr)),
            span,
        ),
        Expr::WithExpr { bindings, body, span } => ExprKind::WithExpr(
            with_kinds(bindings@),
            Box::new(expr_kind(*body)),
            span,
        ),
        Expr::BlockExpr { items, span } => ExprKind::BlockExpr(item_kinds(items@), span),
        Expr::Assignment { lvalue, rvalue, span } => ExprKind::Assignment(
            Box::new(expr_kind(*lvalue)),
            Box::new(expr_kind(*rvalue)),
            span,
        ),
    }
}

/// The outcome of a function that reads an expression.
pub open spec fn expr_outcome(r: Result<(usize, Expr), ParseFailure>) -> Parsed<ExprKind> {
    match r {
        Ok((e, x)) => Parsed::Done(e as int, expr_kind(x)),
        Err(f) => failure_outcome(f),
    }
}

/// The outcome of a function that reads several expressions: their kinds.
pub open spec fn kinds_outcome(r: Result<(usize, Vec<Expr>), ParseFailure>) -> Parsed<Seq<ExprKind>> {
    match r {
        Ok((e, v)) => Parsed::Done(e as int, expr_kinds(v@)),
        Err(f) => failure_outcome(f),
    }
}

/// The outcome of a function that reads two expressions: their kinds.
pub open spec fn pair_outcome(r: Result<(usize, (Expr, Expr)), ParseFailure>) -> Parsed<(ExprKind, ExprKind)> {
    match r {
        Ok((e, x)) => Parsed::Done(e as int, (expr_kind(x.0), expr_kind(x.1))),
        Err(f) => failure_outcome(f),
    }
}

/// The outcome of a function that reads pairs of expressions: their kinds.
pub open spec fn pairs_outcome(r: Result<(usize, Vec<(Expr, Expr)>), ParseFailure>) -> Parsed<Seq<(ExprKind, ExprKind)>> {
    match r {
        Ok((e, v)) => Parsed::Done(e as int, pair_kinds(v@)),
        Err(f) => failure_outcome(f),
    }
}

/// The outcome of a function that reads a match case: its kind.
pub open spec fn case_outcome(r: Result<(usize, (Pattern, Option<Expr>, Expr)), ParseFailure>) -> Parsed<(PatternKind, Option<ExprKind>, ExprKind)> {
    match r {
        Ok((e, c)) => Parsed::Done(e as int, case_kind(c)),
        Err(f) => failure_outcome(f),
    }
}

/// The outcome of a function that reads match cases: their kinds.
pub open spec fn cases_outcome(r: Result<(usize, Vec<(Pattern, Option<Expr>, Expr)>), ParseFailure>) -> Parsed<Seq<(PatternKind, Option<ExprKind>, ExprKind)>> {
    match r {
        Ok((e, v)) => Parsed::Done(e as int, case_kinds(v@)),
        Err(f) => failure_outcome(f),
    }
}

/// The outcome of a function that reads the end of a comprehension: the kinds of its
/// pattern, input and condition.
pub open spec fn tail_outcome(r: Result<(usize, (Pattern, Expr, Option<Expr>)), ParseFailure>) -> Parsed<(PatternKind, ExprKind, Option<ExprKind>)> {
    match r {
        Ok((e, t)) => Parsed::Done(e as int, (pattern_kind(t.0), expr_kind(t.1), opt_expr_kind(t.2))),
        Err(f) => failure_outcome(f),
    }
}

/// The kinds of match cases with one more case.
pub proof fn lemma_case_kinds_push(cs: Seq<(Pattern, Option<Expr>, Expr)>, x: (Pattern, Option<Expr>, Expr))
    ensures
        case_kinds(cs.push(x)) == case_kinds(cs).push(case_kind(x)),
{
    assert(case_kinds(cs.push(x)) =~= case_kinds(cs).push(case_kind(x)));
}

/// The outcome of a function that reads a binding of a `bind` expression.
pub open spec fn bind_outcome(r: Result<(usize, (Pattern, Expr)), ParseFailure>) -> Parsed<(PatternKind, ExprKind)> {
    match r {
        Ok((e, b)) => Parsed::Done(e as int, bind_kind(b)),
        Err(f) => failure_outcome(f),
    }
}

/// The outcome of a function that reads bindings of a `bind` expression.
pub open spec fn binds_outcome(r: Result<(usize, Vec<(Pattern, Expr)>), ParseFailure>) -> Parsed<Seq<(PatternKind, ExprKind)>> {
    match r {
        Ok((e, v)) => Parsed::Done(e as int, bind_kinds(v@)),
        Err(f) => failure_outcome(f),
    }
}

/// The outcome of a function that reads a binding of a `with` expression.
pub open spec fn with_outcome(r: Result<(usize, WithBinding), ParseFailure>) -> Parsed<(Seq<char>, ExprKind, Option<TypeModel>, Span)> {
    match r {
        Ok((e, b)) => Parsed::Done(e as int, with_kind(b)),
        Err(f) => failure_outcome(f),
    }
}

/// The outcome of a function that reads bindings of a `with` expression.
pub open spec fn withs_outcome(r: Result<(usize, Vec<WithBinding>), ParseFailure>) -> Parsed<Seq<(Seq<char>, ExprKind, Option<TypeModel>, Span)>> {
    match r {
        Ok((e, v)) => Parsed::Done(e as int, with_kinds(v@)),
        Err(f) => failure_outcome(f),
    }
}

/// The outcome of a function that reads a block item.
pub open spec fn item_outcome(r: Result<(usize, BlockItem), ParseFailure>) -> Parsed<ItemKind> {
    match r {
        Ok((e, it)) => Parsed::Done(e as int, item_kind(it)),
        Err(f) => failure_outcome(f),
    }
}

/// The outcome of a function that reads block items.
pub open spec fn items_outcome(r: Result<(usize, Vec<BlockItem>), ParseFailure>) -> Parsed<Seq<ItemKind>> {
    match r {
        Ok((e, v)) => Parsed::Done(e as int, item_kinds(v@)),
        Err(f) => failure_outcome(f),
    }
}

/// The kinds of `bind` bindings with one more binding.
pub proof fn lemma_bind_kinds_push(bs: Seq<(Pattern, Expr)>, x: (Pattern, Expr))
    ensures
        bind_kinds(bs.push(x)) == bind_kinds(bs).push(bind_kind(x)),
{
    assert(bind_kinds(bs.push(x)) =~= bind_kinds(bs).push(bind_kind(x)));
}

/// The kinds of `with` bindings with one more binding.
pub proof fn lemma_with_kinds_push(bs: Seq<WithBinding>, x: WithBinding)
    ensures
        with_kinds(bs.push(x)) == with_kinds(bs).push(with_kind(x)),
{
    assert(with_kinds(bs.push(x)) =~= with_kinds(bs).push(with_kind(x)));
}

/// The kinds of block items with one more item.
pub proof fn lemma_item_kinds_push(items: Seq<BlockItem>, x: BlockItem)
    ensures
        item_kinds(items.push(x)) == item_kinds(items).push(item_kind(x)),
{
    assert(item_kinds(items.push(x)) =~= item_kinds(items).push(item_kind(x)));
}

/// The outcome of a function that reads an effect parameter.
pub open spec fn effect_outcome(r: Result<(usize, EffectParameter), ParseFailure>) -> Parsed<(Seq<char>, TypeModel, Span)> {
    match r {
        Ok((e, p)) => Parsed::Done(e as int, effect_kind(p)),
        Err(f) => failure_outcome(f),
    }
}

/// The outcome of a function that reads effect parameters.
pub open spec fn effects_outcome(r: Result<(usize, Vec<EffectParameter>), ParseFailure>) -> Parsed<Seq<(Seq<char>, TypeModel, Span)>> {
    match r {
        Ok((e, v)) => Parsed::Done(e as int, effect_kinds(v@)),
        Err(f) => failure_outcome(f),
    }
}

/// The kinds of effect parameters with one more.
pub proof fn lemma_effect_kinds_push(ps: Seq<EffectParameter>, x: EffectParameter)
    ensures
        effect_kinds(ps.push(x)) == effect_kinds(ps).push(effect_kind(x)),
{
    assert(effect_kinds(ps.push(x)) =~= effect_kinds(ps).push(effect_kind(x)));
}

/// An optional part: what it reads, or nothing at `p` when it does not read; a final
/// failure stays final.
pub open spec fn optional_value<T>(r: Parsed<T>, p: int) -> Parsed<Option<T>> {
    match r {
        Parsed::Done(e, v) => Parsed::Done(e, Some(v)),
        Parsed::Failed(fatal, x, k) => if fatal {
            Parsed::Failed(true, x, k)
        } else {
            Parsed::Done(p, None)
        },
    }
}

/// Whether an outcome is a failure that lets the caller try another alternative.
pub open spec fn missed<T>(r: Parsed<T>) -> bool {
    r matches Parsed::Failed(false, _, _)
}

/// The span of a node that covers the bytes from `p` to `e`: the span recorded when as
/// many bytes are left as the node covers.
pub open spec fn covering_span(s: Seq<u8>, p: int, e: int) -> crate::ast::Span {
    span_of(s, s.len() - (e - p))
}

/// The position after a `,` and the white space that follows, or `p` when none follows.
pub open spec fn opt_comma(s: Seq<u8>, p: int) -> int {
    match ws_byte(s, p, 44u8) {
        Some(q) => q,
        None => p,
    }
}

/// The first byte at or after `i` that is not white space (comments are not skipped).
pub open spec fn space_end(s: Seq<u8>, i: int) -> int
    decreases s.len() - i,
{
    if i < 0 || i >= s.len() || !space_byte(s[i]) {
        i
    } else {
        space_end(s, i + 1)
    }
}

// ---------------------------------------------------------------------------
// Primary expressions, calls and member access.
// ---------------------------------------------------------------------------

/// A primary expression, with white space and comments around it: the first of a tuple,
/// a parenthesized expression, `()`, a floating-point, integer, string or boolean
/// literal, a name, and a block.
#[verifier::opaque]
pub open spec fn primary_at(s: Seq<u8>, p: int) -> Parsed<ExprKind>
    decreases s.len() - p, 2int,
{
    let q = ws_end(s, p);
    if !(p <= q && q <= s.len()) {
        Parsed::Failed(false, q, Expected::Keyword)
    } else {
        let r: Parsed<ExprKind> = {
            let r1 = tuple_literal_at(s, q);
            if !missed(r1) {
                r1
            } else {
                let r2 = grouped_expr_at(s, q);
                if !missed(r2) {
                    r2
                } else {
                    match unit_literal_at(s, q) {
                        Parsed::Done(e, _) => Parsed::Done(e, ExprKind::UnitLiteral(span_of(s, e))),
                        _ => match float_literal_at(s, q) {
                            Parsed::Done(e, t) => Parsed::Done(e, ExprKind::FloatLiteral(t, span_of(s, e))),
                            _ => match int_literal_at(s, q) {
                                Parsed::Done(e, v) => Parsed::Done(e, ExprKind::IntLiteral(v, span_of(s, e))),
                                _ => match string_literal_at(s, q) {
                                    Parsed::Done(e, t) => Parsed::Done(e, ExprKind::StringLiteral(t, span_of(s, e))),
                                    _ => match bool_literal_at(s, q) {
                                        Parsed::Done(e, b) => Parsed::Done(e, ExprKind::BoolLiteral(b, span_of(s, e))),
                                        _ => match ident_at(s, q) {
                                            Some(b) => Parsed::Done(
                                                b,
                                                ExprKind::Identifier(ascii_text(s.subrange(q, b)), span_of(s, p)),
                                            ),
                                            None => block_expr_at(s, q),
                                        },
                                    },
                                },
                            },
                        },
                    }
                }
            }
        };
        match r {
            Parsed::Done(e, k) => Parsed::Done(ws_end(s, e), k),
            Parsed::Failed(fatal, x, k) => Parsed::Failed(fatal, x, k),
        }
    }
}

/// `(` expression `,` expression (`,` expression)* `)`: a tuple of at least two.
#[verifier::opaque]
pub open spec fn tuple_literal_at(s: Seq<u8>, p: int) -> Parsed<ExprKind>
    decreases s.len() - p, 1int,
{
    match ws_byte(s, p, 40u8) {
        None => Parsed::Failed(false, ws_end(s, p), Expected::Char(40u8)),
        Some(q) => if !forward(s, p, q) {
            Parsed::Failed(false, q, Expected::Char(40u8))
        } else {
            match expression_at(s, q) {
                Parsed::Failed(fatal, x, k) => Parsed::Failed(fatal, x, k),
                Parsed::Done(e1, k1) => match ws_byte(s, e1, 44u8) {
                    None => Parsed::Failed(false, ws_end(s, e1), Expected::Char(44u8)),
                    Some(q2) => if !forward(s, p, q2) {
                        Parsed::Failed(false, q2, Expected::Char(44u8))
                    } else {
                        match expression_at(s, q2) {
                            Parsed::Failed(fatal, x, k) => Parsed::Failed(fatal, x, k),
                            Parsed::Done(e2, k2) => if !forward(s, p, e2) {
                                Parsed::Failed(false, e2, Expected::Char(44u8))
                            } else {
                                match expr_list_more_at(s, e2) {
                                    Parsed::Failed(fatal, x, k) => Parsed::Failed(fatal, x, k),
                                    Parsed::Done(e3, ks) => match ws_byte(s, e3, 41u8) {
                                        None => Parsed::Failed(true, ws_end(s, e3), Expected::Char(41u8)),
                                        Some(f) => Parsed::Done(f, ExprKind::TupleLiteral(seq![k1, k2] + ks, covering_span(s, p, f))),
                                    },
                                }
                            },
                        }
                    },
                },
            }
        },
    }
}

/// `(` expression `)`.
#[verifier::opaque]
pub open spec fn grouped_expr_at(s: Seq<u8>, p: int) -> Parsed<ExprKind>
    decreases s.len() - p, 1int,
{
    match ws_byte(s, p, 40u8) {
        None => Parsed::Failed(false, ws_end(s, p), Expected::Char(40u8)),
        Some(q) => if !forward(s, p, q) {
            Parsed::Failed(false, q, Expected::Char(40u8))
        } else {
            match expression_at(s, q) {
                Parsed::Failed(fatal, x, k) => Parsed::Failed(fatal, x, k),
                Parsed::Done(e, k) => match ws_byte(s, e, 41u8) {
                    None => Parsed::Failed(true, ws_end(s, e), Expected::Char(41u8)),
                    Some(f) => Parsed::Done(f, ExprKind::ParenExpr(Box::new(k), covering_span(s, p, f))),
                },
            }
        },
    }
}

/// `{` items `}`: a block, or the unit literal when it has no item.
#[verifier::opaque]
pub open spec fn block_expr_at(s: Seq<u8>, p: int) -> Parsed<ExprKind>
    decreases s.len() - p, 1int,
{
    match ws_byte(s, p, 123u8) {
        None => Parsed::Failed(false, ws_end(s, p), Expected::Char(123u8)),
        Some(q) => if !forward(s, p, q) {
            Parsed::Failed(false, q, Expected::Char(123u8))
        } else {
            match block_items_at(s, q) {
                Parsed::Failed(fatal, x, k) => Parsed::Failed(fatal, x, k),
                Parsed::Done(e, ks) => match ws_byte(s, e, 125u8) {
                    None => Parsed::Failed(true, ws_end(s, e), Expected::Char(125u8)),
                    Some(f) => Parsed::Done(
                        f,
                        if ks.len() == 0 { ExprKind::UnitLiteral(span_of(s, f)) } else { ExprKind::BlockExpr(ks, span_of(s, f)) },
                    ),
                },
            }
        },
    }
}

/// The items of a block, each followed by white space: their kinds.
#[verifier::opaque]
pub open spec fn block_items_at(s: Seq<u8>, p: int) -> Parsed<Seq<ItemKind>>
    decreases s.len() - p, 14int,
{
    match block_item_at(s, p) {
        Parsed::Failed(fatal, x, k) => if fatal {
            Parsed::Failed(true, x, k)
        } else {
            Parsed::Done(p, Seq::empty())
        },
        Parsed::Done(e, k) => {
            let e2 = space_end(s, e);
            if forward(s, p, e2) {
                one_more(k, block_items_at(s, e2))
            } else {
                Parsed::Done(e2, seq![k])
            }
        },
    }
}

/// A block item: the first of a declaration, a statement and an expression.
#[verifier::opaque]
pub open spec fn block_item_at(s: Seq<u8>, p: int) -> Parsed<ItemKind>
    decreases s.len() - p, 13int,
{
    match parse_declaration_at(s, p) {
        Parsed::Done(e, dk) => Parsed::Done(e, ItemKind::Declaration(dk)),
        Parsed::Failed(true, x, k) => Parsed::Failed(true, x, k),
        Parsed::Failed(false, _, _) => match statement_at(s, p) {
            Parsed::Done(e, sk) => Parsed::Done(e, ItemKind::Statement(sk.0, sk.1)),
            Parsed::Failed(true, x, k) => Parsed::Failed(true, x, k),
            Parsed::Failed(false, _, _) => match expression_at(s, p) {
                Parsed::Done(e, xk) => Parsed::Done(e, ItemKind::Expression(xk)),
                Parsed::Failed(fatal, x, k) => Parsed::Failed(fatal, x, k),
            },
        },
    }
}

/// `(` expressions separated by `,` `)`: the arguments of a call.
#[verifier::opaque]
pub open spec fn call_args_at(s: Seq<u8>, p: int) -> Parsed<Seq<ExprKind>>
    decreases s.len() - p, 1int,
{
    match ws_byte(s, p, 40u8) {
        None => Parsed::Failed(false, ws_end(s, p), Expected::Char(40u8)),
        Some(q) => if !forward(s, p, q) {
            Parsed::Failed(false, q, Expected::Char(40u8))
        } else {
            match expr_list_at(s, q) {
                Parsed::Failed(fatal, x, k) => Parsed::Failed(fatal, x, k),
                Parsed::Done(e, ks) => match ws_byte(s, e, 41u8) {
                    None => Parsed::Failed(true, ws_end(s, e), Expected::Char(41u8)),
                    Some(f) => Parsed::Done(f, ks),
                },
            }
        },
    }
}

/// A primary expression followed by calls `( ... )` and member accesses `.name`.
#[verifier::opaque]
pub open spec fn postfix_at(s: Seq<u8>, p: int) -> Parsed<ExprKind>
    decreases s.len() - p, 3int,
{
    match primary_at(s, p) {
        Parsed::Failed(fatal, x, k) => Parsed::Failed(fatal, x, k),
        Parsed::Done(e, k) => if forward(s, p, e) {
            postfix_more_at(s, e, k)
        } else {
            Parsed::Done(e, k)
        },
    }
}

/// The calls and member accesses that follow an expression of kind `k` at `p`. A call
/// whose arguments fail to parse, even finally, ends the sequence.
#[verifier::opaque]
pub open spec fn postfix_more_at(s: Seq<u8>, p: int, k: ExprKind) -> Parsed<ExprKind>
    decreases s.len() - p, 3int,
{
    match call_args_at(s, p) {
        Parsed::Done(e, ks) => if forward(s, p, e) {
            postfix_more_at(s, e, ExprKind::FunctionCall(Box::new(k), ks, span_of(s, e)))
        } else {
            Parsed::Done(e, ExprKind::FunctionCall(Box::new(k), ks, span_of(s, e)))
        },
        Parsed::Failed(_, _, _) => match ws_byte(s, p, 46u8) {
            None => Parsed::Done(p, k),
            Some(q) => match ws_ident(s, q) {
                None => Parsed::Done(p, k),
                Some((a, b, c)) => {
                    let name = ascii_text(s.subrange(a, b));
                    if forward(s, p, c) {
                        postfix_more_at(s, c, ExprKind::MemberAccess(Box::new(k), name, span_of(s, c)))
                    } else {
                        Parsed::Done(c, ExprKind::MemberAccess(Box::new(k), name, span_of(s, c)))
                    }
                },
            },
        },
    }
}

// ---------------------------------------------------------------------------
// Operators.
// ---------------------------------------------------------------------------

/// `-` or `!` applied to a unary expression, else a postfix expression.
#[verifier::opaque]
pub open spec fn unary_at(s: Seq<u8>, p: int) -> Parsed<ExprKind>
    decreases s.len() - p, 4int,
{
    let neg: Parsed<ExprKind> = match ws_byte(s, p, 45u8) {
        None => Parsed::Failed(false, ws_end(s, p), Expected::Char(45u8)),
        Some(q) => if forward(s, p, q) {
            match unary_at(s, q) {
                Parsed::Done(e, k) => Parsed::Done(e, ExprKind::UnaryOp(UnaryOperator::Neg, Box::new(k), span_of(s, p))),
                Parsed::Failed(fatal, x, k) => Parsed::Failed(fatal, x, k),
            }
        } else {
            Parsed::Failed(false, q, Expected::Char(45u8))
        },
    };
    if !missed(neg) {
        neg
    } else {
        let not: Parsed<ExprKind> = match ws_byte(s, p, 33u8) {
            None => Parsed::Failed(false, ws_end(s, p), Expected::Char(33u8)),
            Some(q) => if forward(s, p, q) {
                match unary_at(s, q) {
                    Parsed::Done(e, k) => Parsed::Done(e, ExprKind::UnaryOp(UnaryOperator::Not, Box::new(k), span_of(s, p))),
                    Parsed::Failed(fatal, x, k) => Parsed::Failed(fatal, x, k),
                }
            } else {
                Parsed::Failed(false, q, Expected::Char(33u8))
            },
        };
        if !missed(not) {
            not
        } else {
            postfix_at(s, p)
        }
    }
}

/// The chain `k` with the span of its last `n` operator nodes (down its left side) set
/// to `sp`: every operator node of a chain gets the span where the chain ends.
pub open spec fn respan(k: ExprKind, n: nat, sp: Span) -> ExprKind
    decreases n,
{
    if n == 0 {
        k
    } else {
        match k {
            ExprKind::BinaryOp(op, l, r, _) => ExprKind::BinaryOp(op, Box::new(respan(*l, (n - 1) as nat, sp)), r, sp),
            _ => k,
        }
    }
}

/// `*`, `/` or `%`, with white space and comments around it.
pub open spec fn mul_op(s: Seq<u8>, p: int) -> Option<(int, BinaryOperator)> {
    let q = ws_end(s, p);
    if 0 <= q < s.len() && s[q] == 42u8 {
        Some((ws_end(s, q + 1), BinaryOperator::Mul))
    } else if 0 <= q < s.len() && s[q] == 47u8 {
        Some((ws_end(s, q + 1), BinaryOperator::Div))
    } else if 0 <= q < s.len() && s[q] == 37u8 {
        Some((ws_end(s, q + 1), BinaryOperator::Mod))
    } else {
        None
    }
}

/// `+` or `-`.
pub open spec fn add_op(s: Seq<u8>, p: int) -> Option<(int, BinaryOperator)> {
    let q = ws_end(s, p);
    if 0 <= q < s.len() && s[q] == 43u8 {
        Some((ws_end(s, q + 1), BinaryOperator::Add))
    } else if 0 <= q < s.len() && s[q] == 45u8 {
        Some((ws_end(s, q + 1), BinaryOperator::Sub))
    } else {
        None
    }
}

/// `<=`, `>=`, `<` or `>`.
pub open spec fn rel_op(s: Seq<u8>, p: int) -> Option<(int, BinaryOperator)> {
    let q = ws_end(s, p);
    if lit_at(s, q, kw::lit_le()) {
        Some((ws_end(s, q + 2), BinaryOperator::Lte))
    } else if lit_at(s, q, kw::lit_ge()) {
        Some((ws_end(s, q + 2), BinaryOperator::Gte))
    } else if lit_at(s, q, kw::lit_lt()) {
        Some((ws_end(s, q + 1), BinaryOperator::Lt))
    } else if lit_at(s, q, kw::lit_gt()) {
        Some((ws_end(s, q + 1), BinaryOperator::Gt))
    } else {
        None
    }
}

/// `==` or `!=`.
pub open spec fn eq_op(s: Seq<u8>, p: int) -> Option<(int, BinaryOperator)> {
    let q = ws_end(s, p);
    if lit_at(s, q, kw::lit_eqeq()) {
        Some((ws_end(s, q + 2), BinaryOperator::Eq))
    } else if lit_at(s, q, kw::lit_ne()) {
        Some((ws_end(s, q + 2), BinaryOperator::Neq))
    } else {
        None
    }
}

/// `&&`.
pub open spec fn and_op(s: Seq<u8>, p: int) -> Option<(int, BinaryOperator)> {
    match ws_lit(s, p, kw::lit_and()) {
        Some(e) => Some((e, BinaryOperator::And)),
        None => None,
    }
}

/// `||`.
pub open spec fn or_op(s: Seq<u8>, p: int) -> Option<(int, BinaryOperator)> {
    match ws_lit(s, p, kw::lit_or()) {
        Some(e) => Some((e, BinaryOperator::Or)),
        None => None,
    }
}

/// Each binary operator is read by its spelling, after white space and comments: `*`
/// `/` `%` are `Mul` `Div` `Mod`; `+` `-` are `Add` `Sub`; `<=` `>=` are `Lte` `Gte`
/// (both characters read), and `<` `>` not followed by `=` are `Lt` `Gt`; `==` `!=` are
/// `Eq` `Neq`; `&&` is `And` and `||` is `Or`.
pub proof fn law_binary_operators(s: Seq<u8>, p: int, q: int)
    requires
        q == ws_end(s, p),
        0 <= q,
    ensures
        q < s.len() && s[q] == 42u8 ==> mul_op(s, p) == Some((ws_end(s, q + 1), BinaryOperator::Mul)),
        q < s.len() && s[q] == 47u8 ==> mul_op(s, p) == Some((ws_end(s, q + 1), BinaryOperator::Div)),
        q < s.len() && s[q] == 37u8 ==> mul_op(s, p) == Some((ws_end(s, q + 1), BinaryOperator::Mod)),
        q < s.len() && s[q] == 43u8 ==> add_op(s, p) == Some((ws_end(s, q + 1), BinaryOperator::Add)),
        q < s.len() && s[q] == 45u8 ==> add_op(s, p) == Some((ws_end(s, q + 1), BinaryOperator::Sub)),
        q + 1 < s.len() && s[q] == 60u8 && s[q + 1] == 61u8
            ==> rel_op(s, p) == Some((ws_end(s, q + 2), BinaryOperator::Lte)),
        q + 1 < s.len() && s[q] == 62u8 && s[q + 1] == 61u8
            ==> rel_op(s, p) == Some((ws_end(s, q + 2), BinaryOperator::Gte)),
        q < s.len() && s[q] == 60u8 && !(q + 1 < s.len() && s[q + 1] == 61u8)
            ==> rel_op(s, p) == Some((ws_end(s, q + 1), BinaryOperator::Lt)),
        q < s.len() && s[q] == 62u8 && !(q + 1 < s.len() && s[q + 1] == 61u8)
            ==> rel_op(s, p) == Some((ws_end(s, q + 1), BinaryOperator::Gt)),
        q + 1 < s.len() && s[q] == 61u8 && s[q + 1] == 61u8
            ==> eq_op(s, p) == Some((ws_end(s, q + 2), BinaryOperator::Eq)),
        q + 1 < s.len() && s[q] == 33u8 && s[q + 1] == 61u8
            ==> eq_op(s, p) == Some((ws_end(s, q + 2), BinaryOperator::Neq)),
        q + 1 < s.len() && s[q] == 38u8 && s[q + 1] == 38u8
            ==> and_op(s, p) == Some((ws_end(s, q + 2), BinaryOperator::And)),
        q + 1 < s.len() && s[q] == 124u8 && s[q + 1] == 124u8
            ==> or_op(s, p) == Some((ws_end(s, q + 2), BinaryOperator::Or)),
{
    if q + 1 < s.len() {
        let two = s.subrange(q, q + 2);
        assert(two[0] == s[q] && two[1] == s[q + 1]);
        if s[q] == 60u8 && s[q + 1] == 61u8 {
            assert(two =~= kw::lit_le());
        }
        if s[q] == 62u8 && s[q + 1] == 61u8 {
            assert(two =~= kw::lit_ge());
        }
        if s[q] == 61u8 && s[q + 1] == 61u8 {
            assert(two =~= kw::lit_eqeq());
        }
        if s[q] == 33u8 && s[q + 1] == 61u8 {
            assert(two =~= kw::lit_ne());
        }
        if s[q] == 38u8 && s[q + 1] == 38u8 {
            assert(two =~= kw::lit_and());
        }
        if s[q] == 124u8 && s[q + 1] == 124u8 {
            assert(two =~= kw::lit_or());
        }
    }
    if q < s.len() {
        let one = s.subrange(q, q + 1);
        assert(one[0] == s[q]);
        if s[q] == 60u8 {
            assert(one =~= kw::lit_lt());
        }
        if s[q] == 62u8 {
            assert(one =~= kw::lit_gt());
        }
    }
}

/// A `-` before a unary expression negates it and a `!` before one is its logical
/// negation; the span of the result is recorded where the operator's parse starts.
pub proof fn law_unary_operators(s: Seq<u8>, p: int)
    requires
        0 <= p <= s.len(),
    ensures
        ws_byte(s, p, 45u8) matches Some(q) ==> (unary_at(s, q) matches Parsed::Done(e, k) ==> q > p
            && unary_at(s, p) == Parsed::Done(e, ExprKind::UnaryOp(UnaryOperator::Neg, Box::new(k), span_of(s, p)))),
        ws_byte(s, p, 33u8) matches Some(q) ==> (unary_at(s, q) matches Parsed::Done(e, k) ==> q > p
            && unary_at(s, p) == Parsed::Done(e, ExprKind::UnaryOp(UnaryOperator::Not, Box::new(k), span_of(s, p)))),
{
    reveal_with_fuel(unary_at, 1);
    lemma_ws_end(s, p);
    let w = ws_end(s, p);
    if w < s.len() {
        lemma_ws_end(s, w + 1);
    }
}

/// Unary expressions joined by `*`, `/`, `%`, from the left.
#[verifier::opaque]
pub open spec fn factor_at(s: Seq<u8>, p: int) -> Parsed<ExprKind>
    decreases s.len() - p, 5int,
{
    match unary_at(s, p) {
        Parsed::Failed(fatal, x, k) => Parsed::Failed(fatal, x, k),
        Parsed::Done(e, k) => if forward(s, p, e) {
            factor_more_at(s, e, k, 0)
        } else {
            Parsed::Done(e, k)
        },
    }
}

/// The operators and operands that follow an expression of kind `k` at `p`.
#[verifier::opaque]
pub open spec fn factor_more_at(s: Seq<u8>, p: int, k: ExprKind, n: nat) -> Parsed<ExprKind>
    decreases s.len() - p, 5int,
{
    match mul_op(s, p) {
        None => Parsed::Done(p, respan(k, n, span_of(s, p))),
        Some((q, op)) => if !forward(s, p, q) {
            Parsed::Done(p, respan(k, n, span_of(s, p)))
        } else {
            match unary_at(s, q) {
                Parsed::Failed(fatal, x, kk) => if fatal {
                    Parsed::Failed(true, x, kk)
                } else {
                    Parsed::Done(p, respan(k, n, span_of(s, p)))
                },
                Parsed::Done(e, k2) => if forward(s, q, e) {
                    factor_more_at(s, e, ExprKind::BinaryOp(op, Box::new(k), Box::new(k2), no_span()), n + 1)
                } else {
                    Parsed::Done(e, respan(ExprKind::BinaryOp(op, Box::new(k), Box::new(k2), no_span()), n + 1, span_of(s, e)))
                },
            }
        },
    }
}

/// Factors joined by `+` and `-`, from the left.
#[verifier::opaque]
pub open spec fn term_at(s: Seq<u8>, p: int) -> Parsed<ExprKind>
    decreases s.len() - p, 6int,
{
    match factor_at(s, p) {
        Parsed::Failed(fatal, x, k) => Parsed::Failed(fatal, x, k),
        Parsed::Done(e, k) => if forward(s, p, e) {
            term_more_at(s, e, k, 0)
        } else {
            Parsed::Done(e, k)
        },
    }
}

#[verifier::opaque]
pub open spec fn term_more_at(s: Seq<u8>, p: int, k: ExprKind, n: nat) -> Parsed<ExprKind>
    decreases s.len() - p, 6int,
{
    match add_op(s, p) {
        None => Parsed::Done(p, respan(k, n, span_of(s, p))),
        Some((q, op)) => if !forward(s, p, q) {
            Parsed::Done(p, respan(k, n, span_of(s, p)))
        } else {
            match factor_at(s, q) {
                Parsed::Failed(fatal, x, kk) => if fatal {
                    Parsed::Failed(true, x, kk)
                } else {
                    Parsed::Done(p, respan(k, n, span_of(s, p)))
                },
                Parsed::Done(e, k2) => if forward(s, q, e) {
                    term_more_at(s, e, ExprKind::BinaryOp(op, Box::new(k), Box::new(k2), no_span()), n + 1)
                } else {
                    Parsed::Done(e, respan(ExprKind::BinaryOp(op, Box::new(k), Box::new(k2), no_span()), n + 1, span_of(s, e)))
                },
            }
        },
    }
}

/// Terms joined by `<=`, `>=`, `<`, `>`, from the left.
#[verifier::opaque]
pub open spec fn comparison_at(s: Seq<u8>, p: int) -> Parsed<ExprKind>
    decreases s.len() - p, 7int,
{
    match term_at(s, p) {
        Parsed::Failed(fatal, x, k) => Parsed::Failed(fatal, x, k),
        Parsed::Done(e, k) => if forward(s, p, e) {
            comparison_more_at(s, e, k, 0)
        } else {
            Parsed::Done(e, k)
        },
    }
}

#[verifier::opaque]
pub open spec fn comparison_more_at(s: Seq<u8>, p: int, k: ExprKind, n: nat) -> Parsed<ExprKind>
    decreases s.len() - p, 7int,
{
    match rel_op(s, p) {
        None => Parsed::Done(p, respan(k, n, span_of(s, p))),
        Some((q, op)) => if !forward(s, p, q) {
            Parsed::Done(p, respan(k, n, span_of(s, p)))
        } else {
            match term_at(s, q) {
                Parsed::Failed(fatal, x, kk) => if fatal {
                    Parsed::Failed(true, x, kk)
                } else {
                    Parsed::Done(p, respan(k, n, span_of(s, p)))
                },
                Parsed::Done(e, k2) => if forward(s, q, e) {
                    comparison_more_at(s, e, ExprKind::BinaryOp(op, Box::new(k), Box::new(k2), no_span()), n + 1)
                } else {
                    Parsed::Done(e, respan(ExprKind::BinaryOp(op, Box::new(k), Box::new(k2), no_span()), n + 1, span_of(s, e)))
                },
            }
        },
    }
}

/// Comparisons joined by `==` and `!=`, from the left.
#[verifier::opaque]
pub open spec fn equality_at(s: Seq<u8>, p: int) -> Parsed<ExprKind>
    decreases s.len() - p, 8int,
{
    match comparison_at(s, p) {
        Parsed::Failed(fatal, x, k) => Parsed::Failed(fatal, x, k),
        Parsed::Done(e, k) => if forward(s, p, e) {
            equality_more_at(s, e, k, 0)
        } else {
            Parsed::Done(e, k)
        },
    }
}

#[verifier::opaque]
pub open spec fn equality_more_at(s: Seq<u8>, p: int, k: ExprKind, n: nat) -> Parsed<ExprKind>
    decreases s.len() - p, 8int,
{
    match eq_op(s, p) {
        None => Parsed::Done(p, respan(k, n, span_of(s, p))),
        Some((q, op)) => if !forward(s, p, q) {
            Parsed::Done(p, respan(k, n, span_of(s, p)))
        } else {
            match comparison_at(s, q) {
                Parsed::Failed(fatal, x, kk) => if fatal {
                    Parsed::Failed(true, x, kk)
                } else {
                    Parsed::Done(p, respan(k, n, span_of(s, p)))
                },
                Parsed::Done(e, k2) => if forward(s, q, e) {
                    equality_more_at(s, e, ExprKind::BinaryOp(op, Box::new(k), Box::new(k2), no_span()), n + 1)
                } else {
                    Parsed::Done(e, respan(ExprKind::BinaryOp(op, Box::new(k), Box::new(k2), no_span()), n + 1, span_of(s, e)))
                },
            }
        },
    }
}

/// Equalities joined by `&&`, from the left.
#[verifier::opaque]
pub open spec fn logical_and_at(s: Seq<u8>, p: int) -> Parsed<ExprKind>
    decreases s.len() - p, 9int,
{
    match equality_at(s, p) {
        Parsed::Failed(fatal, x, k) => Parsed::Failed(fatal, x, k),
        Parsed::Done(e, k) => if forward(s, p, e) {
            logical_and_more_at(s, e, k, 0)
        } else {
            Parsed::Done(e, k)
        },
    }
}

#[verifier::opaque]
pub open spec fn logical_and_more_at(s: Seq<u8>, p: int, k: ExprKind, n: nat) -> Parsed<ExprKind>
    decreases s.len() - p, 9int,
{
    match and_op(s, p) {
        None => Parsed::Done(p, respan(k, n, span_of(s, p))),
        Some((q, op)) => if !forward(s, p, q) {
            Parsed::Done(p, respan(k, n, span_of(s, p)))
        } else {
            match equality_at(s, q) {
                Parsed::Failed(fatal, x, kk) => if fatal {
                    Parsed::Failed(true, x, kk)
                } else {
                    Parsed::Done(p, respan(k, n, span_of(s, p)))
                },
                Parsed::Done(e, k2) => if forward(s, q, e) {
                    logical_and_more_at(s, e, ExprKind::BinaryOp(op, Box::new(k), Box::new(k2), no_span()), n + 1)
                } else {
                    Parsed::Done(e, respan(ExprKind::BinaryOp(op, Box::new(k), Box::new(k2), no_span()), n + 1, span_of(s, e)))
                },
            }
        },
    }
}

/// Conjunctions joined by `||`, from the left.
#[verifier::opaque]
pub open spec fn logical_or_at(s: Seq<u8>, p: int) -> Parsed<ExprKind>
    decreases s.len() - p, 10int,
{
    match logical_and_at(s, p) {
        Parsed::Failed(fatal, x, k) => Parsed::Failed(fatal, x, k),
        Parsed::Done(e, k) => if forward(s, p, e) {
            logical_or_more_at(s, e, k, 0)
        } else {
            Parsed::Done(e, k)
        },
    }
}

#[verifier::opaque]
pub open spec fn logical_or_more_at(s: Seq<u8>, p: int, k: ExprKind, n: nat) -> Parsed<ExprKind>
    decreases s.len() - p, 10int,
{
    match or_op(s, p) {
        None => Parsed::Done(p, respan(k, n, span_of(s, p))),
        Some((q, op)) => if !forward(s, p, q) {
            Parsed::Done(p, respan(k, n, span_of(s, p)))
        } else {
            match logical_and_at(s, q) {
                Parsed::Failed(fatal, x, kk) => if fatal {
                    Parsed::Failed(true, x, kk)
                } else {
                    Parsed::Done(p, respan(k, n, span_of(s, p)))
                },
                Parsed::Done(e, k2) => if forward(s, q, e) {
                    logical_or_more_at(s, e, ExprKind::BinaryOp(op, Box::new(k), Box::new(k2), no_span()), n + 1)
                } else {
                    Parsed::Done(e, respan(ExprKind::BinaryOp(op, Box::new(k), Box::new(k2), no_span()), n + 1, span_of(s, e)))
                },
            }
        },
    }
}

/// Whether an expression of this kind can be assigned to: a name or a member access.
pub open spec fn assignable(k: ExprKind) -> bool {
    k is Identifier || k is MemberAccess
}

/// A disjunction, then `=` and an assignment if `=` follows (to the right); the target
/// must be a name or a member access.
#[verifier::opaque]
pub open spec fn assignment_at(s: Seq<u8>, p: int) -> Parsed<ExprKind>
    decreases s.len() - p, 11int,
{
    match logical_or_at(s, p) {
        Parsed::Failed(fatal, x, k) => Parsed::Failed(fatal, x, k),
        Parsed::Done(e, k) => match ws_lit(s, e, kw::lit_eq()) {
            None => Parsed::Done(e, k),
            Some(q) => if !forward(s, p, q) {
                Parsed::Done(e, k)
            } else {
                match assignment_at(s, q) {
                    Parsed::Failed(fatal, x, kk) => Parsed::Failed(fatal, x, kk),
                    Parsed::Done(e2, k2) => if assignable(k) {
                        Parsed::Done(e2, ExprKind::Assignment(Box::new(k), Box::new(k2), span_of(s, e2)))
                    } else {
                        Parsed::Failed(false, p, Expected::AssignableTarget)
                    },
                }
            },
        },
    }
}

// ---------------------------------------------------------------------------
// Compound expressions.
// ---------------------------------------------------------------------------

/// `if` expression block (`elif` expression block)* (`else` block)?
#[verifier::opaque]
pub open spec fn if_expr_at(s: Seq<u8>, p: int) -> Parsed<ExprKind>
    decreases s.len() - p, 1int,
{
    match ws_lit(s, p, kw::lit_if()) {
        None => Parsed::Failed(false, ws_end(s, p), Expected::Keyword),
        Some(q) => if !forward(s, p, q) {
            Parsed::Failed(false, q, Expected::Keyword)
        } else {
            match expression_at(s, q) {
                Parsed::Failed(fatal, x, k) => Parsed::Failed(fatal, x, k),
                Parsed::Done(e1, k1) => if !forward(s, p, e1) {
                    Parsed::Failed(false, e1, Expected::Keyword)
                } else {
                    match block_expr_at(s, e1) {
                        Parsed::Failed(fatal, x, k) => Parsed::Failed(fatal, x, k),
                        Parsed::Done(e2, k2) => if !forward(s, p, e2) {
                            Parsed::Failed(false, e2, Expected::Keyword)
                        } else {
                            match elif_branches_at(s, e2) {
                                Parsed::Failed(fatal, x, k) => Parsed::Failed(fatal, x, k),
                                Parsed::Done(e3, ps) => match ws_lit(s, e3, kw::lit_else()) {
                                    None => Parsed::Done(e3, ExprKind::IfExpr(Box::new(k1), Box::new(k2), ps, None, covering_span(s, p, e3))),
                                    Some(q4) => if !forward(s, p, q4) {
                                        Parsed::Done(e3, ExprKind::IfExpr(Box::new(k1), Box::new(k2), ps, None, covering_span(s, p, e3)))
                                    } else {
                                        match block_expr_at(s, q4) {
                                            Parsed::Done(e4, k4) => Parsed::Done(
                                                e4,
                                                ExprKind::IfExpr(Box::new(k1), Box::new(k2), ps, Some(Box::new(k4)), covering_span(s, p, e4)),
                                            ),
                                            Parsed::Failed(fatal, x, k) => if fatal {
                                                Parsed::Failed(true, x, k)
                                            } else {
                                                Parsed::Done(e3, ExprKind::IfExpr(Box::new(k1), Box::new(k2), ps, None, covering_span(s, p, e3)))
                                            },
                                        }
                                    },
                                },
                            }
                        },
                    }
                },
            }
        },
    }
}

/// The `elif` branches: the kinds of their conditions and blocks.
#[verifier::opaque]
pub open spec fn elif_branches_at(s: Seq<u8>, p: int) -> Parsed<Seq<(ExprKind, ExprKind)>>
    decreases s.len() - p, 1int,
{
    match ws_lit(s, p, kw::lit_elif()) {
        None => Parsed::Done(p, Seq::empty()),
        Some(q) => if !forward(s, p, q) {
            Parsed::Done(p, Seq::empty())
        } else {
            match expression_at(s, q) {
                Parsed::Failed(fatal, x, k) => if fatal {
                    Parsed::Failed(true, x, k)
                } else {
                    Parsed::Done(p, Seq::empty())
                },
                Parsed::Done(e1, k1) => if !forward(s, p, e1) {
                    Parsed::Done(p, Seq::empty())
                } else {
                    match block_expr_at(s, e1) {
                        Parsed::Failed(fatal, x, k) => if fatal {
                            Parsed::Failed(true, x, k)
                        } else {
                            Parsed::Done(p, Seq::empty())
                        },
                        Parsed::Done(e2, k2) => if forward(s, p, e2) {
                            one_more((k1, k2), elif_branches_at(s, e2))
                        } else {
                            Parsed::Done(e2, seq![(k1, k2)])
                        },
                    }
                },
            }
        },
    }
}

/// `match` expression `{` cases separated by `,` `,`? `}`.
#[verifier::opaque]
pub open spec fn match_expr_at(s: Seq<u8>, p: int) -> Parsed<ExprKind>
    decreases s.len() - p, 1int,
{
    match ws_lit(s, p, kw::lit_match()) {
        None => Parsed::Failed(false, ws_end(s, p), Expected::Keyword),
        Some(q) => if !forward(s, p, q) {
            Parsed::Failed(false, q, Expected::Keyword)
        } else {
            match expression_at(s, q) {
                Parsed::Failed(fatal, x, k) => Parsed::Failed(fatal, x, k),
                Parsed::Done(e1, k1) => match ws_byte(s, e1, 123u8) {
                    None => Parsed::Failed(false, ws_end(s, e1), Expected::Char(123u8)),
                    Some(q2) => if !forward(s, p, q2) {
                        Parsed::Failed(false, q2, Expected::Char(123u8))
                    } else {
                        match match_cases_at(s, q2) {
                            Parsed::Failed(fatal, x, k) => Parsed::Failed(fatal, x, k),
                            Parsed::Done(e3, cs) => {
                                let e4 = opt_comma(s, e3);
                                match ws_byte(s, e4, 125u8) {
                                    None => Parsed::Failed(true, ws_end(s, e4), Expected::Char(125u8)),
                                    Some(f) => Parsed::Done(f, ExprKind::MatchExpr(Box::new(k1), cs, span_of(s, f))),
                                }
                            },
                        }
                    },
                },
            }
        },
    }
}

/// Match cases separated by `,`: their kinds.
#[verifier::opaque]
pub open spec fn match_cases_at(s: Seq<u8>, p: int) -> Parsed<Seq<(PatternKind, Option<ExprKind>, ExprKind)>>
    decreases s.len() - p, 2int,
{
    match match_case_at(s, p) {
        Parsed::Failed(fatal, x, k) => if fatal {
            Parsed::Failed(true, x, k)
        } else {
            Parsed::Done(p, Seq::empty())
        },
        Parsed::Done(e, k) => if forward(s, p, e) {
            one_more(k, match_cases_more_at(s, e))
        } else {
            Parsed::Done(e, seq![k])
        },
    }
}

#[verifier::opaque]
pub open spec fn match_cases_more_at(s: Seq<u8>, p: int) -> Parsed<Seq<(PatternKind, Option<ExprKind>, ExprKind)>>
    decreases s.len() - p, 2int,
{
    match ws_byte(s, p, 44u8) {
        None => Parsed::Done(p, Seq::empty()),
        Some(q) => if !forward(s, p, q) {
            Parsed::Done(p, Seq::empty())
        } else {
            match match_case_at(s, q) {
                Parsed::Failed(fatal, x, k) => if fatal {
                    Parsed::Failed(true, x, k)
                } else {
                    Parsed::Done(p, Seq::empty())
                },
                Parsed::Done(e, k) => if forward(s, q, e) {
                    one_more(k, match_cases_more_at(s, e))
                } else {
                    Parsed::Done(e, seq![k])
                },
            }
        },
    }
}

/// A match case: pattern (`if` guard)? `=>` expression, and the white space after it;
/// the kinds of its pattern, guard and body. The guard is a disjunction (no assignment).
#[verifier::opaque]
pub open spec fn match_case_at(s: Seq<u8>, p: int) -> Parsed<(PatternKind, Option<ExprKind>, ExprKind)>
    decreases s.len() - p, 1int,
{
    match pattern_at(s, p) {
        Parsed::Failed(fatal, x, k) => Parsed::Failed(fatal, x, k),
        Parsed::Done(e1, pk) => {
            let guard: Parsed<Option<ExprKind>> = match ws_lit(s, e1, kw::lit_if()) {
                None => Parsed::Done(e1, None),
                Some(q) => if !forward(s, p, q) {
                    Parsed::Done(e1, None)
                } else {
                    match logical_or_at(s, q) {
                        Parsed::Done(e2, gk) => Parsed::Done(e2, Some(gk)),
                        Parsed::Failed(fatal, x, k) => if fatal {
                            Parsed::Failed(true, x, k)
                        } else {
                            Parsed::Done(e1, None)
                        },
                    }
                },
            };
            match guard {
                Parsed::Failed(fatal, x, k) => Parsed::Failed(fatal, x, k),
                Parsed::Done(e2, g) => match ws_lit(s, e2, kw::lit_fat_arrow()) {
                    None => Parsed::Failed(false, ws_end(s, e2), Expected::Keyword),
                    Some(q3) => if !forward(s, p, q3) {
                        Parsed::Failed(false, q3, Expected::Keyword)
                    } else {
                        match expression_at(s, q3) {
                            Parsed::Failed(fatal, x, k) => Parsed::Failed(fatal, x, k),
                            Parsed::Done(e4, bk) => Parsed::Done(ws_end(s, e4), (pk, g, bk)),
                        }
                    },
                },
            }
        },
    }
}

/// The part shared by the comprehensions after the output: `for` pattern `<-`
/// expression (`if` expression)?: the kinds of the pattern, the input and the condition.
#[verifier::opaque]
pub open spec fn comprehension_tail_at(s: Seq<u8>, p: int) -> Parsed<(PatternKind, ExprKind, Option<ExprKind>)>
    decreases s.len() - p, 1int,
{
    match ws_lit(s, p, kw::lit_for()) {
        None => Parsed::Failed(false, ws_end(s, p), Expected::Keyword),
        Some(q) => match pattern_at(s, q) {
            Parsed::Failed(fatal, x, k) => Parsed::Failed(fatal, x, k),
            Parsed::Done(e1, pk) => match ws_lit(s, e1, kw::lit_larrow()) {
                None => Parsed::Failed(false, ws_end(s, e1), Expected::Keyword),
                Some(q2) => if !forward(s, p, q2) {
                    Parsed::Failed(false, q2, Expected::Keyword)
                } else {
                    match expression_at(s, q2) {
                        Parsed::Failed(fatal, x, k) => Parsed::Failed(fatal, x, k),
                        Parsed::Done(e2, ik) => match ws_lit(s, e2, kw::lit_if()) {
                            None => Parsed::Done(e2, (pk, ik, None)),
                            Some(q3) => if !forward(s, p, q3) {
                                Parsed::Done(e2, (pk, ik, None))
                            } else {
                                match expression_at(s, q3) {
                                    Parsed::Done(e3, ck) => Parsed::Done(e3, (pk, ik, Some(ck))),
                                    Parsed::Failed(fatal, x, k) => if fatal {
                                        Parsed::Failed(true, x, k)
                                    } else {
                                        Parsed::Done(e2, (pk, ik, None))
                                    },
                                }
                            },
                        },
                    }
                },
            },
        },
    }
}

/// `[` expression `for` pattern `<-` expression (`if` expression)? `]`.
#[verifier::opaque]
pub open spec fn list_comprehension_at(s: Seq<u8>, p: int) -> Parsed<ExprKind>
    decreases s.len() - p, 1int,
{
    match ws_byte(s, p, 91u8) {
        None => Parsed::Failed(false, ws_end(s, p), Expected::Char(91u8)),
        Some(q) => if !forward(s, p, q) {
            Parsed::Failed(false, q, Expected::Char(91u8))
        } else {
            match expression_at(s, q) {
                Parsed::Failed(fatal, x, k) => Parsed::Failed(fatal, x, k),
                Parsed::Done(e1, ok) => if !forward(s, p, e1) {
                    Parsed::Failed(false, e1, Expected::Keyword)
                } else {
                    match comprehension_tail_at(s, e1) {
                        Parsed::Failed(fatal, x, k) => Parsed::Failed(fatal, x, k),
                        Parsed::Done(e2, t) => match ws_byte(s, e2, 93u8) {
                            None => Parsed::Failed(false, ws_end(s, e2), Expected::Char(93u8)),
                            Some(f) => Parsed::Done(f, ExprKind::Comprehension(
                                ComprehensionKind::List,
                                Box::new(ok),
                                t.0,
                                Box::new(t.1),
                                opt_box(t.2),
                                span_of(s, f),
                            )),
                        },
                    }
                },
            }
        },
    }
}

/// `{` expression `->` expression `for` pattern `<-` expression (`if` expression)? `}`.
#[verifier::opaque]
pub open spec fn map_comprehension_at(s: Seq<u8>, p: int) -> Parsed<ExprKind>
    decreases s.len() - p, 1int,
{
    match ws_byte(s, p, 123u8) {
        None => Parsed::Failed(false, ws_end(s, p), Expected::Char(123u8)),
        Some(q) => if !forward(s, p, q) {
            Parsed::Failed(false, q, Expected::Char(123u8))
        } else {
            match expression_at(s, q) {
                Parsed::Failed(fatal, x, k) => Parsed::Failed(fatal, x, k),
                Parsed::Done(e1, kk) => match ws_lit(s, e1, crate::parser::types::lit_arrow()) {
                    None => Parsed::Failed(false, ws_end(s, e1), Expected::Keyword),
                    Some(q2) => if !forward(s, p, q2) {
                        Parsed::Failed(false, q2, Expected::Keyword)
                    } else {
                        match expression_at(s, q2) {
                            Parsed::Failed(fatal, x, k) => Parsed::Failed(fatal, x, k),
                            Parsed::Done(e2, vk) => if !forward(s, p, e2) {
                                Parsed::Failed(false, e2, Expected::Keyword)
                            } else {
                                match comprehension_tail_at(s, e2) {
                                    Parsed::Failed(fatal, x, k) => Parsed::Failed(fatal, x, k),
                                    Parsed::Done(e3, t) => match ws_byte(s, e3, 125u8) {
                                        None => Parsed::Failed(false, ws_end(s, e3), Expected::Char(125u8)),
                                        Some(f) => Parsed::Done(
                                            f,
                                            ExprKind::Comprehension(
                                                ComprehensionKind::MapOf,
                                                Box::new(ExprKind::ParenExpr(Box::new(ExprKind::BinaryOp(
                                                    BinaryOperator::Add,
                                                    Box::new(kk),
                                                    Box::new(vk),
                                                    span_of(s, f),
                                                )), span_of(s, f))),
                                                t.0,
                                                Box::new(t.1),
                                                opt_box(t.2),
                                                span_of(s, f),
                                            ),
                                        ),
                                    },
                                }
                            },
                        }
                    },
                },
            }
        },
    }
}

/// `#{` expression `for` pattern `<-` expression (`if` expression)? `}`.
#[verifier::opaque]
pub open spec fn set_comprehension_at(s: Seq<u8>, p: int) -> Parsed<ExprKind>
    decreases s.len() - p, 1int,
{
    match ws_lit(s, p, kw::lit_hash_brace()) {
        None => Parsed::Failed(false, ws_end(s, p), Expected::Keyword),
        Some(q) => if !forward(s, p, q) {
            Parsed::Failed(false, q, Expected::Keyword)
        } else {
            match expression_at(s, q) {
                Parsed::Failed(fatal, x, k) => Parsed::Failed(fatal, x, k),
                Parsed::Done(e1, ok) => if !forward(s, p, e1) {
                    Parsed::Failed(false, e1, Expected::Keyword)
                } else {
                    match comprehension_tail_at(s, e1) {
                        Parsed::Failed(fatal, x, k) => Parsed::Failed(fatal, x, k),
                        Parsed::Done(e2, t) => match ws_byte(s, e2, 125u8) {
                            None => Parsed::Failed(false, ws_end(s, e2), Expected::Char(125u8)),
                            Some(f) => Parsed::Done(f, ExprKind::Comprehension(
                                ComprehensionKind::SetOf,
                                Box::new(ok),
                                t.0,
                                Box::new(t.1),
                                opt_box(t.2),
                                span_of(s, f),
                            )),
                        },
                    }
                },
            }
        },
    }
}

/// The first of the list, map and set comprehensions that reads one.
#[verifier::opaque]
pub open spec fn collection_comprehension_at(s: Seq<u8>, p: int) -> Parsed<ExprKind>
    decreases s.len() - p, 2int,
{
    let r1 = list_comprehension_at(s, p);
    if !missed(r1) {
        r1
    } else {
        let r2 = map_comprehension_at(s, p);
        if !missed(r2) {
            r2
        } else {
            set_comprehension_at(s, p)
        }
    }
}

/// The kind of a comprehension follows from its opening bracket: one that starts with
/// `[` is a list comprehension, with `{` a map comprehension and with `#{` a set
/// comprehension; whatever reads as a comprehension is one of these.
pub proof fn law_comprehension_kind(s: Seq<u8>, p: int)
    requires
        0 <= p <= s.len(),
    ensures
        collection_comprehension_at(s, p) matches Parsed::Done(_, k) ==> ({
            let q = ws_end(s, p);
            &&& 0 <= q < s.len()
            &&& k matches ExprKind::Comprehension(kind, _, _, _, _, _)
            &&& (kind == ComprehensionKind::List <==> s[q] == 91u8)
            &&& (kind == ComprehensionKind::MapOf <==> s[q] == 123u8)
            &&& (kind == ComprehensionKind::SetOf <==> s[q] == 35u8)
        }),
{
    reveal_with_fuel(collection_comprehension_at, 1);
    lemma_list_comprehension_kind(s, p);
    lemma_map_comprehension_kind(s, p);
    lemma_set_comprehension_kind(s, p);
}

proof fn lemma_list_comprehension_kind(s: Seq<u8>, p: int)
    ensures
        list_comprehension_at(s, p) matches Parsed::Done(_, k) ==> 0 <= ws_end(s, p) < s.len()
            && s[ws_end(s, p)] == 91u8 && k matches ExprKind::Comprehension(ComprehensionKind::List, _, _, _, _, _),
{
    reveal_with_fuel(list_comprehension_at, 1);
}

proof fn lemma_map_comprehension_kind(s: Seq<u8>, p: int)
    ensures
        map_comprehension_at(s, p) matches Parsed::Done(_, k) ==> 0 <= ws_end(s, p) < s.len()
            && s[ws_end(s, p)] == 123u8 && k matches ExprKind::Comprehension(ComprehensionKind::MapOf, _, _, _, _, _),
{
    reveal_with_fuel(map_comprehension_at, 1);
}

proof fn lemma_set_comprehension_kind(s: Seq<u8>, p: int)
    ensures
        set_comprehension_at(s, p) matches Parsed::Done(_, k) ==> 0 <= ws_end(s, p) < s.len()
            && s[ws_end(s, p)] == 35u8 && k matches ExprKind::Comprehension(ComprehensionKind::SetOf, _, _, _, _, _),
{
    reveal_with_fuel(set_comprehension_at, 1);
    let q = ws_end(s, p);
    if ws_lit(s, p, kw::lit_hash_brace()) is Some {
        assert(s.subrange(q, q + 2)[0] == s[q]);
    }
}

/// pattern `<-` expression `;`.
#[verifier::opaque]
pub open spec fn bind_statement_at(s: Seq<u8>, p: int) -> Parsed<(PatternKind, ExprKind)>
    decreases s.len() - p, 1int,
{
    match pattern_at(s, p) {
        Parsed::Failed(fatal, x, k) => Parsed::Failed(fatal, x, k),
        Parsed::Done(e1, pk) => match ws_lit(s, e1, kw::lit_larrow()) {
            None => Parsed::Failed(false, ws_end(s, e1), Expected::Keyword),
            Some(q) => if !forward(s, p, q) {
                Parsed::Failed(false, q, Expected::Keyword)
            } else {
                match expression_at(s, q) {
                    Parsed::Failed(fatal, x, k) => Parsed::Failed(fatal, x, k),
                    Parsed::Done(e2, vk) => match ws_byte(s, e2, 59u8) {
                        None => Parsed::Failed(false, ws_end(s, e2), Expected::Char(59u8)),
                        Some(f) => Parsed::Done(f, (pk, vk)),
                    },
                }
            },
        },
    }
}

/// Bind statements, one after another: their kinds.
#[verifier::opaque]
pub open spec fn bind_statements_at(s: Seq<u8>, p: int) -> Parsed<Seq<(PatternKind, ExprKind)>>
    decreases s.len() - p, 2int,
{
    match bind_statement_at(s, p) {
        Parsed::Failed(fatal, x, k) => if fatal {
            Parsed::Failed(true, x, k)
        } else {
            Parsed::Done(p, Seq::empty())
        },
        Parsed::Done(e, k) => if forward(s, p, e) {
            one_more(k, bind_statements_at(s, e))
        } else {
            Parsed::Done(e, seq![k])
        },
    }
}

/// `bind` `{` bind statements expression `}`.
#[verifier::opaque]
pub open spec fn bind_expr_at(s: Seq<u8>, p: int) -> Parsed<ExprKind>
    decreases s.len() - p, 1int,
{
    match ws_lit(s, p, kw::lit_bind()) {
        None => Parsed::Failed(false, ws_end(s, p), Expected::Keyword),
        Some(q) => match ws_byte(s, q, 123u8) {
            None => Parsed::Failed(false, ws_end(s, q), Expected::Char(123u8)),
            Some(q2) => if !forward(s, p, q2) {
                Parsed::Failed(false, q2, Expected::Char(123u8))
            } else {
                match bind_statements_at(s, q2) {
                    Parsed::Failed(fatal, x, k) => Parsed::Failed(fatal, x, k),
                    Parsed::Done(e1, bs) => if !forward(s, p, e1) {
                        Parsed::Failed(false, e1, Expected::Keyword)
                    } else {
                        match expression_at(s, e1) {
                            Parsed::Failed(fatal, x, k) => Parsed::Failed(fatal, x, k),
                            Parsed::Done(e2, fk) => match ws_byte(s, e2, 125u8) {
                                None => Parsed::Failed(false, ws_end(s, e2), Expected::Char(125u8)),
                                Some(f) => Parsed::Done(f, ExprKind::BindExpr(bs, Box::new(fk), span_of(s, f))),
                            },
                        }
                    },
                }
            },
        },
    }
}

/// name `=` expression (`:` type)?: a binding of a `with` expression, its name and the
/// kinds of its parts.
#[verifier::opaque]
pub open spec fn with_binding_at(s: Seq<u8>, p: int) -> Parsed<(Seq<char>, ExprKind, Option<TypeModel>, Span)>
    decreases s.len() - p, 1int,
{
    match ws_ident(s, p) {
        None => Parsed::Failed(false, ws_end(s, p), Expected::Keyword),
        Some((a, b, c)) => match ws_byte(s, c, 61u8) {
            None => Parsed::Failed(false, ws_end(s, c), Expected::Char(61u8)),
            Some(q) => if !forward(s, p, q) {
                Parsed::Failed(false, q, Expected::Char(61u8))
            } else {
                match expression_at(s, q) {
                    Parsed::Failed(fatal, x, k) => Parsed::Failed(fatal, x, k),
                    Parsed::Done(e, ik) => match ws_byte(s, e, 58u8) {
                        None => Parsed::Done(e, (ascii_text(s.subrange(a, b)), ik, None, covering_span(s, p, e))),
                        Some(q2) => match type_at(s, q2) {
                            Parsed::Done(e2, tm) => Parsed::Done(e2, (ascii_text(s.subrange(a, b)), ik, Some(tm), covering_span(s, p, e2))),
                            Parsed::Failed(fatal, x, k) => if fatal {
                                Parsed::Failed(true, x, k)
                            } else {
                                Parsed::Done(e, (ascii_text(s.subrange(a, b)), ik, None, covering_span(s, p, e)))
                            },
                        },
                    },
                }
            },
        },
    }
}

/// `with` bindings separated by `,`: their kinds.
#[verifier::opaque]
pub open spec fn with_bindings_at(s: Seq<u8>, p: int) -> Parsed<Seq<(Seq<char>, ExprKind, Option<TypeModel>, Span)>>
    decreases s.len() - p, 2int,
{
    match with_binding_at(s, p) {
        Parsed::Failed(fatal, x, k) => if fatal {
            Parsed::Failed(true, x, k)
        } else {
            Parsed::Done(p, Seq::empty())
        },
        Parsed::Done(e, k) => if forward(s, p, e) {
            one_more(k, with_bindings_more_at(s, e))
        } else {
            Parsed::Done(e, seq![k])
        },
    }
}

#[verifier::opaque]
pub open spec fn with_bindings_more_at(s: Seq<u8>, p: int) -> Parsed<Seq<(Seq<char>, ExprKind, Option<TypeModel>, Span)>>
    decreases s.len() - p, 2int,
{
    match ws_byte(s, p, 44u8) {
        None => Parsed::Done(p, Seq::empty()),
        Some(q) => if !forward(s, p, q) {
            Parsed::Done(p, Seq::empty())
        } else {
            match with_binding_at(s, q) {
                Parsed::Failed(fatal, x, k) => if fatal {
                    Parsed::Failed(true, x, k)
                } else {
                    Parsed::Done(p, Seq::empty())
                },
                Parsed::Done(e, k) => if forward(s, q, e) {
                    one_more(k, with_bindings_more_at(s, e))
                } else {
                    Parsed::Done(e, seq![k])
                },
            }
        },
    }
}

/// `with` bindings block.
#[verifier::opaque]
pub open spec fn with_expr_at(s: Seq<u8>, p: int) -> Parsed<ExprKind>
    decreases s.len() - p, 1int,
{
    match ws_lit(s, p, kw::lit_with()) {
        None => Parsed::Failed(false, ws_end(s, p), Expected::Keyword),
        Some(q) => if !forward(s, p, q) {
            Parsed::Failed(false, q, Expected::Keyword)
        } else {
            match with_bindings_at(s, q) {
                Parsed::Failed(fatal, x, k) => Parsed::Failed(fatal, x, k),
                Parsed::Done(e1, bs) => if !forward(s, p, e1) {
                    Parsed::Failed(false, e1, Expected::Keyword)
                } else {
                    match block_expr_at(s, e1) {
                        Parsed::Failed(fatal, x, k) => Parsed::Failed(fatal, x, k),
                        Parsed::Done(e2, bk) => Parsed::Done(e2, ExprKind::WithExpr(bs, Box::new(bk), covering_span(s, p, e2))),
                    }
                },
            }
        },
    }
}

/// Expressions separated by `,`, possibly none: their kinds.
#[verifier::opaque]
pub open spec fn expr_list_at(s: Seq<u8>, p: int) -> Parsed<Seq<ExprKind>>
    decreases s.len() - p, 13int,
{
    match expression_at(s, p) {
        Parsed::Failed(fatal, x, k) => if fatal {
            Parsed::Failed(true, x, k)
        } else {
            Parsed::Done(p, Seq::empty())
        },
        Parsed::Done(e, k) => if forward(s, p, e) {
            one_more(k, expr_list_more_at(s, e))
        } else {
            Parsed::Done(e, seq![k])
        },
    }
}

/// The expressions that follow, each after a `,`: their kinds.
#[verifier::opaque]
pub open spec fn expr_list_more_at(s: Seq<u8>, p: int) -> Parsed<Seq<ExprKind>>
    decreases s.len() - p, 13int,
{
    match ws_byte(s, p, 44u8) {
        None => Parsed::Done(p, Seq::empty()),
        Some(q) => if !forward(s, p, q) {
            Parsed::Done(p, Seq::empty())
        } else {
            match expression_at(s, q) {
                Parsed::Failed(fatal, x, k) => if fatal {
                    Parsed::Failed(true, x, k)
                } else {
                    Parsed::Done(p, Seq::empty())
                },
                Parsed::Done(e, k) => if forward(s, q, e) {
                    one_more(k, expr_list_more_at(s, e))
                } else {
                    Parsed::Done(e, seq![k])
                },
            }
        },
    }
}

/// expression `->` expression: a map entry, the kinds of its key and value.
#[verifier::opaque]
pub open spec fn map_entry_at(s: Seq<u8>, p: int) -> Parsed<(ExprKind, ExprKind)>
    decreases s.len() - p, 13int,
{
    match expression_at(s, p) {
        Parsed::Failed(fatal, x, k) => Parsed::Failed(fatal, x, k),
        Parsed::Done(e1, k1) => match ws_lit(s, e1, crate::parser::types::lit_arrow()) {
            None => Parsed::Failed(false, ws_end(s, e1), Expected::Keyword),
            Some(q) => if !forward(s, p, q) {
                Parsed::Failed(false, q, Expected::Keyword)
            } else {
                match expression_at(s, q) {
                    Parsed::Failed(fatal, x, k) => Parsed::Failed(fatal, x, k),
                    Parsed::Done(e2, k2) => Parsed::Done(e2, (k1, k2)),
                }
            },
        },
    }
}

/// Map entries separated by `,`: the kinds of their keys and values.
#[verifier::opaque]
pub open spec fn map_entries_at(s: Seq<u8>, p: int) -> Parsed<Seq<(ExprKind, ExprKind)>>
    decreases s.len() - p, 14int,
{
    match map_entry_at(s, p) {
        Parsed::Failed(fatal, x, k) => if fatal {
            Parsed::Failed(true, x, k)
        } else {
            Parsed::Done(p, Seq::empty())
        },
        Parsed::Done(e, k) => if forward(s, p, e) {
            one_more(k, map_entries_more_at(s, e))
        } else {
            Parsed::Done(e, seq![k])
        },
    }
}

#[verifier::opaque]
pub open spec fn map_entries_more_at(s: Seq<u8>, p: int) -> Parsed<Seq<(ExprKind, ExprKind)>>
    decreases s.len() - p, 14int,
{
    match ws_byte(s, p, 44u8) {
        None => Parsed::Done(p, Seq::empty()),
        Some(q) => if !forward(s, p, q) {
            Parsed::Done(p, Seq::empty())
        } else {
            match map_entry_at(s, q) {
                Parsed::Failed(fatal, x, k) => if fatal {
                    Parsed::Failed(true, x, k)
                } else {
                    Parsed::Done(p, Seq::empty())
                },
                Parsed::Done(e, k) => if forward(s, q, e) {
                    one_more(k, map_entries_more_at(s, e))
                } else {
                    Parsed::Done(e, seq![k])
                },
            }
        },
    }
}

/// `[` expressions `,`? `]`.
#[verifier::opaque]
pub open spec fn list_literal_at(s: Seq<u8>, p: int) -> Parsed<ExprKind>
    decreases s.len() - p, 1int,
{
    match ws_byte(s, p, 91u8) {
        None => Parsed::Failed(false, ws_end(s, p), Expected::Char(91u8)),
        Some(q) => if !forward(s, p, q) {
            Parsed::Failed(false, q, Expected::Char(91u8))
        } else {
            match expr_list_at(s, q) {
                Parsed::Failed(fatal, x, k) => Parsed::Failed(fatal, x, k),
                Parsed::Done(e, ks) => {
                    let e2 = opt_comma(s, e);
                    match ws_byte(s, e2, 93u8) {
                        None => Parsed::Failed(false, ws_end(s, e2), Expected::Char(93u8)),
                        Some(f) => Parsed::Done(f, ExprKind::ListLiteral(ks, span_of(s, f))),
                    }
                },
            }
        },
    }
}

/// `{` map entries `,`? `}`.
#[verifier::opaque]
pub open spec fn map_literal_at(s: Seq<u8>, p: int) -> Parsed<ExprKind>
    decreases s.len() - p, 1int,
{
    match ws_byte(s, p, 123u8) {
        None => Parsed::Failed(false, ws_end(s, p), Expected::Char(123u8)),
        Some(q) => if !forward(s, p, q) {
            Parsed::Failed(false, q, Expected::Char(123u8))
        } else {
            match map_entries_at(s, q) {
                Parsed::Failed(fatal, x, k) => Parsed::Failed(fatal, x, k),
                Parsed::Done(e, ks) => {
                    let e2 = opt_comma(s, e);
                    match ws_byte(s, e2, 125u8) {
                        None => Parsed::Failed(false, ws_end(s, e2), Expected::Char(125u8)),
                        Some(f) => Parsed::Done(f, ExprKind::MapLiteral(ks, span_of(s, f))),
                    }
                },
            }
        },
    }
}

/// `#{` expressions `,`? `}`.
#[verifier::opaque]
pub open spec fn set_literal_at(s: Seq<u8>, p: int) -> Parsed<ExprKind>
    decreases s.len() - p, 1int,
{
    match ws_lit(s, p, kw::lit_hash_brace()) {
        None => Parsed::Failed(false, ws_end(s, p), Expected::Keyword),
        Some(q) => if !forward(s, p, q) {
            Parsed::Failed(false, q, Expected::Keyword)
        } else {
            match expr_list_at(s, q) {
                Parsed::Failed(fatal, x, k) => Parsed::Failed(fatal, x, k),
                Parsed::Done(e, ks) => {
                    let e2 = opt_comma(s, e);
                    match ws_byte(s, e2, 125u8) {
                        None => Parsed::Failed(false, ws_end(s, e2), Expected::Char(125u8)),
                        Some(f) => Parsed::Done(f, ExprKind::SetLiteral(ks, span_of(s, f))),
                    }
                },
            }
        },
    }
}

/// The first of the list, map and set literals that reads one.
#[verifier::opaque]
pub open spec fn collection_literal_at(s: Seq<u8>, p: int) -> Parsed<ExprKind>
    decreases s.len() - p, 2int,
{
    let r1 = list_literal_at(s, p);
    if !missed(r1) {
        r1
    } else {
        let r2 = map_literal_at(s, p);
        if !missed(r2) {
            r2
        } else {
            set_literal_at(s, p)
        }
    }
}

/// `fn` (parameters)? (effect parameters)? (implicit parameters)? (`:` type)? `=>`
/// expression; once `fn` is read, a missing `=>` or body is final.
#[verifier::opaque]
pub open spec fn function_expr_at(s: Seq<u8>, p: int) -> Parsed<ExprKind>
    decreases s.len() - p, 1int,
{
    match ws_lit(s, p, kw::lit_fn()) {
        None => Parsed::Failed(false, ws_end(s, p), Expected::Keyword),
        Some(q) => match optional_value(param_list_at(s, q), q) {
            Parsed::Failed(fatal, x, k) => Parsed::Failed(fatal, x, k),
            Parsed::Done(e1, pks) => match optional_value(effect_param_list_at(s, e1), e1) {
                Parsed::Failed(fatal, x, k) => Parsed::Failed(fatal, x, k),
                Parsed::Done(e2, eks) => match optional_value(implicit_param_list_at(s, e2), e2) {
                    Parsed::Failed(fatal, x, k) => Parsed::Failed(fatal, x, k),
                    Parsed::Done(e3, iks) => {
                        let annotated: Parsed<()> = match ws_byte(s, e3, 58u8) {
                            None => Parsed::Done(e3, ()),
                            Some(q4) => match type_at(s, q4) {
                                Parsed::Done(e4, _) => Parsed::Done(e4, ()),
                                Parsed::Failed(fatal, x, k) => if fatal {
                                    Parsed::Failed(true, x, k)
                                } else {
                                    Parsed::Done(e3, ())
                                },
                            },
                        };
                        match annotated {
                            Parsed::Failed(fatal, x, k) => Parsed::Failed(fatal, x, k),
                            Parsed::Done(e4, _) => match ws_lit(s, e4, kw::lit_fat_arrow()) {
                                None => Parsed::Failed(true, ws_end(s, e4), Expected::Keyword),
                                Some(q5) => if !forward(s, p, q5) {
                                    Parsed::Failed(true, q5, Expected::Keyword)
                                } else {
                                    match expression_at(s, q5) {
                                        Parsed::Failed(_, x, k) => Parsed::Failed(true, x, k),
                                        Parsed::Done(e6, k6) => Parsed::Done(e6, ExprKind::FunctionExpr(pks, eks, iks, Box::new(k6), covering_span(s, p, e6))),
                                    }
                                },
                            },
                        }
                    },
                },
            },
        },
    }
}

/// `(` parameters separated by `,` `)`: their names and annotations; a missing `)` is
/// final.
#[verifier::opaque]
pub open spec fn param_list_at(s: Seq<u8>, p: int) -> Parsed<Seq<(Seq<char>, Option<TypeModel>, Span)>> {
    match ws_byte(s, p, 40u8) {
        None => Parsed::Failed(false, ws_end(s, p), Expected::Char(40u8)),
        Some(q) => match param_items_at(s, q) {
            Parsed::Failed(fatal, x, k) => Parsed::Failed(fatal, x, k),
            Parsed::Done(e, ks) => match ws_byte(s, e, 41u8) {
                None => Parsed::Failed(true, ws_end(s, e), Expected::Char(41u8)),
                Some(f) => Parsed::Done(f, ks),
            },
        },
    }
}

/// Parameters separated by `,`, possibly none: their names and annotations.
#[verifier::opaque]
pub open spec fn param_items_at(s: Seq<u8>, p: int) -> Parsed<Seq<(Seq<char>, Option<TypeModel>, Span)>> {
    match parameter_at(s, p) {
        Parsed::Failed(fatal, x, k) => if fatal {
            Parsed::Failed(true, x, k)
        } else {
            Parsed::Done(p, Seq::empty())
        },
        Parsed::Done(e, k) => one_more(k, param_items_more_at(s, e)),
    }
}

#[verifier::opaque]
pub open spec fn param_items_more_at(s: Seq<u8>, p: int) -> Parsed<Seq<(Seq<char>, Option<TypeModel>, Span)>>
    decreases s.len() - p,
{
    match ws_byte(s, p, 44u8) {
        None => Parsed::Done(p, Seq::empty()),
        Some(q) => match parameter_at(s, q) {
            Parsed::Failed(fatal, x, k) => if fatal {
                Parsed::Failed(true, x, k)
            } else {
                Parsed::Done(p, Seq::empty())
            },
            Parsed::Done(e, k) => if forward(s, p, e) {
                one_more(k, param_items_more_at(s, e))
            } else {
                Parsed::Done(e, seq![k])
            },
        },
    }
}

/// `effect` name `:` type.
#[verifier::opaque]
pub open spec fn effect_parameter_at(s: Seq<u8>, p: int) -> Parsed<(Seq<char>, TypeModel, Span)> {
    match ws_lit(s, p, kw::lit_effect()) {
        None => Parsed::Failed(false, ws_end(s, p), Expected::Keyword),
        Some(q) => match ws_ident(s, q) {
            None => Parsed::Failed(false, ws_end(s, q), Expected::Keyword),
            Some((a, b, c)) => match ws_byte(s, c, 58u8) {
                None => Parsed::Failed(false, ws_end(s, c), Expected::Char(58u8)),
                Some(q2) => match type_at(s, q2) {
                    Parsed::Done(e, t) => Parsed::Done(e, (ascii_text(s.subrange(a, b)), t, span_of(s, e))),
                    Parsed::Failed(fatal, x, k) => Parsed::Failed(fatal, x, k),
                },
            },
        },
    }
}

/// `(` effect parameters separated by `,` `)`: their names and types; a missing `)` is
/// final.
#[verifier::opaque]
pub open spec fn effect_param_list_at(s: Seq<u8>, p: int) -> Parsed<Seq<(Seq<char>, TypeModel, Span)>> {
    match ws_byte(s, p, 40u8) {
        None => Parsed::Failed(false, ws_end(s, p), Expected::Char(40u8)),
        Some(q) => match effect_items_at(s, q) {
            Parsed::Failed(fatal, x, k) => Parsed::Failed(fatal, x, k),
            Parsed::Done(e, ks) => match ws_byte(s, e, 41u8) {
                None => Parsed::Failed(true, ws_end(s, e), Expected::Char(41u8)),
                Some(f) => Parsed::Done(f, ks),
            },
        },
    }
}

#[verifier::opaque]
pub open spec fn effect_items_at(s: Seq<u8>, p: int) -> Parsed<Seq<(Seq<char>, TypeModel, Span)>> {
    match effect_parameter_at(s, p) {
        Parsed::Failed(fatal, x, k) => if fatal {
            Parsed::Failed(true, x, k)
        } else {
            Parsed::Done(p, Seq::empty())
        },
        Parsed::Done(e, k) => one_more(k, effect_items_more_at(s, e)),
    }
}

#[verifier::opaque]
pub open spec fn effect_items_more_at(s: Seq<u8>, p: int) -> Parsed<Seq<(Seq<char>, TypeModel, Span)>>
    decreases s.len() - p,
{
    match ws_byte(s, p, 44u8) {
        None => Parsed::Done(p, Seq::empty()),
        Some(q) => match effect_parameter_at(s, q) {
            Parsed::Failed(fatal, x, k) => if fatal {
                Parsed::Failed(true, x, k)
            } else {
                Parsed::Done(p, Seq::empty())
            },
            Parsed::Done(e, k) => if forward(s, p, e) {
                one_more(k, effect_items_more_at(s, e))
            } else {
                Parsed::Done(e, seq![k])
            },
        },
    }
}

/// `(` `with` parameters separated by `,` `)`: their names and annotations; a missing
/// `)` is final.
#[verifier::opaque]
pub open spec fn implicit_param_list_at(s: Seq<u8>, p: int) -> Parsed<Seq<(Seq<char>, Option<TypeModel>, Span)>> {
    match ws_byte(s, p, 40u8) {
        None => Parsed::Failed(false, ws_end(s, p), Expected::Char(40u8)),
        Some(q) => match ws_lit(s, q, kw::lit_with()) {
            None => Parsed::Failed(false, ws_end(s, q), Expected::Keyword),
            Some(q2) => match param_items_at(s, q2) {
                Parsed::Failed(fatal, x, k) => Parsed::Failed(fatal, x, k),
                Parsed::Done(e, ks) => match ws_byte(s, e, 41u8) {
                    None => Parsed::Failed(true, ws_end(s, e), Expected::Char(41u8)),
                    Some(f) => Parsed::Done(f, ks),
                },
            },
        },
    }
}

/// An expression: the first of a function expression, `if`, `match`, `bind`, `with`, a
/// collection literal, a comprehension and an assignment (or anything of higher
/// precedence).
#[verifier::opaque]
pub open spec fn expression_at(s: Seq<u8>, p: int) -> Parsed<ExprKind>
    decreases s.len() - p, 12int,
{
    let r1 = function_expr_at(s, p);
    if !missed(r1) {
        r1
    } else {
        let r2 = if_expr_at(s, p);
        if !missed(r2) {
            r2
        } else {
            let r3 = match_expr_at(s, p);
            if !missed(r3) {
                r3
            } else {
                let r4 = bind_expr_at(s, p);
                if !missed(r4) {
                    r4
                } else {
                    let r5 = with_expr_at(s, p);
                    if !missed(r5) {
                        r5
                    } else {
                        let r6 = collection_literal_at(s, p);
                        if !missed(r6) {
                            r6
                        } else {
                            let r7 = collection_comprehension_at(s, p);
                            if !missed(r7) {
                                r7
                            } else {
                                assignment_at(s, p)
                            }
                        }
                    }
                }
            }
        }
    }
}

// ---------------------------------------------------------------------------
// The parsing functions.
// ---------------------------------------------------------------------------

/// The first byte at or after `i` that is not white space.
pub fn spaces(input: &[u8], i: usize) -> (e: usize)
    requires
        i <= input@.len(),
    ensures
        e == space_end(input@, i as int),
        i <= e <= input@.len(),
{
    let mut e = i;
    while e < input.len() && (input[e] == 32u8 || input[e] == 9u8 || input[e] == 13u8 || input[e] == 10u8)
        invariant
            i <= e <= input@.len(),
            space_end(input@, e as int) == space_end(input@, i as int),
        decreases input@.len() - e,
    {
        e = e + 1;
    }
    e
}

/// The position after an optional `,`.
fn opt_comma_at(input: &[u8], pos: usize) -> (e: usize)
    requires
        pos <= input@.len(),
    ensures
        e == opt_comma(input@, pos as int),
        pos <= e <= input@.len(),
{
    match ws_byte_at(input, pos, 44u8) {
        Some(q) => q,
        None => pos,
    }
}

/// The span of a node that covers the bytes from `p` to `e`.
fn covering(input: &[u8], p: usize, e: usize) -> (sp: crate::ast::Span)
    requires
        p <= e <= input@.len(),
    ensures
        sp == covering_span(input@, p as int, e as int),
{
    span_at(input, input.len() - (e - p))
}

/// Whether the expression can be assigned to.
fn is_assignable(x: &Expr) -> (b: bool)
    ensures
        b == assignable(expr_kind(*x)),
{
    match x {
        Expr::Identifier(..) => true,
        Expr::MemberAccess { .. } => true,
        _ => false,
    }
}

/// A primary expression.
#[verifier::spinoff_prover]
#[verifier::rlimit(60)]
pub fn primary(input: &[u8], pos: usize) -> (r: Result<(usize, Expr), ParseFailure>)
    requires
        pos <= input@.len(),
    ensures
        expr_outcome(r) == primary_at(input@, pos as int),
        r matches Ok((e, _)) ==> pos < e <= input@.len(),
        r matches Err(f) ==> f.pos <= input@.len(),
    decreases input@.len() - pos, 2int,
{
    proof {
        reveal_with_fuel(block_expr_at, 1);
        reveal_with_fuel(grouped_expr_at, 1);
        reveal_with_fuel(primary_at, 1);
        reveal_with_fuel(tuple_literal_at, 1);
    }
    proof {
        lemma_ws_end(input@, pos as int);
    }
    let q = ws_comments(input, pos);
    let r: Result<(usize, Expr), ParseFailure> = {
        let r1 = tuple_literal(input, q);
        if !is_miss(&r1) {
            r1
        } else {
            let r2 = grouped_expr(input, q);
            if !is_miss(&r2) {
                r2
            } else {
                match unit_literal_expr(input, q) {
                    Ok(v) => Ok(v),
                    Err(_) => match float_literal_expr(input, q) {
                        Ok(v) => Ok(v),
                        Err(_) => match int_literal_expr(input, q) {
                            Ok(v) => Ok(v),
                            Err(_) => match string_literal_expr(input, q) {
                                Ok(v) => Ok(v),
                                Err(_) => match bool_literal_expr(input, q) {
                                    Ok(v) => Ok(v),
                                    Err(_) => match identifier_string(input, q) {
                                        Some((b, name)) => Ok((b, Expr::Identifier(name, span_at(input, pos)))),
                                        None => block_expr(input, q),
                                    },
                                },
                            },
                        },
                    },
                }
            }
        }
    };
    match r {
        Ok((e, x)) => {
            proof {
                lemma_ws_end(input@, e as int);
            }
            Ok((ws_comments(input, e), x))
        },
        Err(f) => Err(f),
    }
}

/// A tuple literal of at least two elements.
#[verifier::spinoff_prover]
#[verifier::rlimit(60)]
fn tuple_literal(input: &[u8], pos: usize) -> (r: Result<(usize, Expr), ParseFailure>)
    requires
        pos <= input@.len(),
    ensures
        expr_outcome(r) == tuple_literal_at(input@, pos as int),
        r matches Ok((e, _)) ==> pos < e <= input@.len(),
        r matches Err(f) ==> f.pos <= input@.len(),
    decreases input@.len() - pos, 1int,
{
    proof {
        reveal_with_fuel(expr_list_more_at, 1);
        reveal_with_fuel(expression_at, 1);
        reveal_with_fuel(tuple_literal_at, 1);
    }
    proof {
        lemma_ws_end(input@, pos as int);
    }
    let q = match ws_byte_at(input, pos, 40u8) {
        None => {
            return Err(miss(ws_comments(input, pos), Expected::Char(40u8)));
        },
        Some(q) => q,
    };
    let (e1, first) = match expression(input, q) {
        Err(f) => {
            return Err(f);
        },
        Ok(v) => v,
    };
    proof {
        lemma_ws_end(input@, e1 as int);
    }
    let q2 = match ws_byte_at(input, e1, 44u8) {
        None => {
            return Err(miss(ws_comments(input, e1), Expected::Char(44u8)));
        },
        Some(q2) => q2,
    };
    let (e2, second) = match expression(input, q2) {
        Err(f) => {
            return Err(f);
        },
        Ok(v) => v,
    };
    let (e3, mut rest) = match expr_list_more(input, e2) {
        Err(f) => {
            return Err(f);
        },
        Ok(v) => v,
    };
    proof {
        lemma_ws_end(input@, e3 as int);
    }
    match ws_byte_at(input, e3, 41u8) {
        None => Err(fail(ws_comments(input, e3), Expected::Char(41u8))),
        Some(f) => {
            let ghost rest0 = rest@;
            let mut elements: Vec<Expr> = Vec::new();
            elements.push(first);
            elements.push(second);
            elements.append(&mut rest);
            proof {
                assert(expr_kinds(elements@) =~= seq![expr_kind(elements@[0]), expr_kind(elements@[1])] + expr_kinds(rest0));
            }
            Ok((f, Expr::TupleLiteral { elements, span: covering(input, pos, f) }))
        },
    }
}

/// `(` expression `)`.
#[verifier::spinoff_prover]
#[verifier::rlimit(60)]
fn grouped_expr(input: &[u8], pos: usize) -> (r: Result<(usize, Expr), ParseFailure>)
    requires
        pos <= input@.len(),
    ensures
        expr_outcome(r) == grouped_expr_at(input@, pos as int),
        r matches Ok((e, _)) ==> pos < e <= input@.len(),
        r matches Err(f) ==> f.pos <= input@.len(),
    decreases input@.len() - pos, 1int,
{
    proof {
        reveal_with_fuel(expression_at, 1);
        reveal_with_fuel(grouped_expr_at, 1);
    }
    proof {
        lemma_ws_end(input@, pos as int);
    }
    let q = match ws_byte_at(input, pos, 40u8) {
        None => {
            return Err(miss(ws_comments(input, pos), Expected::Char(40u8)));
        },
        Some(q) => q,
    };
    let (e, x) = match expression(input, q) {
        Err(f) => {
            return Err(f);
        },
        Ok(v) => v,
    };
    proof {
        lemma_ws_end(input@, e as int);
    }
    match ws_byte_at(input, e, 41u8) {
        None => Err(fail(ws_comments(input, e), Expected::Char(41u8))),
        Some(f) => Ok((f, Expr::ParenExpr(Box::new(x), covering(input, pos, f)))),
    }
}

/// A block `{` items `}`; with no item, the unit literal.
pub fn block_expr(input: &[u8], pos: usize) -> (r: Result<(usize, Expr), ParseFailure>)
    requires
        pos <= input@.len(),
    ensures
        expr_outcome(r) == block_expr_at(input@, pos as int),
        r matches Ok((e, _)) ==> pos < e <= input@.len(),
        r matches Err(f) ==> f.pos <= input@.len(),
    decreases input@.len() - pos, 1int,
{
    proof {
        reveal_with_fuel(block_expr_at, 1);
        reveal_with_fuel(block_items_at, 1);
    }
    proof {
        lemma_ws_end(input@, pos as int);
    }
    let q = match ws_byte_at(input, pos, 123u8) {
        None => {
            return Err(miss(ws_comments(input, pos), Expected::Char(123u8)));
        },
        Some(q) => q,
    };
    let (e, items) = match block_items(input, q) {
        Err(f) => {
            return Err(f);
        },
        Ok(v) => v,
    };
    proof {
        lemma_ws_end(input@, e as int);
    }
    match ws_byte_at(input, e, 125u8) {
        None => Err(fail(ws_comments(input, e), Expected::Char(125u8))),
        Some(f) => {
            if items.len() == 0 {
                Ok((f, Expr::UnitLiteral(span_at(input, f))))
            } else {
                Ok((f, Expr::BlockExpr { items, span: span_at(input, f) }))
            }
        },
    }
}

/// The items of a block.
fn block_items(input: &[u8], pos: usize) -> (r: Result<(usize, Vec<BlockItem>), ParseFailure>)
    requires
        pos <= input@.len(),
    ensures
        items_outcome(r) == block_items_at(input@, pos as int),
        r matches Ok((e, _)) ==> pos <= e <= input@.len(),
        r matches Err(f) ==> f.pos <= input@.len(),
    decreases input@.len() - pos, 14int,
{
    proof {
        reveal_with_fuel(block_item_at, 1);
        reveal_with_fuel(block_items_at, 1);
    }
    let mut items: Vec<BlockItem> = Vec::new();
    let mut cur = pos;
    loop
        invariant
            pos <= cur <= input@.len(),
            block_items_at(input@, pos as int) == with_prefix(item_kinds(items@), block_items_at(input@, cur as int)),
            items@.len() > 0 ==> pos < cur,
        decreases input@.len() - cur,
    {
        proof {
            reveal_with_fuel(block_item_at, 1);
            reveal_with_fuel(block_items_at, 1);
            assert(item_kinds(items@) + Seq::empty() =~= item_kinds(items@));
        }
        match block_item(input, cur) {
            Err(f) => {
                if f.fatal {
                    return Err(f);
                }
                return Ok((cur, items));
            },
            Ok((e, item)) => {
                let ghost items0 = items@;
                items.push(item);
                let next = spaces(input, e);
                proof {
                    lemma_item_kinds_push(items0, items@.last());
                    assert(items@ =~= items0.push(items@.last()));
                    lemma_prefix_more(item_kinds(items0), item_kind(items@.last()), block_items_at(input@, next as int));
                }
                cur = next;
            },
        }
    }
}

/// A block item: a declaration, a statement or an expression.
fn block_item(input: &[u8], pos: usize) -> (r: Result<(usize, BlockItem), ParseFailure>)
    requires
        pos <= input@.len(),
    ensures
        item_outcome(r) == block_item_at(input@, pos as int),
        r matches Ok((e, _)) ==> pos < e <= input@.len(),
        r matches Err(f) ==> f.pos <= input@.len(),
    decreases input@.len() - pos, 13int,
{
    proof {
        reveal_with_fuel(block_item_at, 1);
        reveal_with_fuel(expression_at, 1);
        reveal_with_fuel(parse_declaration_at, 1);
        reveal_with_fuel(statement_at, 1);
    }
    match parse_declaration(input, pos) {
        Ok((e, d)) => {
            return Ok((e, BlockItem::Declaration(d)));
        },
        Err(f) => if f.fatal {
            return Err(f);
        },
    }
    match statement(input, pos) {
        Ok((e, st)) => {
            return Ok((e, BlockItem::Statement(st)));
        },
        Err(f) => if f.fatal {
            return Err(f);
        },
    }
    match expression(input, pos) {
        Ok((e, x)) => Ok((e, BlockItem::Expression(x))),
        Err(f) => Err(f),
    }
}

/// The arguments of a call.
fn call_args(input: &[u8], pos: usize) -> (r: Result<(usize, Vec<Expr>), ParseFailure>)
    requires
        pos <= input@.len(),
    ensures
        kinds_outcome(r) == call_args_at(input@, pos as int),
        r matches Ok((e, _)) ==> pos < e <= input@.len(),
        r matches Err(f) ==> f.pos <= input@.len(),
    decreases input@.len() - pos, 1int,
{
    proof {
        reveal_with_fuel(call_args_at, 1);
        reveal_with_fuel(expr_list_at, 1);
    }
    proof {
        lemma_ws_end(input@, pos as int);
    }
    let q = match ws_byte_at(input, pos, 40u8) {
        None => {
            return Err(miss(ws_comments(input, pos), Expected::Char(40u8)));
        },
        Some(q) => q,
    };
    let (e, args) = match expr_list(input, q) {
        Err(f) => {
            return Err(f);
        },
        Ok(v) => v,
    };
    proof {
        lemma_ws_end(input@, e as int);
    }
    match ws_byte_at(input, e, 41u8) {
        None => Err(fail(ws_comments(input, e), Expected::Char(41u8))),
        Some(f) => Ok((f, args)),
    }
}

/// A primary expression followed by calls and member accesses.
#[verifier::spinoff_prover]
#[verifier::rlimit(60)]
pub fn postfix(input: &[u8], pos: usize) -> (r: Result<(usize, Expr), ParseFailure>)
    requires
        pos <= input@.len(),
    ensures
        expr_outcome(r) == postfix_at(input@, pos as int),
        r matches Ok((e, _)) ==> pos < e <= input@.len(),
        r matches Err(f) ==> f.pos <= input@.len(),
    decreases input@.len() - pos, 3int,
{
    proof {
        reveal_with_fuel(postfix_at, 1);
        reveal_with_fuel(postfix_more_at, 1);
        reveal_with_fuel(primary_at, 1);
    }
    let (e, first) = match primary(input, pos) {
        Err(f) => {
            return Err(f);
        },
        Ok(v) => v,
    };
    let mut expr = first;
    let mut cur = e;
    loop
        invariant
            pos < cur <= input@.len(),
            postfix_at(input@, pos as int) == postfix_more_at(input@, cur as int, expr_kind(expr)),
        decreases input@.len() - cur,
    {
        proof {
            reveal_with_fuel(call_args_at, 1);
            reveal_with_fuel(postfix_more_at, 1);
        }
        match call_args(input, cur) {
            Ok((e2, args)) => {
                expr = Expr::FunctionCall { function: Box::new(expr), arguments: args, span: span_at(input, e2) };
                cur = e2;
            },
            Err(_) => {
                match ws_byte_at(input, cur, 46u8) {
                    None => {
                        return Ok((cur, expr));
                    },
                    Some(q) => match ws_identifier(input, q) {
                        None => {
                            return Ok((cur, expr));
                        },
                        Some((c, name)) => {
                            expr = Expr::MemberAccess { object: Box::new(expr), member: name, span: span_at(input, c) };
                            cur = c;
                        },
                    },
                }
            },
        }
    }
}

/// `-` or `!` applied to a unary expression, else a postfix expression.
pub fn unary(input: &[u8], pos: usize) -> (r: Result<(usize, Expr), ParseFailure>)
    requires
        pos <= input@.len(),
    ensures
        expr_outcome(r) == unary_at(input@, pos as int),
        r matches Ok((e, _)) ==> pos < e <= input@.len(),
        r matches Err(f) ==> f.pos <= input@.len(),
    decreases input@.len() - pos, 4int,
{
    proof {
        reveal_with_fuel(postfix_at, 1);
        reveal_with_fuel(unary_at, 1);
    }
    match ws_byte_at(input, pos, 45u8) {
        Some(q) => match unary(input, q) {
            Ok((e, x)) => {
                return Ok((e, Expr::UnaryOp { operator: UnaryOperator::Neg, expr: Box::new(x), span: span_at(input, pos) }));
            },
            Err(f) => if f.fatal {
                return Err(f);
            },
        },
        None => {},
    }
    match ws_byte_at(input, pos, 33u8) {
        Some(q) => match unary(input, q) {
            Ok((e, x)) => {
                return Ok((e, Expr::UnaryOp { operator: UnaryOperator::Not, expr: Box::new(x), span: span_at(input, pos) }));
            },
            Err(f) => if f.fatal {
                return Err(f);
            },
        },
        None => {},
    }
    postfix(input, pos)
}

/// The kind of a left-associated chain: the first operand's kind when there is no
/// operator, else the last operator applied to the chain before it and the last
/// operand; every operator node gets the span `sp`.
pub open spec fn chain_kind(k: ExprKind, ops: Seq<BinaryOperator>, rs: Seq<ExprKind>, sp: Span) -> ExprKind
    decreases ops.len(),
{
    if ops.len() == 0 || rs.len() == 0 {
        k
    } else {
        ExprKind::BinaryOp(
            ops.last(),
            Box::new(chain_kind(k, ops.drop_last(), rs.drop_last(), sp)),
            Box::new(rs.last()),
            sp,
        )
    }
}

/// A chain with one more operator and operand.
pub proof fn lemma_chain_push(k: ExprKind, ops: Seq<BinaryOperator>, rs: Seq<ExprKind>, op: BinaryOperator, r: ExprKind, sp: Span)
    requires
        ops.len() == rs.len(),
    ensures
        chain_kind(k, ops.push(op), rs.push(r), sp) == ExprKind::BinaryOp(op, Box::new(chain_kind(k, ops, rs, sp)), Box::new(r), sp),
{
    assert(ops.push(op).drop_last() =~= ops);
    assert(rs.push(r).drop_last() =~= rs);
}

/// Setting the span of the operator nodes of a chain.
pub proof fn lemma_respan_chain(k: ExprKind, ops: Seq<BinaryOperator>, rs: Seq<ExprKind>, sp: Span)
    requires
        ops.len() == rs.len(),
    ensures
        respan(chain_kind(k, ops, rs, no_span()), ops.len(), sp) == chain_kind(k, ops, rs, sp),
    decreases ops.len(),
{
    if ops.len() > 0 {
        lemma_respan_chain(k, ops.drop_last(), rs.drop_last(), sp);
    }
}

/// The kinds of a sequence with one more expression.
pub proof fn lemma_kinds_push(es: Seq<Expr>, x: Expr)
    ensures
        expr_kinds(es.push(x)) == expr_kinds(es).push(expr_kind(x)),
{
    assert(expr_kinds(es.push(x)) =~= expr_kinds(es).push(expr_kind(x)));
}

/// The kinds of a sequence of pairs with one more pair.
pub proof fn lemma_pair_kinds_push(ps: Seq<(Expr, Expr)>, x: (Expr, Expr))
    ensures
        pair_kinds(ps.push(x)) == pair_kinds(ps).push((expr_kind(x.0), expr_kind(x.1))),
{
    assert(pair_kinds(ps.push(x)) =~= pair_kinds(ps).push((expr_kind(x.0), expr_kind(x.1))));
}

/// Joins the operands from the left with the operators; every node gets `span`.
fn fold_binary(first: Expr, ops: Vec<BinaryOperator>, rights: Vec<Expr>, span: crate::ast::Span) -> (r: Expr)
    requires
        ops@.len() == rights@.len(),
    ensures
        expr_kind(r) == chain_kind(expr_kind(first), ops@, expr_kinds(rights@), span),
{
    let ghost all = ops@;
    let ghost rall = expr_kinds(rights@);
    let ghost rs0 = rights@;
    let ghost k0 = expr_kind(first);
    let mut ops = ops;
    let mut rights = rights;
    let mut acc = first;
    let ghost mut i: int = 0;
    while rights.len() > 0
        invariant
            ops@.len() == rights@.len(),
            all.len() == rs0.len(),
            rall == expr_kinds(rs0),
            0 <= i <= all.len(),
            ops@ == all.skip(i),
            rights@ == rs0.skip(i),
            expr_kind(acc) == chain_kind(k0, all.take(i), rall.take(i), span),
        decreases rights@.len(),
    {
        let op = ops.remove(0);
        let right = rights.remove(0);
        proof {
            assert(op == all[i]);
            assert(right == rs0[i]);
            assert(all.skip(i + 1) =~= all.skip(i).subrange(1, all.skip(i).len() as int));
            assert(rs0.skip(i + 1) =~= rs0.skip(i).subrange(1, rs0.skip(i).len() as int));
            assert(all.take(i + 1) =~= all.take(i).push(all[i]));
            assert(rall.take(i + 1) =~= rall.take(i).push(rall[i]));
            lemma_chain_push(k0, all.take(i), rall.take(i), all[i], rall[i], span);
            i = i + 1;
        }
        acc = Expr::BinaryOp { left: Box::new(acc), operator: op, right: Box::new(right), span };
    }
    proof {
        assert(all.take(i) =~= all);
        assert(rall.take(i) =~= rall);
    }
    acc
}

/// `*`, `/` or `%`.
fn mul_op_at(input: &[u8], pos: usize) -> (r: Option<(usize, BinaryOperator)>)
    requires
        pos <= input@.len(),
    ensures
        r matches Some((q, op)) ==> mul_op(input@, pos as int) == Some((q as int, op)) && pos < q <= input@.len(),
        r is None ==> mul_op(input@, pos as int) is None,
{
    proof {
        lemma_ws_end(input@, pos as int);
    }
    let q = ws_comments(input, pos);
    if q < input.len() && (input[q] == 42u8 || input[q] == 47u8 || input[q] == 37u8) {
        proof {
            lemma_ws_end(input@, q + 1);
        }
        let op = if input[q] == 42u8 {
            BinaryOperator::Mul
        } else if input[q] == 47u8 {
            BinaryOperator::Div
        } else {
            BinaryOperator::Mod
        };
        Some((ws_comments(input, q + 1), op))
    } else {
        None
    }
}

/// `+` or `-`.
fn add_op_at(input: &[u8], pos: usize) -> (r: Option<(usize, BinaryOperator)>)
    requires
        pos <= input@.len(),
    ensures
        r matches Some((q, op)) ==> add_op(input@, pos as int) == Some((q as int, op)) && pos < q <= input@.len(),
        r is None ==> add_op(input@, pos as int) is None,
{
    proof {
        lemma_ws_end(input@, pos as int);
    }
    let q = ws_comments(input, pos);
    if q < input.len() && (input[q] == 43u8 || input[q] == 45u8) {
        proof {
            lemma_ws_end(input@, q + 1);
        }
        let op = if input[q] == 43u8 { BinaryOperator::Add } else { BinaryOperator::Sub };
        Some((ws_comments(input, q + 1), op))
    } else {
        None
    }
}

/// `<=`, `>=`, `<` or `>`.
fn rel_op_at(input: &[u8], pos: usize) -> (r: Option<(usize, BinaryOperator)>)
    requires
        pos <= input@.len(),
    ensures
        r matches Some((q, op)) ==> rel_op(input@, pos as int) == Some((q as int, op)) && pos < q <= input@.len(),
        r is None ==> rel_op(input@, pos as int) is None,
{
    proof {
        lemma_ws_end(input@, pos as int);
    }
    let q = ws_comments(input, pos);
    if tag_at(input, q, &kw::kw_le()) {
        assert(q + 2 <= input.len());
        proof {
            lemma_ws_end(input@, q + 2);
        }
        Some((ws_comments(input, q + 2), BinaryOperator::Lte))
    } else if tag_at(input, q, &kw::kw_ge()) {
        assert(q + 2 <= input.len());
        proof {
            lemma_ws_end(input@, q + 2);
        }
        Some((ws_comments(input, q + 2), BinaryOperator::Gte))
    } else if tag_at(input, q, &kw::kw_lt()) {
        assert(q + 1 <= input.len());
        proof {
            lemma_ws_end(input@, q + 1);
        }
        Some((ws_comments(input, q + 1), BinaryOperator::Lt))
    } else if tag_at(input, q, &kw::kw_gt()) {
        assert(q + 1 <= input.len());
        proof {
            lemma_ws_end(input@, q + 1);
        }
        Some((ws_comments(input, q + 1), BinaryOperator::Gt))
    } else {
        None
    }
}

/// `==` or `!=`.
fn eq_op_at(input: &[u8], pos: usize) -> (r: Option<(usize, BinaryOperator)>)
    requires
        pos <= input@.len(),
    ensures
        r matches Some((q, op)) ==> eq_op(input@, pos as int) == Some((q as int, op)) && pos < q <= input@.len(),
        r is None ==> eq_op(input@, pos as int) is None,
{
    proof {
        lemma_ws_end(input@, pos as int);
    }
    let q = ws_comments(input, pos);
    if tag_at(input, q, &kw::kw_eqeq()) {
        assert(q + 2 <= input.len());
        proof {
            lemma_ws_end(input@, q + 2);
        }
        Some((ws_comments(input, q + 2), BinaryOperator::Eq))
    } else if tag_at(input, q, &kw::kw_ne()) {
        assert(q + 2 <= input.len());
        proof {
            lemma_ws_end(input@, q + 2);
        }
        Some((ws_comments(input, q + 2), BinaryOperator::Neq))
    } else {
        None
    }
}

/// `&&`.
fn and_op_at(input: &[u8], pos: usize) -> (r: Option<(usize, BinaryOperator)>)
    requires
        pos <= input@.len(),
    ensures
        r matches Some((q, op)) ==> and_op(input@, pos as int) == Some((q as int, op)) && pos < q <= input@.len(),
        r is None ==> and_op(input@, pos as int) is None,
{
    match keyword(input, pos, &kw::kw_and()) {
        Some(e) => Some((e, BinaryOperator::And)),
        None => None,
    }
}

/// `||`.
fn or_op_at(input: &[u8], pos: usize) -> (r: Option<(usize, BinaryOperator)>)
    requires
        pos <= input@.len(),
    ensures
        r matches Some((q, op)) ==> or_op(input@, pos as int) == Some((q as int, op)) && pos < q <= input@.len(),
        r is None ==> or_op(input@, pos as int) is None,
{
    match keyword(input, pos, &kw::kw_or()) {
        Some(e) => Some((e, BinaryOperator::Or)),
        None => None,
    }
}

/// Unary expressions joined by `*`, `/`, `%`.
#[verifier::spinoff_prover]
#[verifier::rlimit(60)]
pub fn factor(input: &[u8], pos: usize) -> (r: Result<(usize, Expr), ParseFailure>)
    requires
        pos <= input@.len(),
    ensures
        expr_outcome(r) == factor_at(input@, pos as int),
        r matches Ok((e, _)) ==> pos < e <= input@.len(),
        r matches Err(f) ==> f.pos <= input@.len(),
    decreases input@.len() - pos, 5int,
{
    proof {
        reveal_with_fuel(factor_at, 1);
        reveal_with_fuel(factor_more_at, 1);
    }
    let (e, first) = match unary(input, pos) {
        Err(f) => {
            return Err(f);
        },
        Ok(v) => v,
    };
    let ghost k0 = expr_kind(first);
    let mut ops: Vec<BinaryOperator> = Vec::new();
    let mut rights: Vec<Expr> = Vec::new();
    let mut cur = e;
    loop
        invariant
            pos < cur <= input@.len(),
            ops@.len() == rights@.len(),
            factor_at(input@, pos as int) == factor_more_at(input@, cur as int, chain_kind(k0, ops@, expr_kinds(rights@), no_span()), ops@.len()),
        ensures
            pos < cur <= input@.len(),
            ops@.len() == rights@.len(),
            factor_at(input@, pos as int) == Parsed::Done(cur as int, respan(chain_kind(k0, ops@, expr_kinds(rights@), no_span()), ops@.len(), span_of(input@, cur as int))),
        decreases input@.len() - cur,
    {
        proof {
            reveal_with_fuel(factor_more_at, 1);
        }
        match mul_op_at(input, cur) {
            None => {
                break;
            },
            Some((q, op)) => match unary(input, q) {
                Err(f) => {
                    if f.fatal {
                        return Err(f);
                    }
                    break;
                },
                Ok((e2, right)) => {
                    let ghost ops0 = ops@;
                    let ghost rights0 = rights@;
                    ops.push(op);
                    rights.push(right);
                    proof {
                        lemma_kinds_push(rights0, rights@.last());
                        assert(rights@ =~= rights0.push(rights@.last()));
                        lemma_chain_push(k0, ops0, expr_kinds(rights0), op, expr_kind(rights@.last()), no_span());
                    }
                    cur = e2;
                },
            },
        }
    }
    let span = span_at(input, cur);
    proof {
        lemma_respan_chain(k0, ops@, expr_kinds(rights@), span);
    }
    Ok((cur, fold_binary(first, ops, rights, span)))
}

/// Factors joined by `+` and `-`.
#[verifier::spinoff_prover]
#[verifier::rlimit(60)]
pub fn term(input: &[u8], pos: usize) -> (r: Result<(usize, Expr), ParseFailure>)
    requires
        pos <= input@.len(),
    ensures
        expr_outcome(r) == term_at(input@, pos as int),
        r matches Ok((e, _)) ==> pos < e <= input@.len(),
        r matches Err(f) ==> f.pos <= input@.len(),
    decreases input@.len() - pos, 6int,
{
    proof {
        reveal_with_fuel(factor_at, 1);
        reveal_with_fuel(term_at, 1);
        reveal_with_fuel(term_more_at, 1);
    }
    let (e, first) = match factor(input, pos) {
        Err(f) => {
            return Err(f);
        },
        Ok(v) => v,
    };
    let ghost k0 = expr_kind(first);
    let mut ops: Vec<BinaryOperator> = Vec::new();
    let mut rights: Vec<Expr> = Vec::new();
    let mut cur = e;
    loop
        invariant
            pos < cur <= input@.len(),
            ops@.len() == rights@.len(),
            term_at(input@, pos as int) == term_more_at(input@, cur as int, chain_kind(k0, ops@, expr_kinds(rights@), no_span()), ops@.len()),
        ensures
            pos < cur <= input@.len(),
            ops@.len() == rights@.len(),
            term_at(input@, pos as int) == Parsed::Done(cur as int, respan(chain_kind(k0, ops@, expr_kinds(rights@), no_span()), ops@.len(), span_of(input@, cur as int))),
        decreases input@.len() - cur,
    {
        proof {
            reveal_with_fuel(factor_at, 1);
            reveal_with_fuel(term_more_at, 1);
        }
        match add_op_at(input, cur) {
            None => {
                break;
            },
            Some((q, op)) => match factor(input, q) {
                Err(f) => {
                    if f.fatal {
                        return Err(f);
                    }
                    break;
                },
                Ok((e2, right)) => {
                    let ghost ops0 = ops@;
                    let ghost rights0 = rights@;
                    ops.push(op);
                    rights.push(right);
                    proof {
                        lemma_kinds_push(rights0, rights@.last());
                        assert(rights@ =~= rights0.push(rights@.last()));
                        lemma_chain_push(k0, ops0, expr_kinds(rights0), op, expr_kind(rights@.last()), no_span());
                    }
                    cur = e2;
                },
            },
        }
    }
    let span = span_at(input, cur);
    proof {
        lemma_respan_chain(k0, ops@, expr_kinds(rights@), span);
    }
    Ok((cur, fold_binary(first, ops, rights, span)))
}

/// Terms joined by `<=`, `>=`, `<`, `>`.
#[verifier::spinoff_prover]
#[verifier::rlimit(60)]
pub fn comparison(input: &[u8], pos: usize) -> (r: Result<(usize, Expr), ParseFailure>)
    requires
        pos <= input@.len(),
    ensures
        expr_outcome(r) == comparison_at(input@, pos as int),
        r matches Ok((e, _)) ==> pos < e <= input@.len(),
        r matches Err(f) ==> f.pos <= input@.len(),
    decreases input@.len() - pos, 7int,
{
    proof {
        reveal_with_fuel(comparison_at, 1);
        reveal_with_fuel(comparison_more_at, 1);
        reveal_with_fuel(term_at, 1);
    }
    let (e, first) = match term(input, pos) {
        Err(f) => {
            return Err(f);
        },
        Ok(v) => v,
    };
    let ghost k0 = expr_kind(first);
    let mut ops: Vec<BinaryOperator> = Vec::new();
    let mut rights: Vec<Expr> = Vec::new();
    let mut cur = e;
    loop
        invariant
            pos < cur <= input@.len(),
            ops@.len() == rights@.len(),
            comparison_at(input@, pos as int) == comparison_more_at(input@, cur as int, chain_kind(k0, ops@, expr_kinds(rights@), no_span()), ops@.len()),
        ensures
            pos < cur <= input@.len(),
            ops@.len() == rights@.len(),
            comparison_at(input@, pos as int) == Parsed::Done(cur as int, respan(chain_kind(k0, ops@, expr_kinds(rights@), no_span()), ops@.len(), span_of(input@, cur as int))),
        decreases input@.len() - cur,
    {
        proof {
            reveal_with_fuel(comparison_more_at, 1);
            reveal_with_fuel(term_at, 1);
        }
        match rel_op_at(input, cur) {
            None => {
                break;
            },
            Some((q, op)) => match term(input, q) {
                Err(f) => {
                    if f.fatal {
                        return Err(f);
                    }
                    break;
                },
                Ok((e2, right)) => {
                    let ghost ops0 = ops@;
                    let ghost rights0 = rights@;
                    ops.push(op);
                    rights.push(right);
                    proof {
                        lemma_kinds_push(rights0, rights@.last());
                        assert(rights@ =~= rights0.push(rights@.last()));
                        lemma_chain_push(k0, ops0, expr_kinds(rights0), op, expr_kind(rights@.last()), no_span());
                    }
                    cur = e2;
                },
            },
        }
    }
    let span = span_at(input, cur);
    proof {
        lemma_respan_chain(k0, ops@, expr_kinds(rights@), span);
    }
    Ok((cur, fold_binary(first, ops, rights, span)))
}

/// Comparisons joined by `==` and `!=`.
#[verifier::spinoff_prover]
#[verifier::rlimit(60)]
pub fn equality(input: &[u8], pos: usize) -> (r: Result<(usize, Expr), ParseFailure>)
    requires
        pos <= input@.len(),
    ensures
        expr_outcome(r) == equality_at(input@, pos as int),
        r matches Ok((e, _)) ==> pos < e <= input@.len(),
        r matches Err(f) ==> f.pos <= input@.len(),
    decreases input@.len() - pos, 8int,
{
    proof {
        reveal_with_fuel(comparison_at, 1);
        reveal_with_fuel(equality_at, 1);
        reveal_with_fuel(equality_more_at, 1);
    }
    let (e, first) = match comparison(input, pos) {
        Err(f) => {
            return Err(f);
        },
        Ok(v) => v,
    };
    let ghost k0 = expr_kind(first);
    let mut ops: Vec<BinaryOperator> = Vec::new();
    let mut rights: Vec<Expr> = Vec::new();
    let mut cur = e;
    loop
        invariant
            pos < cur <= input@.len(),
            ops@.len() == rights@.len(),
            equality_at(input@, pos as int) == equality_more_at(input@, cur as int, chain_kind(k0, ops@, expr_kinds(rights@), no_span()), ops@.len()),
        ensures
            pos < cur <= input@.len(),
            ops@.len() == rights@.len(),
            equality_at(input@, pos as int) == Parsed::Done(cur as int, respan(chain_kind(k0, ops@, expr_kinds(rights@), no_span()), ops@.len(), span_of(input@, cur as int))),
        decreases input@.len() - cur,
    {
        proof {
            reveal_with_fuel(comparison_at, 1);
            reveal_with_fuel(equality_more_at, 1);
        }
        match eq_op_at(input, cur) {
            None => {
                break;
            },
            Some((q, op)) => match comparison(input, q) {
                Err(f) => {
                    if f.fatal {
                        return Err(f);
                    }
                    break;
                },
                Ok((e2, right)) => {
                    let ghost ops0 = ops@;
                    let ghost rights0 = rights@;
                    ops.push(op);
                    rights.push(right);
                    proof {
                        lemma_kinds_push(rights0, rights@.last());
                        assert(rights@ =~= rights0.push(rights@.last()));
                        lemma_chain_push(k0, ops0, expr_kinds(rights0), op, expr_kind(rights@.last()), no_span());
                    }
                    cur = e2;
                },
            },
        }
    }
    let span = span_at(input, cur);
    proof {
        lemma_respan_chain(k0, ops@, expr_kinds(rights@), span);
    }
    Ok((cur, fold_binary(first, ops, rights, span)))
}

/// Equalities joined by `&&`.
#[verifier::spinoff_prover]
#[verifier::rlimit(60)]
pub fn logical_and(input: &[u8], pos: usize) -> (r: Result<(usize, Expr), ParseFailure>)
    requires
        pos <= input@.len(),
    ensures
        expr_outcome(r) == logical_and_at(input@, pos as int),
        r matches Ok((e, _)) ==> pos < e <= input@.len(),
        r matches Err(f) ==> f.pos <= input@.len(),
    decreases input@.len() - pos, 9int,
{
    proof {
        reveal_with_fuel(equality_at, 1);
        reveal_with_fuel(logical_and_at, 1);
        reveal_with_fuel(logical_and_more_at, 1);
    }
    let (e, first) = match equality(input, pos) {
        Err(f) => {
            return Err(f);
        },
        Ok(v) => v,
    };
    let ghost k0 = expr_kind(first);
    let mut ops: Vec<BinaryOperator> = Vec::new();
    let mut rights: Vec<Expr> = Vec::new();
    let mut cur = e;
    loop
        invariant
            pos < cur <= input@.len(),
            ops@.len() == rights@.len(),
            logical_and_at(input@, pos as int) == logical_and_more_at(input@, cur as int, chain_kind(k0, ops@, expr_kinds(rights@), no_span()), ops@.len()),
        ensures
            pos < cur <= input@.len(),
            ops@.len() == rights@.len(),
            logical_and_at(input@, pos as int) == Parsed::Done(cur as int, respan(chain_kind(k0, ops@, expr_kinds(rights@), no_span()), ops@.len(), span_of(input@, cur as int))),
        decreases input@.len() - cur,
    {
        proof {
            reveal_with_fuel(equality_at, 1);
            reveal_with_fuel(logical_and_more_at, 1);
        }
        match and_op_at(input, cur) {
            None => {
                break;
            },
            Some((q, op)) => match equality(input, q) {
                Err(f) => {
                    if f.fatal {
                        return Err(f);
                    }
                    break;
                },
                Ok((e2, right)) => {
                    let ghost ops0 = ops@;
                    let ghost rights0 = rights@;
                    ops.push(op);
                    rights.push(right);
                    proof {
                        lemma_kinds_push(rights0, rights@.last());
                        assert(rights@ =~= rights0.push(rights@.last()));
                        lemma_chain_push(k0, ops0, expr_kinds(rights0), op, expr_kind(rights@.last()), no_span());
                    }
                    cur = e2;
                },
            },
        }
    }
    let span = span_at(input, cur);
    proof {
        lemma_respan_chain(k0, ops@, expr_kinds(rights@), span);
    }
    Ok((cur, fold_binary(first, ops, rights, span)))
}

/// Conjunctions joined by `||`.
#[verifier::spinoff_prover]
#[verifier::rlimit(60)]
pub fn logical_or(input: &[u8], pos: usize) -> (r: Result<(usize, Expr), ParseFailure>)
    requires
        pos <= input@.len(),
    ensures
        expr_outcome(r) == logical_or_at(input@, pos as int),
        r matches Ok((e, _)) ==> pos < e <= input@.len(),
        r matches Err(f) ==> f.pos <= input@.len(),
    decreases input@.len() - pos, 10int,
{
    proof {
        reveal_with_fuel(logical_and_at, 1);
        reveal_with_fuel(logical_or_at, 1);
        reveal_with_fuel(logical_or_more_at, 1);
    }
    let (e, first) = match logical_and(input, pos) {
        Err(f) => {
            return Err(f);
        },
        Ok(v) => v,
    };
    let ghost k0 = expr_kind(first);
    let mut ops: Vec<BinaryOperator> = Vec::new();
    let mut rights: Vec<Expr> = Vec::new();
    let mut cur = e;
    loop
        invariant
            pos < cur <= input@.len(),
            ops@.len() == rights@.len(),
            logical_or_at(input@, pos as int) == logical_or_more_at(input@, cur as int, chain_kind(k0, ops@, expr_kinds(rights@), no_span()), ops@.len()),
        ensures
            pos < cur <= input@.len(),
            ops@.len() == rights@.len(),
            logical_or_at(input@, pos as int) == Parsed::Done(cur as int, respan(chain_kind(k0, ops@, expr_kinds(rights@), no_span()), ops@.len(), span_of(input@, cur as int))),
        decreases input@.len() - cur,
    {
        proof {
            reveal_with_fuel(logical_and_at, 1);
            reveal_with_fuel(logical_or_more_at, 1);
        }
        match or_op_at(input, cur) {
            None => {
                break;
            },
            Some((q, op)) => match logical_and(input, q) {
                Err(f) => {
                    if f.fatal {
                        return Err(f);
                    }
                    break;
                },
                Ok((e2, right)) => {
                    let ghost ops0 = ops@;
                    let ghost rights0 = rights@;
                    ops.push(op);
                    rights.push(right);
                    proof {
                        lemma_kinds_push(rights0, rights@.last());
                        assert(rights@ =~= rights0.push(rights@.last()));
                        lemma_chain_push(k0, ops0, expr_kinds(rights0), op, expr_kind(rights@.last()), no_span());
                    }
                    cur = e2;
                },
            },
        }
    }
    let span = span_at(input, cur);
    proof {
        lemma_respan_chain(k0, ops@, expr_kinds(rights@), span);
    }
    Ok((cur, fold_binary(first, ops, rights, span)))
}

/// A guard of a match case: a disjunction (no assignment).
pub fn parse_guard_expression(input: &[u8], pos: usize) -> (r: Result<(usize, Expr), ParseFailure>)
    requires
        pos <= input@.len(),
    ensures
        expr_outcome(r) == logical_or_at(input@, pos as int),
        r matches Ok((e, _)) ==> pos < e <= input@.len(),
        r matches Err(f) ==> f.pos <= input@.len(),
    decreases input@.len() - pos, 11int,
{
    proof {
        reveal_with_fuel(logical_and_at, 1);
        reveal_with_fuel(logical_or_at, 1);
        reveal_with_fuel(logical_or_more_at, 1);
    }
    logical_or(input, pos)
}

/// A disjunction, then `=` and an assignment if `=` follows.
#[verifier::spinoff_prover]
#[verifier::rlimit(60)]
fn assignment_expr(input: &[u8], pos: usize) -> (r: Result<(usize, Expr), ParseFailure>)
    requires
        pos <= input@.len(),
    ensures
        expr_outcome(r) == assignment_at(input@, pos as int),
        r matches Ok((e, _)) ==> pos < e <= input@.len(),
        r matches Err(f) ==> f.pos <= input@.len(),
    decreases input@.len() - pos, 11int,
{
    proof {
        reveal_with_fuel(assignment_at, 1);
        reveal_with_fuel(logical_or_at, 1);
    }
    let (e, left) = match logical_or(input, pos) {
        Err(f) => {
            return Err(f);
        },
        Ok(v) => v,
    };
    match keyword(input, e, &kw::kw_eq()) {
        None => Ok((e, left)),
        Some(q) => match assignment_expr(input, q) {
            Err(f) => Err(f),
            Ok((e2, right)) => {
                let ghost kl = expr_kind(left);
                let ghost kr = expr_kind(right);
                if is_assignable(&left) {
                    let x = Expr::Assignment { lvalue: Box::new(left), rvalue: Box::new(right), span: span_at(input, e2) };
                    assert(expr_kind(x) == ExprKind::Assignment(Box::new(kl), Box::new(kr), span_of(input@, e2 as int)));
                    Ok((e2, x))
                } else {
                    Err(miss(pos, Expected::AssignableTarget))
                }
            },
        },
    }
}

/// `if` expression block (`elif` expression block)* (`else` block)?
pub fn if_expr(input: &[u8], pos: usize) -> (r: Result<(usize, Expr), ParseFailure>)
    requires
        pos <= input@.len(),
    ensures
        expr_outcome(r) == if_expr_at(input@, pos as int),
        r matches Ok((e, _)) ==> pos < e <= input@.len(),
        r matches Err(f) ==> f.pos <= input@.len(),
    decreases input@.len() - pos, 1int,
{
    proof {
        reveal_with_fuel(block_expr_at, 1);
        reveal_with_fuel(elif_branches_at, 1);
        reveal_with_fuel(expression_at, 1);
        reveal_with_fuel(if_expr_at, 1);
    }
    proof {
        lemma_ws_end(input@, pos as int);
    }
    let q = match keyword(input, pos, &kw::kw_if()) {
        None => {
            return Err(miss(ws_comments(input, pos), Expected::Keyword));
        },
        Some(q) => q,
    };
    let (e1, condition) = match expression(input, q) {
        Err(f) => {
            return Err(f);
        },
        Ok(v) => v,
    };
    let (e2, then_branch) = match block_expr(input, e1) {
        Err(f) => {
            return Err(f);
        },
        Ok(v) => v,
    };
    let (e3, elif_branches) = match elif_branches(input, e2) {
        Err(f) => {
            return Err(f);
        },
        Ok(v) => v,
    };
    let (end, else_branch): (usize, Option<Box<Expr>>) = match keyword(input, e3, &kw::kw_else()) {
        None => (e3, None),
        Some(q4) => match block_expr(input, q4) {
            Ok((e4, b)) => (e4, Some(Box::new(b))),
            Err(f) => {
                if f.fatal {
                    return Err(f);
                }
                (e3, None)
            },
        },
    };
    Ok((end, Expr::IfExpr {
        condition: Box::new(condition),
        then_branch: Box::new(then_branch),
        elif_branches,
        else_branch,
        span: covering(input, pos, end),
    }))
}

/// The `elif` branches.
fn elif_branches(input: &[u8], pos: usize) -> (r: Result<(usize, Vec<(Expr, Expr)>), ParseFailure>)
    requires
        pos <= input@.len(),
    ensures
        pairs_outcome(r) == elif_branches_at(input@, pos as int),
        r matches Ok((e, _)) ==> pos <= e <= input@.len(),
        r matches Err(f) ==> f.pos <= input@.len(),
    decreases input@.len() - pos, 1int,
{
    proof {
        reveal_with_fuel(block_expr_at, 1);
        reveal_with_fuel(elif_branches_at, 1);
        reveal_with_fuel(expression_at, 1);
    }
    let mut items: Vec<(Expr, Expr)> = Vec::new();
    let mut cur = pos;
    loop
        invariant
            pos <= cur <= input@.len(),
            elif_branches_at(input@, pos as int) == with_prefix(pair_kinds(items@), elif_branches_at(input@, cur as int)),
        decreases input@.len() - cur,
    {
        proof {
            reveal_with_fuel(block_expr_at, 1);
            reveal_with_fuel(elif_branches_at, 1);
            reveal_with_fuel(expression_at, 1);
            assert(pair_kinds(items@) + Seq::empty() =~= pair_kinds(items@));
        }
        let q = match keyword(input, cur, &kw::kw_elif()) {
            None => {
                return Ok((cur, items));
            },
            Some(q) => q,
        };
        let (e1, cond) = match expression(input, q) {
            Err(f) => {
                if f.fatal {
                    return Err(f);
                }
                return Ok((cur, items));
            },
            Ok(v) => v,
        };
        let (e2, body) = match block_expr(input, e1) {
            Err(f) => {
                if f.fatal {
                    return Err(f);
                }
                return Ok((cur, items));
            },
            Ok(v) => v,
        };
        let ghost items0 = items@;
        items.push((cond, body));
        proof {
            lemma_pair_kinds_push(items0, items@.last());
            assert(items@ =~= items0.push(items@.last()));
            lemma_prefix_more(pair_kinds(items0), (expr_kind(items@.last().0), expr_kind(items@.last().1)), elif_branches_at(input@, e2 as int));
        }
        cur = e2;
    }
}

/// `match` expression `{` cases `,`? `}`.
pub fn match_expr(input: &[u8], pos: usize) -> (r: Result<(usize, Expr), ParseFailure>)
    requires
        pos <= input@.len(),
    ensures
        expr_outcome(r) == match_expr_at(input@, pos as int),
        r matches Ok((e, _)) ==> pos < e <= input@.len(),
        r matches Err(f) ==> f.pos <= input@.len(),
    decreases input@.len() - pos, 1int,
{
    proof {
        reveal_with_fuel(expression_at, 1);
        reveal_with_fuel(match_cases_at, 1);
        reveal_with_fuel(match_expr_at, 1);
    }
    proof {
        lemma_ws_end(input@, pos as int);
    }
    let q = match keyword(input, pos, &kw::kw_match()) {
        None => {
            return Err(miss(ws_comments(input, pos), Expected::Keyword));
        },
        Some(q) => q,
    };
    let (e1, scrutinee) = match expression(input, q) {
        Err(f) => {
            return Err(f);
        },
        Ok(v) => v,
    };
    proof {
        lemma_ws_end(input@, e1 as int);
    }
    let q2 = match ws_byte_at(input, e1, 123u8) {
        None => {
            return Err(miss(ws_comments(input, e1), Expected::Char(123u8)));
        },
        Some(q2) => q2,
    };
    let (e3, cases) = match match_cases(input, q2) {
        Err(f) => {
            return Err(f);
        },
        Ok(v) => v,
    };
    let e4 = opt_comma_at(input, e3);
    proof {
        lemma_ws_end(input@, e4 as int);
    }
    match ws_byte_at(input, e4, 125u8) {
        None => Err(fail(ws_comments(input, e4), Expected::Char(125u8))),
        Some(f) => Ok((f, Expr::MatchExpr { scrutinee: Box::new(scrutinee), cases, span: span_at(input, f) })),
    }
}

/// Match cases separated by `,`.
fn match_cases(input: &[u8], pos: usize) -> (r: Result<(usize, Vec<(Pattern, Option<Expr>, Expr)>), ParseFailure>)
    requires
        pos <= input@.len(),
    ensures
        cases_outcome(r) == match_cases_at(input@, pos as int),
        r matches Ok((e, _)) ==> pos <= e <= input@.len(),
        r matches Err(f) ==> f.pos <= input@.len(),
    decreases input@.len() - pos, 2int,
{
    proof {
        reveal_with_fuel(match_case_at, 1);
        reveal_with_fuel(match_cases_at, 1);
        reveal_with_fuel(match_cases_more_at, 1);
    }
    proof {
        assert(case_kinds(Seq::<(Pattern, Option<Expr>, Expr)>::empty()) =~= Seq::<(PatternKind, Option<ExprKind>, ExprKind)>::empty());
    }
    let (e, first) = match match_case(input, pos) {
        Err(f) => {
            if f.fatal {
                return Err(f);
            }
            return Ok((pos, Vec::new()));
        },
        Ok(v) => v,
    };
    let mut items: Vec<(Pattern, Option<Expr>, Expr)> = Vec::new();
    items.push(first);
    proof {
        assert(case_kinds(items@) =~= seq![case_kind(items@[0])]);
        lemma_prefix_more(Seq::<(PatternKind, Option<ExprKind>, ExprKind)>::empty(), case_kind(items@[0]), match_cases_more_at(input@, e as int));
    }
    let mut cur = e;
    loop
        invariant
            pos < cur <= input@.len(),
            items@.len() >= 1,
            match_cases_at(input@, pos as int) == with_prefix(case_kinds(items@), match_cases_more_at(input@, cur as int)),
        decreases input@.len() - cur,
    {
        proof {
            reveal_with_fuel(match_case_at, 1);
            reveal_with_fuel(match_cases_more_at, 1);
            assert(case_kinds(items@) + Seq::empty() =~= case_kinds(items@));
        }
        let q = match ws_byte_at(input, cur, 44u8) {
            None => {
                return Ok((cur, items));
            },
            Some(q) => q,
        };
        match match_case(input, q) {
            Err(f) => {
                if f.fatal {
                    return Err(f);
                }
                return Ok((cur, items));
            },
            Ok((e2, c)) => {
                let ghost items0 = items@;
                items.push(c);
                proof {
                    lemma_case_kinds_push(items0, items@.last());
                    assert(items@ =~= items0.push(items@.last()));
                    lemma_prefix_more(case_kinds(items0), case_kind(items@.last()), match_cases_more_at(input@, e2 as int));
                }
                cur = e2;
            },
        }
    }
}

/// A match case: pattern (`if` guard)? `=>` expression, and the white space after it.
#[verifier::spinoff_prover]
#[verifier::rlimit(60)]
pub fn match_case(input: &[u8], pos: usize) -> (r: Result<(usize, (Pattern, Option<Expr>, Expr)), ParseFailure>)
    requires
        pos <= input@.len(),
    ensures
        case_outcome(r) == match_case_at(input@, pos as int),
        r matches Ok((e, _)) ==> pos < e <= input@.len(),
        r matches Err(f) ==> f.pos <= input@.len(),
    decreases input@.len() - pos, 1int,
{
    proof {
        reveal_with_fuel(expression_at, 1);
        reveal_with_fuel(logical_or_at, 1);
        reveal_with_fuel(match_case_at, 1);
    }
    let (e1, pat) = match pattern(input, pos) {
        Err(f) => {
            return Err(f);
        },
        Ok(v) => v,
    };
    let (e2, guard): (usize, Option<Expr>) = match keyword(input, e1, &kw::kw_if()) {
        None => (e1, None),
        Some(q) => match parse_guard_expression(input, q) {
            Ok((e, g)) => (e, Some(g)),
            Err(f) => {
                if f.fatal {
                    return Err(f);
                }
                (e1, None)
            },
        },
    };
    proof {
        lemma_ws_end(input@, e2 as int);
    }
    let q3 = match keyword(input, e2, &kw::kw_fat_arrow()) {
        None => {
            return Err(miss(ws_comments(input, e2), Expected::Keyword));
        },
        Some(q3) => q3,
    };
    let (e4, body) = match expression(input, q3) {
        Err(f) => {
            return Err(f);
        },
        Ok(v) => v,
    };
    proof {
        lemma_ws_end(input@, e4 as int);
    }
    Ok((ws_comments(input, e4), (pat, guard, body)))
}

/// `for` pattern `<-` expression (`if` expression)?: the pattern, the input and the
/// condition of a comprehension.
fn comprehension_tail(input: &[u8], pos: usize) -> (r: Result<(usize, (Pattern, Expr, Option<Expr>)), ParseFailure>)
    requires
        pos <= input@.len(),
    ensures
        tail_outcome(r) == comprehension_tail_at(input@, pos as int),
        r matches Ok((e, _)) ==> pos < e <= input@.len(),
        r matches Err(f) ==> f.pos <= input@.len(),
    decreases input@.len() - pos, 1int,
{
    proof {
        reveal_with_fuel(comprehension_tail_at, 1);
        reveal_with_fuel(expression_at, 1);
    }
    proof {
        lemma_ws_end(input@, pos as int);
    }
    let q = match keyword(input, pos, &kw::kw_for()) {
        None => {
            return Err(miss(ws_comments(input, pos), Expected::Keyword));
        },
        Some(q) => q,
    };
    let (e1, pat) = match pattern(input, q) {
        Err(f) => {
            return Err(f);
        },
        Ok(v) => v,
    };
    proof {
        lemma_ws_end(input@, e1 as int);
    }
    let q2 = match keyword(input, e1, &kw::kw_larrow()) {
        None => {
            return Err(miss(ws_comments(input, e1), Expected::Keyword));
        },
        Some(q2) => q2,
    };
    let (e2, source) = match expression(input, q2) {
        Err(f) => {
            return Err(f);
        },
        Ok(v) => v,
    };
    match keyword(input, e2, &kw::kw_if()) {
        None => Ok((e2, (pat, source, None))),
        Some(q3) => match expression(input, q3) {
            Ok((e3, c)) => Ok((e3, (pat, source, Some(c)))),
            Err(f) => {
                if f.fatal {
                    return Err(f);
                }
                Ok((e2, (pat, source, None)))
            },
        },
    }
}

/// The condition of a comprehension, boxed.
fn boxed(c: Option<Expr>) -> (r: Option<Box<Expr>>)
    ensures
        r == (match c {
            Some(x) => Some(Box::new(x)),
            None => None,
        }),
{
    match c {
        Some(x) => Some(Box::new(x)),
        None => None,
    }
}

/// `[` expression `for` pattern `<-` expression (`if` expression)? `]`.
pub fn list_comprehension(input: &[u8], pos: usize) -> (r: Result<(usize, Expr), ParseFailure>)
    requires
        pos <= input@.len(),
    ensures
        expr_outcome(r) == list_comprehension_at(input@, pos as int),
        r matches Ok((e, _)) ==> pos < e <= input@.len(),
        r matches Err(f) ==> f.pos <= input@.len(),
    decreases input@.len() - pos, 1int,
{
    proof {
        reveal_with_fuel(comprehension_tail_at, 1);
        reveal_with_fuel(expression_at, 1);
        reveal_with_fuel(list_comprehension_at, 1);
    }
    proof {
        lemma_ws_end(input@, pos as int);
    }
    let q = match ws_byte_at(input, pos, 91u8) {
        None => {
            return Err(miss(ws_comments(input, pos), Expected::Char(91u8)));
        },
        Some(q) => q,
    };
    let (e1, output) = match expression(input, q) {
        Err(f) => {
            return Err(f);
        },
        Ok(v) => v,
    };
    let (e2, (pat, source, cond)) = match comprehension_tail(input, e1) {
        Err(f) => {
            return Err(f);
        },
        Ok(v) => v,
    };
    proof {
        lemma_ws_end(input@, e2 as int);
    }
    match ws_byte_at(input, e2, 93u8) {
        None => Err(miss(ws_comments(input, e2), Expected::Char(93u8))),
        Some(f) => Ok((f, Expr::CollectionComprehension {
            kind: ComprehensionKind::List,
            output_expr: Box::new(output),
            input_expr: Box::new(source),
            pattern: pat,
            condition: boxed(cond),
            span: span_at(input, f),
        })),
    }
}

/// `{` key `->` value `for` pattern `<-` expression (`if` expression)? `}`. The output
/// is recorded as a parenthesized `+` of the key and the value.
#[verifier::spinoff_prover]
#[verifier::rlimit(60)]
pub fn map_comprehension(input: &[u8], pos: usize) -> (r: Result<(usize, Expr), ParseFailure>)
    requires
        pos <= input@.len(),
    ensures
        expr_outcome(r) == map_comprehension_at(input@, pos as int),
        r matches Ok((e, _)) ==> pos < e <= input@.len(),
        r matches Err(f) ==> f.pos <= input@.len(),
    decreases input@.len() - pos, 1int,
{
    proof {
        reveal_with_fuel(comprehension_tail_at, 1);
        reveal_with_fuel(expression_at, 1);
        reveal_with_fuel(map_comprehension_at, 1);
    }
    proof {
        lemma_ws_end(input@, pos as int);
    }
    let q = match ws_byte_at(input, pos, 123u8) {
        None => {
            return Err(miss(ws_comments(input, pos), Expected::Char(123u8)));
        },
        Some(q) => q,
    };
    let (e1, key) = match expression(input, q) {
        Err(f) => {
            return Err(f);
        },
        Ok(v) => v,
    };
    proof {
        lemma_ws_end(input@, e1 as int);
    }
    let arrow: [u8; 2] = [45u8, 62u8];
    proof {
        assert(arrow@ =~= crate::parser::types::lit_arrow());
    }
    let q2 = match keyword(input, e1, &arrow) {
        None => {
            return Err(miss(ws_comments(input, e1), Expected::Keyword));
        },
        Some(q2) => q2,
    };
    let (e2, value) = match expression(input, q2) {
        Err(f) => {
            return Err(f);
        },
        Ok(v) => v,
    };
    let (e3, (pat, source, cond)) = match comprehension_tail(input, e2) {
        Err(f) => {
            return Err(f);
        },
        Ok(v) => v,
    };
    proof {
        lemma_ws_end(input@, e3 as int);
    }
    match ws_byte_at(input, e3, 125u8) {
        None => Err(miss(ws_comments(input, e3), Expected::Char(125u8))),
        Some(f) => {
            let span = span_at(input, f);
            let ghost kk = expr_kind(key);
            let ghost vk = expr_kind(value);
            let pair = Expr::BinaryOp { left: Box::new(key), operator: BinaryOperator::Add, right: Box::new(value), span };
            assert(expr_kind(pair) == ExprKind::BinaryOp(BinaryOperator::Add, Box::new(kk), Box::new(vk), span));
            let ghost pk = expr_kind(pair);
            let output = Expr::ParenExpr(Box::new(pair), span);
            assert(expr_kind(output) == ExprKind::ParenExpr(Box::new(pk), span));
            Ok((f, Expr::CollectionComprehension {
                kind: ComprehensionKind::MapOf,
                output_expr: Box::new(output),
                input_expr: Box::new(source),
                pattern: pat,
                condition: boxed(cond),
                span,
            }))
        },
    }
}

/// `#{` expression `for` pattern `<-` expression (`if` expression)? `}`.
#[verifier::rlimit(60)]
pub fn set_comprehension(input: &[u8], pos: usize) -> (r: Result<(usize, Expr), ParseFailure>)
    requires
        pos <= input@.len(),
    ensures
        expr_outcome(r) == set_comprehension_at(input@, pos as int),
        r matches Ok((e, _)) ==> pos < e <= input@.len(),
        r matches Err(f) ==> f.pos <= input@.len(),
    decreases input@.len() - pos, 1int,
{
    proof {
        reveal_with_fuel(comprehension_tail_at, 1);
        reveal_with_fuel(expression_at, 1);
        reveal_with_fuel(set_comprehension_at, 1);
    }
    proof {
        lemma_ws_end(input@, pos as int);
    }
    let q = match keyword(input, pos, &kw::kw_hash_brace()) {
        None => {
            return Err(miss(ws_comments(input, pos), Expected::Keyword));
        },
        Some(q) => q,
    };
    let (e1, output) = match expression(input, q) {
        Err(f) => {
            return Err(f);
        },
        Ok(v) => v,
    };
    let (e2, (pat, source, cond)) = match comprehension_tail(input, e1) {
        Err(f) => {
            return Err(f);
        },
        Ok(v) => v,
    };
    proof {
        lemma_ws_end(input@, e2 as int);
    }
    match ws_byte_at(input, e2, 125u8) {
        None => Err(miss(ws_comments(input, e2), Expected::Char(125u8))),
        Some(f) => Ok((f, Expr::CollectionComprehension {
            kind: ComprehensionKind::SetOf,
            output_expr: Box::new(output),
            input_expr: Box::new(source),
            pattern: pat,
            condition: boxed(cond),
            span: span_at(input, f),
        })),
    }
}

/// The first comprehension that reads one.
pub fn collection_comprehension(input: &[u8], pos: usize) -> (r: Result<(usize, Expr), ParseFailure>)
    requires
        pos <= input@.len(),
    ensures
        expr_outcome(r) == collection_comprehension_at(input@, pos as int),
        r matches Ok((e, _)) ==> pos < e <= input@.len(),
        r matches Err(f) ==> f.pos <= input@.len(),
    decreases input@.len() - pos, 2int,
{
    proof {
        reveal_with_fuel(collection_comprehension_at, 1);
        reveal_with_fuel(list_comprehension_at, 1);
        reveal_with_fuel(map_comprehension_at, 1);
        reveal_with_fuel(set_comprehension_at, 1);
    }
    let r1 = list_comprehension(input, pos);
    if !is_miss(&r1) {
        return r1;
    }
    let r2 = map_comprehension(input, pos);
    if !is_miss(&r2) {
        return r2;
    }
    set_comprehension(input, pos)
}

/// pattern `<-` expression `;`.
pub fn bind_statement(input: &[u8], pos: usize) -> (r: Result<(usize, (Pattern, Expr)), ParseFailure>)
    requires
        pos <= input@.len(),
    ensures
        bind_outcome(r) == bind_statement_at(input@, pos as int),
        r matches Ok((e, _)) ==> pos < e <= input@.len(),
        r matches Err(f) ==> f.pos <= input@.len(),
    decreases input@.len() - pos, 1int,
{
    proof {
        reveal_with_fuel(bind_statement_at, 1);
        reveal_with_fuel(expression_at, 1);
    }
    let (e1, pat) = match pattern(input, pos) {
        Err(f) => {
            return Err(f);
        },
        Ok(v) => v,
    };
    proof {
        lemma_ws_end(input@, e1 as int);
    }
    let q = match keyword(input, e1, &kw::kw_larrow()) {
        None => {
            return Err(miss(ws_comments(input, e1), Expected::Keyword));
        },
        Some(q) => q,
    };
    let (e2, x) = match expression(input, q) {
        Err(f) => {
            return Err(f);
        },
        Ok(v) => v,
    };
    proof {
        lemma_ws_end(input@, e2 as int);
    }
    match ws_byte_at(input, e2, 59u8) {
        None => Err(miss(ws_comments(input, e2), Expected::Char(59u8))),
        Some(f) => Ok((f, (pat, x))),
    }
}

/// Bind statements, one after another.
fn bind_statements(input: &[u8], pos: usize) -> (r: Result<(usize, Vec<(Pattern, Expr)>), ParseFailure>)
    requires
        pos <= input@.len(),
    ensures
        binds_outcome(r) == bind_statements_at(input@, pos as int),
        r matches Ok((e, _)) ==> pos <= e <= input@.len(),
        r matches Err(f) ==> f.pos <= input@.len(),
    decreases input@.len() - pos, 2int,
{
    proof {
        reveal_with_fuel(bind_statement_at, 1);
        reveal_with_fuel(bind_statements_at, 1);
    }
    let mut items: Vec<(Pattern, Expr)> = Vec::new();
    let mut cur = pos;
    loop
        invariant
            pos <= cur <= input@.len(),
            bind_statements_at(input@, pos as int) == with_prefix(bind_kinds(items@), bind_statements_at(input@, cur as int)),
        decreases input@.len() - cur,
    {
        proof {
            assert(bind_kinds(items@) + Seq::empty() =~= bind_kinds(items@));
            reveal_with_fuel(bind_statement_at, 1);
            reveal_with_fuel(bind_statements_at, 1);
        }
        match bind_statement(input, cur) {
            Err(f) => {
                if f.fatal {
                    return Err(f);
                }
                return Ok((cur, items));
            },
            Ok((e, b)) => {
                let ghost items0 = items@;
                items.push(b);
                proof {
                    lemma_bind_kinds_push(items0, items@.last());
                    assert(items@ =~= items0.push(items@.last()));
                    lemma_prefix_more(bind_kinds(items0), bind_kind(items@.last()), bind_statements_at(input@, e as int));
                }
                cur = e;
            },
        }
    }
}

/// `bind` `{` bind statements expression `}`.
pub fn bind_expr(input: &[u8], pos: usize) -> (r: Result<(usize, Expr), ParseFailure>)
    requires
        pos <= input@.len(),
    ensures
        expr_outcome(r) == bind_expr_at(input@, pos as int),
        r matches Ok((e, _)) ==> pos < e <= input@.len(),
        r matches Err(f) ==> f.pos <= input@.len(),
    decreases input@.len() - pos, 1int,
{
    proof {
        reveal_with_fuel(bind_expr_at, 1);
        reveal_with_fuel(bind_statements_at, 1);
        reveal_with_fuel(expression_at, 1);
    }
    proof {
        lemma_ws_end(input@, pos as int);
    }
    let q = match keyword(input, pos, &kw::kw_bind()) {
        None => {
            return Err(miss(ws_comments(input, pos), Expected::Keyword));
        },
        Some(q) => q,
    };
    proof {
        lemma_ws_end(input@, q as int);
    }
    let q2 = match ws_byte_at(input, q, 123u8) {
        None => {
            return Err(miss(ws_comments(input, q), Expected::Char(123u8)));
        },
        Some(q2) => q2,
    };
    let (e1, bindings) = match bind_statements(input, q2) {
        Err(f) => {
            return Err(f);
        },
        Ok(v) => v,
    };
    let (e2, final_expr) = match expression(input, e1) {
        Err(f) => {
            return Err(f);
        },
        Ok(v) => v,
    };
    proof {
        lemma_ws_end(input@, e2 as int);
    }
    match ws_byte_at(input, e2, 125u8) {
        None => Err(miss(ws_comments(input, e2), Expected::Char(125u8))),
        Some(f) => Ok((f, Expr::BindExpr { bindings, final_expr: Box::new(final_expr), span: span_at(input, f) })),
    }
}

/// name `=` expression (`:` type)?.
fn parse_with_binding(input: &[u8], pos: usize) -> (r: Result<(usize, WithBinding), ParseFailure>)
    requires
        pos <= input@.len(),
    ensures
        with_outcome(r) == with_binding_at(input@, pos as int),
        r matches Ok((e, _)) ==> pos < e <= input@.len(),
        r matches Err(f) ==> f.pos <= input@.len(),
    decreases input@.len() - pos, 1int,
{
    proof {
        reveal_with_fuel(expression_at, 1);
        reveal_with_fuel(with_binding_at, 1);
    }
    proof {
        lemma_ws_end(input@, pos as int);
    }
    let (c, alias) = match ws_identifier(input, pos) {
        None => {
            return Err(miss(ws_comments(input, pos), Expected::Keyword));
        },
        Some(v) => v,
    };
    proof {
        lemma_ws_end(input@, c as int);
    }
    let q = match ws_byte_at(input, c, 61u8) {
        None => {
            return Err(miss(ws_comments(input, c), Expected::Char(61u8)));
        },
        Some(q) => q,
    };
    let (e, instance) = match expression(input, q) {
        Err(f) => {
            return Err(f);
        },
        Ok(v) => v,
    };
    let (end, type_annotation): (usize, Option<crate::ast::Type>) = match ws_byte_at(input, e, 58u8) {
        None => (e, None),
        Some(q2) => match parse_type(input, q2) {
            Ok((e2, t)) => (e2, Some(t)),
            Err(f) => {
                if f.fatal {
                    return Err(f);
                }
                (e, None)
            },
        },
    };
    Ok((end, WithBinding { alias, instance, type_annotation, span: covering(input, pos, end) }))
}

/// `with` bindings separated by `,`.
fn with_bindings(input: &[u8], pos: usize) -> (r: Result<(usize, Vec<WithBinding>), ParseFailure>)
    requires
        pos <= input@.len(),
    ensures
        withs_outcome(r) == with_bindings_at(input@, pos as int),
        r matches Ok((e, _)) ==> pos <= e <= input@.len(),
        r matches Err(f) ==> f.pos <= input@.len(),
    decreases input@.len() - pos, 2int,
{
    proof {
        reveal_with_fuel(with_binding_at, 1);
        reveal_with_fuel(with_bindings_at, 1);
        reveal_with_fuel(with_bindings_more_at, 1);
    }
    proof {
        assert(with_kinds(Seq::<WithBinding>::empty()) =~= Seq::<(Seq<char>, ExprKind, Option<TypeModel>, Span)>::empty());
    }
    let (e, first) = match parse_with_binding(input, pos) {
        Err(f) => {
            if f.fatal {
                return Err(f);
            }
            return Ok((pos, Vec::new()));
        },
        Ok(v) => v,
    };
    let mut items: Vec<WithBinding> = Vec::new();
    items.push(first);
    proof {
        assert(with_kinds(items@) =~= seq![with_kind(items@[0])]);
        lemma_prefix_more(Seq::<(Seq<char>, ExprKind, Option<TypeModel>, Span)>::empty(), with_kind(items@[0]), with_bindings_more_at(input@, e as int));
    }
    let mut cur = e;
    loop
        invariant
            pos < cur <= input@.len(),
            items@.len() >= 1,
            with_bindings_at(input@, pos as int) == with_prefix(with_kinds(items@), with_bindings_more_at(input@, cur as int)),
        decreases input@.len() - cur,
    {
        proof {
            reveal_with_fuel(with_binding_at, 1);
            reveal_with_fuel(with_bindings_more_at, 1);
            assert(with_kinds(items@) + Seq::empty() =~= with_kinds(items@));
        }
        let q = match ws_byte_at(input, cur, 44u8) {
            None => {
                return Ok((cur, items));
            },
            Some(q) => q,
        };
        match parse_with_binding(input, q) {
            Err(f) => {
                if f.fatal {
                    return Err(f);
                }
                return Ok((cur, items));
            },
            Ok((e2, b)) => {
                let ghost items0 = items@;
                items.push(b);
                proof {
                    lemma_with_kinds_push(items0, items@.last());
                    assert(items@ =~= items0.push(items@.last()));
                    lemma_prefix_more(with_kinds(items0), with_kind(items@.last()), with_bindings_more_at(input@, e2 as int));
                }
                cur = e2;
            },
        }
    }
}

/// `with` bindings block.
pub fn with_expr(input: &[u8], pos: usize) -> (r: Result<(usize, Expr), ParseFailure>)
    requires
        pos <= input@.len(),
    ensures
        expr_outcome(r) == with_expr_at(input@, pos as int),
        r matches Ok((e, _)) ==> pos < e <= input@.len(),
        r matches Err(f) ==> f.pos <= input@.len(),
    decreases input@.len() - pos, 1int,
{
    proof {
        reveal_with_fuel(block_expr_at, 1);
        reveal_with_fuel(with_bindings_at, 1);
        reveal_with_fuel(with_expr_at, 1);
    }
    proof {
        lemma_ws_end(input@, pos as int);
    }
    let q = match keyword(input, pos, &kw::kw_with()) {
        None => {
            return Err(miss(ws_comments(input, pos), Expected::Keyword));
        },
        Some(q) => q,
    };
    let (e1, bindings) = match with_bindings(input, q) {
        Err(f) => {
            return Err(f);
        },
        Ok(v) => v,
    };
    let (e2, body) = match block_expr(input, e1) {
        Err(f) => {
            return Err(f);
        },
        Ok(v) => v,
    };
    Ok((e2, Expr::WithExpr { bindings, body: Box::new(body), span: covering(input, pos, e2) }))
}

/// Expressions separated by `,`, possibly none.
fn expr_list(input: &[u8], pos: usize) -> (r: Result<(usize, Vec<Expr>), ParseFailure>)
    requires
        pos <= input@.len(),
    ensures
        kinds_outcome(r) == expr_list_at(input@, pos as int),
        r matches Ok((e, _)) ==> pos <= e <= input@.len(),
        r matches Err(f) ==> f.pos <= input@.len(),
    decreases input@.len() - pos, 13int,
{
    proof {
        assert(expr_kinds(Seq::<Expr>::empty()) =~= Seq::<ExprKind>::empty());
        assert(pair_kinds(Seq::<(Expr, Expr)>::empty()) =~= Seq::<(ExprKind, ExprKind)>::empty());
    }
    proof {
        reveal_with_fuel(expr_list_at, 1);
        reveal_with_fuel(expr_list_more_at, 1);
        reveal_with_fuel(expression_at, 1);
    }
    let (e, first) = match expression(input, pos) {
        Err(f) => {
            if f.fatal {
                return Err(f);
            }
            return Ok((pos, Vec::new()));
        },
        Ok(v) => v,
    };
    let (e2, mut rest) = match expr_list_more(input, e) {
        Err(f) => {
            return Err(f);
        },
        Ok(v) => v,
    };
    let ghost rest0 = rest@;
    let mut items: Vec<Expr> = Vec::new();
    items.push(first);
    items.append(&mut rest);
    proof {
        assert(expr_kinds(items@) =~= seq![expr_kind(items@[0])] + expr_kinds(rest0));
    }
    Ok((e2, items))
}

/// The expressions that follow, each after a `,`.
fn expr_list_more(input: &[u8], pos: usize) -> (r: Result<(usize, Vec<Expr>), ParseFailure>)
    requires
        pos <= input@.len(),
    ensures
        kinds_outcome(r) == expr_list_more_at(input@, pos as int),
        r matches Ok((e, _)) ==> pos <= e <= input@.len(),
        r matches Err(f) ==> f.pos <= input@.len(),
    decreases input@.len() - pos, 13int,
{
    proof {
        reveal_with_fuel(expr_list_more_at, 1);
        reveal_with_fuel(expression_at, 1);
    }
    let mut items: Vec<Expr> = Vec::new();
    let mut cur = pos;
    loop
        invariant
            pos <= cur <= input@.len(),
            expr_list_more_at(input@, pos as int) == with_prefix(expr_kinds(items@), expr_list_more_at(input@, cur as int)),
        decreases input@.len() - cur,
    {
        proof {
            reveal_with_fuel(expr_list_more_at, 1);
            reveal_with_fuel(expression_at, 1);
            assert(expr_kinds(items@) + Seq::empty() =~= expr_kinds(items@));
        }
        let q = match ws_byte_at(input, cur, 44u8) {
            None => {
                return Ok((cur, items));
            },
            Some(q) => q,
        };
        match expression(input, q) {
            Err(f) => {
                if f.fatal {
                    return Err(f);
                }
                return Ok((cur, items));
            },
            Ok((e, x)) => {
                let ghost items0 = items@;
                items.push(x);
                proof {
                    lemma_kinds_push(items0, items@.last());
                    assert(items@ =~= items0.push(items@.last()));
                    lemma_prefix_more(expr_kinds(items0), expr_kind(items@.last()), expr_list_more_at(input@, e as int));
                }
                cur = e;
            },
        }
    }
}

/// expression `->` expression.
#[verifier::spinoff_prover]
#[verifier::rlimit(60)]
fn map_entry(input: &[u8], pos: usize) -> (r: Result<(usize, (Expr, Expr)), ParseFailure>)
    requires
        pos <= input@.len(),
    ensures
        pair_outcome(r) == map_entry_at(input@, pos as int),
        r matches Ok((e, _)) ==> pos < e <= input@.len(),
        r matches Err(f) ==> f.pos <= input@.len(),
    decreases input@.len() - pos, 13int,
{
    proof {
        reveal_with_fuel(expression_at, 1);
        reveal_with_fuel(map_entry_at, 1);
    }
    let (e1, key) = match expression(input, pos) {
        Err(f) => {
            return Err(f);
        },
        Ok(v) => v,
    };
    proof {
        lemma_ws_end(input@, e1 as int);
    }
    let arrow: [u8; 2] = [45u8, 62u8];
    proof {
        assert(arrow@ =~= crate::parser::types::lit_arrow());
    }
    let q = match keyword(input, e1, &arrow) {
        None => {
            return Err(miss(ws_comments(input, e1), Expected::Keyword));
        },
        Some(q) => q,
    };
    match expression(input, q) {
        Err(f) => Err(f),
        Ok((e2, value)) => Ok((e2, (key, value))),
    }
}

/// Map entries separated by `,`.
#[verifier::spinoff_prover]
#[verifier::rlimit(60)]
fn map_entries(input: &[u8], pos: usize) -> (r: Result<(usize, Vec<(Expr, Expr)>), ParseFailure>)
    requires
        pos <= input@.len(),
    ensures
        pairs_outcome(r) == map_entries_at(input@, pos as int),
        r matches Ok((e, _)) ==> pos <= e <= input@.len(),
        r matches Err(f) ==> f.pos <= input@.len(),
    decreases input@.len() - pos, 14int,
{
    proof {
        assert(expr_kinds(Seq::<Expr>::empty()) =~= Seq::<ExprKind>::empty());
        assert(pair_kinds(Seq::<(Expr, Expr)>::empty()) =~= Seq::<(ExprKind, ExprKind)>::empty());
    }
    proof {
        reveal_with_fuel(map_entries_at, 1);
        reveal_with_fuel(map_entries_more_at, 1);
        reveal_with_fuel(map_entry_at, 1);
    }
    let (e, first) = match map_entry(input, pos) {
        Err(f) => {
            if f.fatal {
                return Err(f);
            }
            return Ok((pos, Vec::new()));
        },
        Ok(v) => v,
    };
    let mut items: Vec<(Expr, Expr)> = Vec::new();
    items.push(first);
    proof {
        assert(pair_kinds(items@) =~= seq![(expr_kind(items@[0].0), expr_kind(items@[0].1))]);
        lemma_prefix_more(Seq::<(ExprKind, ExprKind)>::empty(), (expr_kind(items@[0].0), expr_kind(items@[0].1)), map_entries_more_at(input@, e as int));
    }
    let mut cur = e;
    loop
        invariant
            pos < cur <= input@.len(),
            items@.len() >= 1,
            map_entries_at(input@, pos as int) == with_prefix(pair_kinds(items@), map_entries_more_at(input@, cur as int)),
        decreases input@.len() - cur,
    {
        proof {
            reveal_with_fuel(map_entries_more_at, 1);
            reveal_with_fuel(map_entry_at, 1);
            assert(pair_kinds(items@) + Seq::empty() =~= pair_kinds(items@));
        }
        let q = match ws_byte_at(input, cur, 44u8) {
            None => {
                return Ok((cur, items));
            },
            Some(q) => q,
        };
        match map_entry(input, q) {
            Err(f) => {
                if f.fatal {
                    return Err(f);
                }
                return Ok((cur, items));
            },
            Ok((e2, entry)) => {
                let ghost items0 = items@;
                items.push(entry);
                proof {
                    lemma_pair_kinds_push(items0, items@.last());
                    assert(items@ =~= items0.push(items@.last()));
                    lemma_prefix_more(pair_kinds(items0), (expr_kind(items@.last().0), expr_kind(items@.last().1)), map_entries_more_at(input@, e2 as int));
                }
                cur = e2;
            },
        }
    }
}

/// `[` expressions `,`? `]`.
pub fn list_literal(input: &[u8], pos: usize) -> (r: Result<(usize, Expr), ParseFailure>)
    requires
        pos <= input@.len(),
    ensures
        expr_outcome(r) == list_literal_at(input@, pos as int),
        r matches Ok((e, _)) ==> pos < e <= input@.len(),
        r matches Err(f) ==> f.pos <= input@.len(),
    decreases input@.len() - pos, 1int,
{
    proof {
        reveal_with_fuel(expr_list_at, 1);
        reveal_with_fuel(list_literal_at, 1);
    }
    proof {
        lemma_ws_end(input@, pos as int);
    }
    let q = match ws_byte_at(input, pos, 91u8) {
        None => {
            return Err(miss(ws_comments(input, pos), Expected::Char(91u8)));
        },
        Some(q) => q,
    };
    let (e, elements) = match expr_list(input, q) {
        Err(f) => {
            return Err(f);
        },
        Ok(v) => v,
    };
    let e2 = opt_comma_at(input, e);
    proof {
        lemma_ws_end(input@, e2 as int);
    }
    match ws_byte_at(input, e2, 93u8) {
        None => Err(miss(ws_comments(input, e2), Expected::Char(93u8))),
        Some(f) => Ok((f, Expr::ListLiteral { elements, span: span_at(input, f) })),
    }
}

/// `{` map entries `,`? `}`.
pub fn map_literal(input: &[u8], pos: usize) -> (r: Result<(usize, Expr), ParseFailure>)
    requires
        pos <= input@.len(),
    ensures
        expr_outcome(r) == map_literal_at(input@, pos as int),
        r matches Ok((e, _)) ==> pos < e <= input@.len(),
        r matches Err(f) ==> f.pos <= input@.len(),
    decreases input@.len() - pos, 1int,
{
    proof {
        reveal_with_fuel(map_entries_at, 1);
        reveal_with_fuel(map_literal_at, 1);
    }
    proof {
        lemma_ws_end(input@, pos as int);
    }
    let q = match ws_byte_at(input, pos, 123u8) {
        None => {
            return Err(miss(ws_comments(input, pos), Expected::Char(123u8)));
        },
        Some(q) => q,
    };
    let (e, entries) = match map_entries(input, q) {
        Err(f) => {
            return Err(f);
        },
        Ok(v) => v,
    };
    let e2 = opt_comma_at(input, e);
    proof {
        lemma_ws_end(input@, e2 as int);
    }
    match ws_byte_at(input, e2, 125u8) {
        None => Err(miss(ws_comments(input, e2), Expected::Char(125u8))),
        Some(f) => Ok((f, Expr::MapLiteral { entries, span: span_at(input, f) })),
    }
}

/// `#{` expressions `,`? `}`.
pub fn set_literal(input: &[u8], pos: usize) -> (r: Result<(usize, Expr), ParseFailure>)
    requires
        pos <= input@.len(),
    ensures
        expr_outcome(r) == set_literal_at(input@, pos as int),
        r matches Ok((e, _)) ==> pos < e <= input@.len(),
        r matches Err(f) ==> f.pos <= input@.len(),
    decreases input@.len() - pos, 1int,
{
    proof {
        reveal_with_fuel(expr_list_at, 1);
        reveal_with_fuel(set_literal_at, 1);
    }
    proof {
        lemma_ws_end(input@, pos as int);
    }
    let q = match keyword(input, pos, &kw::kw_hash_brace()) {
        None => {
            return Err(miss(ws_comments(input, pos), Expected::Keyword));
        },
        Some(q) => q,
    };
    let (e, elements) = match expr_list(input, q) {
        Err(f) => {
            return Err(f);
        },
        Ok(v) => v,
    };
    let e2 = opt_comma_at(input, e);
    proof {
        lemma_ws_end(input@, e2 as int);
    }
    match ws_byte_at(input, e2, 125u8) {
        None => Err(miss(ws_comments(input, e2), Expected::Char(125u8))),
        Some(f) => Ok((f, Expr::SetLiteral { elements, span: span_at(input, f) })),
    }
}

/// The first collection literal that reads one.
pub fn collection_literal(input: &[u8], pos: usize) -> (r: Result<(usize, Expr), ParseFailure>)
    requires
        pos <= input@.len(),
    ensures
        expr_outcome(r) == collection_literal_at(input@, pos as int),
        r matches Ok((e, _)) ==> pos < e <= input@.len(),
        r matches Err(f) ==> f.pos <= input@.len(),
    decreases input@.len() - pos, 2int,
{
    proof {
        reveal_with_fuel(collection_literal_at, 1);
        reveal_with_fuel(list_literal_at, 1);
        reveal_with_fuel(map_literal_at, 1);
        reveal_with_fuel(set_literal_at, 1);
    }
    let r1 = list_literal(input, pos);
    if !is_miss(&r1) {
        return r1;
    }
    let r2 = map_literal(input, pos);
    if !is_miss(&r2) {
        return r2;
    }
    set_literal(input, pos)
}

/// `(` parameters `)`.
fn param_list(input: &[u8], pos: usize) -> (r: Result<(usize, Vec<Parameter>), ParseFailure>)
    requires
        pos <= input@.len(),
    ensures
        params_outcome(r) == param_list_at(input@, pos as int),
        r matches Ok((e, _)) ==> pos < e <= input@.len(),
        r matches Err(f) ==> f.pos <= input@.len(),
{
    proof {
        reveal_with_fuel(param_items_at, 1);
        reveal_with_fuel(param_list_at, 1);
    }
    proof {
        lemma_ws_end(input@, pos as int);
    }
    let q = match ws_byte_at(input, pos, 40u8) {
        None => {
            return Err(miss(ws_comments(input, pos), Expected::Char(40u8)));
        },
        Some(q) => q,
    };
    let (e, params) = match param_items(input, q) {
        Err(f) => {
            return Err(f);
        },
        Ok(v) => v,
    };
    proof {
        lemma_ws_end(input@, e as int);
    }
    match ws_byte_at(input, e, 41u8) {
        None => Err(fail(ws_comments(input, e), Expected::Char(41u8))),
        Some(f) => Ok((f, params)),
    }
}

/// Parameters separated by `,`, possibly none.
fn param_items(input: &[u8], pos: usize) -> (r: Result<(usize, Vec<Parameter>), ParseFailure>)
    requires
        pos <= input@.len(),
    ensures
        params_outcome(r) == param_items_at(input@, pos as int),
        r matches Ok((e, _)) ==> pos <= e <= input@.len(),
        r matches Err(f) ==> f.pos <= input@.len(),
{
    proof {
        reveal_with_fuel(param_items_at, 1);
        reveal_with_fuel(param_items_more_at, 1);
        reveal_with_fuel(parameter_at, 1);
    }
    proof {
        assert(param_kinds(Seq::<Parameter>::empty()) =~= Seq::<(Seq<char>, Option<TypeModel>, Span)>::empty());
    }
    let (e, first) = match parameter(input, pos) {
        Err(f) => {
            if f.fatal {
                return Err(f);
            }
            return Ok((pos, Vec::new()));
        },
        Ok(v) => v,
    };
    let mut items: Vec<Parameter> = Vec::new();
    items.push(first);
    proof {
        assert(param_kinds(items@) =~= seq![param_kind(items@[0])]);
        lemma_prefix_more(Seq::<(Seq<char>, Option<TypeModel>, Span)>::empty(), param_kind(items@[0]), param_items_more_at(input@, e as int));
    }
    let mut cur = e;
    loop
        invariant
            pos < cur <= input@.len(),
            items@.len() >= 1,
            param_items_at(input@, pos as int) == with_prefix(param_kinds(items@), param_items_more_at(input@, cur as int)),
        decreases input@.len() - cur,
    {
        proof {
            assert(param_kinds(items@) + Seq::empty() =~= param_kinds(items@));
            reveal_with_fuel(param_items_more_at, 1);
            reveal_with_fuel(parameter_at, 1);
        }
        let q = match ws_byte_at(input, cur, 44u8) {
            None => {
                return Ok((cur, items));
            },
            Some(q) => q,
        };
        match parameter(input, q) {
            Err(f) => {
                if f.fatal {
                    return Err(f);
                }
                return Ok((cur, items));
            },
            Ok((e2, p)) => {
                let ghost items0 = items@;
                items.push(p);
                proof {
                    lemma_param_kinds_push(items0, items@.last());
                    assert(items@ =~= items0.push(items@.last()));
                    lemma_prefix_more(param_kinds(items0), param_kind(items@.last()), param_items_more_at(input@, e2 as int));
                }
                cur = e2;
            },
        }
    }
}

/// `effect` name `:` type.
fn parse_effect_parameter(input: &[u8], pos: usize) -> (r: Result<(usize, EffectParameter), ParseFailure>)
    requires
        pos <= input@.len(),
    ensures
        effect_outcome(r) == effect_parameter_at(input@, pos as int),
        r matches Ok((e, _)) ==> pos < e <= input@.len(),
        r matches Err(f) ==> f.pos <= input@.len(),
{
    proof {
        reveal_with_fuel(effect_parameter_at, 1);
    }
    proof {
        lemma_ws_end(input@, pos as int);
    }
    let q = match keyword(input, pos, &kw::kw_effect()) {
        None => {
            return Err(miss(ws_comments(input, pos), Expected::Keyword));
        },
        Some(q) => q,
    };
    proof {
        lemma_ws_end(input@, q as int);
    }
    let (c, name) = match ws_identifier(input, q) {
        None => {
            return Err(miss(ws_comments(input, q), Expected::Keyword));
        },
        Some(v) => v,
    };
    proof {
        lemma_ws_end(input@, c as int);
    }
    let q2 = match ws_byte_at(input, c, 58u8) {
        None => {
            return Err(miss(ws_comments(input, c), Expected::Char(58u8)));
        },
        Some(q2) => q2,
    };
    match parse_type(input, q2) {
        Ok((e, effect_type)) => Ok((e, EffectParameter { name, effect_type, span: span_at(input, e) })),
        Err(f) => Err(f),
    }
}

/// `(` effect parameters `)`.
fn parse_effect_parameter_list(input: &[u8], pos: usize) -> (r: Result<(usize, Vec<EffectParameter>), ParseFailure>)
    requires
        pos <= input@.len(),
    ensures
        effects_outcome(r) == effect_param_list_at(input@, pos as int),
        r matches Ok((e, _)) ==> pos < e <= input@.len(),
        r matches Err(f) ==> f.pos <= input@.len(),
{
    proof {
        reveal_with_fuel(effect_items_at, 1);
        reveal_with_fuel(effect_param_list_at, 1);
    }
    proof {
        lemma_ws_end(input@, pos as int);
    }
    let q = match ws_byte_at(input, pos, 40u8) {
        None => {
            return Err(miss(ws_comments(input, pos), Expected::Char(40u8)));
        },
        Some(q) => q,
    };
    let (e, params) = match effect_items(input, q) {
        Err(f) => {
            return Err(f);
        },
        Ok(v) => v,
    };
    proof {
        lemma_ws_end(input@, e as int);
    }
    match ws_byte_at(input, e, 41u8) {
        None => Err(fail(ws_comments(input, e), Expected::Char(41u8))),
        Some(f) => Ok((f, params)),
    }
}

/// Effect parameters separated by `,`, possibly none.
fn effect_items(input: &[u8], pos: usize) -> (r: Result<(usize, Vec<EffectParameter>), ParseFailure>)
    requires
        pos <= input@.len(),
    ensures
        effects_outcome(r) == effect_items_at(input@, pos as int),
        r matches Ok((e, _)) ==> pos <= e <= input@.len(),
        r matches Err(f) ==> f.pos <= input@.len(),
{
    proof {
        reveal_with_fuel(effect_items_at, 1);
        reveal_with_fuel(effect_items_more_at, 1);
        reveal_with_fuel(effect_parameter_at, 1);
    }
    proof {
        assert(effect_kinds(Seq::<EffectParameter>::empty()) =~= Seq::<(Seq<char>, TypeModel, Span)>::empty());
    }
    let (e, first) = match parse_effect_parameter(input, pos) {
        Err(f) => {
            if f.fatal {
                return Err(f);
            }
            return Ok((pos, Vec::new()));
        },
        Ok(v) => v,
    };
    let mut items: Vec<EffectParameter> = Vec::new();
    items.push(first);
    proof {
        assert(effect_kinds(items@) =~= seq![effect_kind(items@[0])]);
        lemma_prefix_more(Seq::<(Seq<char>, TypeModel, Span)>::empty(), effect_kind(items@[0]), effect_items_more_at(input@, e as int));
    }
    let mut cur = e;
    loop
        invariant
            pos < cur <= input@.len(),
            items@.len() >= 1,
            effect_items_at(input@, pos as int) == with_prefix(effect_kinds(items@), effect_items_more_at(input@, cur as int)),
        decreases input@.len() - cur,
    {
        proof {
            assert(effect_kinds(items@) + Seq::empty() =~= effect_kinds(items@));
            reveal_with_fuel(effect_items_more_at, 1);
            reveal_with_fuel(effect_parameter_at, 1);
        }
        let q = match ws_byte_at(input, cur, 44u8) {
            None => {
                return Ok((cur, items));
            },
            Some(q) => q,
        };
        match parse_effect_parameter(input, q) {
            Err(f) => {
                if f.fatal {
                    return Err(f);
                }
                return Ok((cur, items));
            },
            Ok((e2, p)) => {
                let ghost items0 = items@;
                items.push(p);
                proof {
                    lemma_effect_kinds_push(items0, items@.last());
                    assert(items@ =~= items0.push(items@.last()));
                    lemma_prefix_more(effect_kinds(items0), effect_kind(items@.last()), effect_items_more_at(input@, e2 as int));
                }
                cur = e2;
            },
        }
    }
}

/// `(` `with` parameters `)`.
fn parse_implicit_parameter_list(input: &[u8], pos: usize) -> (r: Result<(usize, Vec<Parameter>), ParseFailure>)
    requires
        pos <= input@.len(),
    ensures
        params_outcome(r) == implicit_param_list_at(input@, pos as int),
        r matches Ok((e, _)) ==> pos < e <= input@.len(),
        r matches Err(f) ==> f.pos <= input@.len(),
{
    proof {
        reveal_with_fuel(implicit_param_list_at, 1);
        reveal_with_fuel(param_items_at, 1);
    }
    proof {
        lemma_ws_end(input@, pos as int);
    }
    let q = match ws_byte_at(input, pos, 40u8) {
        None => {
            return Err(miss(ws_comments(input, pos), Expected::Char(40u8)));
        },
        Some(q) => q,
    };
    proof {
        lemma_ws_end(input@, q as int);
    }
    let q2 = match keyword(input, q, &kw::kw_with()) {
        None => {
            return Err(miss(ws_comments(input, q), Expected::Keyword));
        },
        Some(q2) => q2,
    };
    let (e, params) = match param_items(input, q2) {
        Err(f) => {
            return Err(f);
        },
        Ok(v) => v,
    };
    proof {
        lemma_ws_end(input@, e as int);
    }
    match ws_byte_at(input, e, 41u8) {
        None => Err(fail(ws_comments(input, e), Expected::Char(41u8))),
        Some(f) => Ok((f, params)),
    }
}

/// `fn` (parameters)? (effect parameters)? (implicit parameters)? (`:` type)? `=>`
/// expression. The return type annotation is read and not kept.
pub fn function_expr(input: &[u8], pos: usize) -> (r: Result<(usize, Expr), ParseFailure>)
    requires
        pos <= input@.len(),
    ensures
        expr_outcome(r) == function_expr_at(input@, pos as int),
        r matches Ok((e, _)) ==> pos < e <= input@.len(),
        r matches Err(f) ==> f.pos <= input@.len(),
    decreases input@.len() - pos, 1int,
{
    proof {
        reveal_with_fuel(effect_param_list_at, 1);
        reveal_with_fuel(expression_at, 1);
        reveal_with_fuel(function_expr_at, 1);
        reveal_with_fuel(implicit_param_list_at, 1);
        reveal_with_fuel(param_list_at, 1);
    }
    proof {
        lemma_ws_end(input@, pos as int);
    }
    let q = match keyword(input, pos, &kw::kw_fn()) {
        None => {
            return Err(miss(ws_comments(input, pos), Expected::Keyword));
        },
        Some(q) => q,
    };
    let (e1, parameters): (usize, Option<Vec<Parameter>>) = match param_list(input, q) {
        Ok((e, ps)) => (e, Some(ps)),
        Err(f) => {
            if f.fatal {
                return Err(f);
            }
            (q, None)
        },
    };
    let (e2, effect_parameters): (usize, Option<Vec<EffectParameter>>) = match parse_effect_parameter_list(input, e1) {
        Ok((e, ps)) => (e, Some(ps)),
        Err(f) => {
            if f.fatal {
                return Err(f);
            }
            (e1, None)
        },
    };
    let (e3, implicit_parameters): (usize, Option<Vec<Parameter>>) = match parse_implicit_parameter_list(input, e2) {
        Ok((e, ps)) => (e, Some(ps)),
        Err(f) => {
            if f.fatal {
                return Err(f);
            }
            (e2, None)
        },
    };
    let e4: usize = match ws_byte_at(input, e3, 58u8) {
        None => e3,
        Some(q4) => match parse_type(input, q4) {
            Ok((e, _)) => e,
            Err(f) => {
                if f.fatal {
                    return Err(f);
                }
                e3
            },
        },
    };
    proof {
        lemma_ws_end(input@, e4 as int);
    }
    let q5 = match keyword(input, e4, &kw::kw_fat_arrow()) {
        None => {
            return Err(fail(ws_comments(input, e4), Expected::Keyword));
        },
        Some(q5) => q5,
    };
    match expression(input, q5) {
        Err(f) => Err(ParseFailure { fatal: true, pos: f.pos, expected: f.expected }),
        Ok((e6, body)) => Ok((e6, Expr::FunctionExpr {
            parameters,
            effect_parameters,
            implicit_parameters,
            body: Box::new(body),
            span: covering(input, pos, e6),
        })),
    }
}

/// An expression.
pub fn expression(input: &[u8], pos: usize) -> (r: Result<(usize, Expr), ParseFailure>)
    requires
        pos <= input@.len(),
    ensures
        expr_outcome(r) == expression_at(input@, pos as int),
        r matches Ok((e, _)) ==> pos < e <= input@.len(),
        r matches Err(f) ==> f.pos <= input@.len(),
    decreases input@.len() - pos, 12int,
{
    proof {
        reveal_with_fuel(assignment_at, 1);
        reveal_with_fuel(bind_expr_at, 1);
        reveal_with_fuel(collection_comprehension_at, 1);
        reveal_with_fuel(collection_literal_at, 1);
        reveal_with_fuel(expression_at, 1);
        reveal_with_fuel(function_expr_at, 1);
        reveal_with_fuel(if_expr_at, 1);
        reveal_with_fuel(match_expr_at, 1);
        reveal_with_fuel(with_expr_at, 1);
    }
    let r1 = function_expr(input, pos);
    if !is_miss(&r1) {
        return r1;
    }
    let r2 = if_expr(input, pos);
    if !is_miss(&r2) {
        return r2;
    }
    let r3 = match_expr(input, pos);
    if !is_miss(&r3) {
        return r3;
    }
    let r4 = bind_expr(input, pos);
    if !is_miss(&r4) {
        return r4;
    }
    let r5 = with_expr(input, pos);
    if !is_miss(&r5) {
        return r5;
    }
    let r6 = collection_literal(input, pos);
    if !is_miss(&r6) {
        return r6;
    }
    let r7 = collection_comprehension(input, pos);
    if !is_miss(&r7) {
        return r7;
    }
    assignment_expr(input, pos)
}

} // verus!
