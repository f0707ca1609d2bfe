//! Text renderings of syntax trees, for showing what the parser read.
use vstd::prelude::*;
use vstd::string::StringExecFns;
use crate::ast::{
    BinaryOperator, BlockItem, ComprehensionKind, Decl, Expr, LetHandlerFunction, LiteralValue,
    Parameter, Pattern, Program, Stmt, Type, UnaryOperator, WithBinding,
};
use crate::chars::push_char;

verus! {

// ---------------------------------------------------------------------------
// Joining and numbers
// ---------------------------------------------------------------------------

/// The parts one after another, with `sep` between each two neighbours.
pub open spec fn join(parts: Seq<Seq<char>>, sep: Seq<char>) -> Seq<char>
    decreases parts.len(),
{
    if parts.len() == 0 {
        Seq::empty()
    } else if parts.len() == 1 {
        parts[0]
    } else {
        join(parts.drop_last(), sep) + sep + parts.last()
    }
}

/// Adding one more part to a join.
pub proof fn lemma_join_step(parts: Seq<Seq<char>>, sep: Seq<char>, i: int)
    requires
        0 <= i < parts.len(),
    ensures
        join(parts.take(i + 1), sep) == (if i == 0 {
            parts[0]
        } else {
            join(parts.take(i), sep) + sep + parts[i]
        }),
{
    assert(parts.take(i + 1).drop_last() =~= parts.take(i));
}

/// The decimal digit `d` (0 to 9) as a character.
pub open spec fn digit_char(d: int) -> char {
    if d == 0 { '0' }
    else if d == 1 { '1' }
    else if d == 2 { '2' }
    else if d == 3 { '3' }
    else if d == 4 { '4' }
    else if d == 5 { '5' }
    else if d == 6 { '6' }
    else if d == 7 { '7' }
    else if d == 8 { '8' }
    else { '9' }
}

/// The decimal digits of `n`, most significant first, without leading zeros.
pub open spec fn nat_text(n: nat) -> Seq<char>
    decreases n,
{
    if n < 10 {
        seq![digit_char(n as int)]
    } else {
        nat_text(n / 10).push(digit_char((n % 10) as int))
    }
}

/// The decimal text of an integer, with `-` before a negative one.
pub open spec fn int_text(v: int) -> Seq<char> {
    if v < 0 {
        seq!['-'] + nat_text((-v) as nat)
    } else {
        nat_text(v as nat)
    }
}

fn digit(d: u64) -> (c: char)
    requires
        d < 10,
    ensures
        c == digit_char(d as int),
{
    if d == 0 { '0' }
    else if d == 1 { '1' }
    else if d == 2 { '2' }
    else if d == 3 { '3' }
    else if d == 4 { '4' }
    else if d == 5 { '5' }
    else if d == 6 { '6' }
    else if d == 7 { '7' }
    else if d == 8 { '8' }
    else { '9' }
}

fn write_nat(n: u64, out: &mut String)
    ensures
        final(out)@ == old(out)@ + nat_text(n as nat),
    decreases n,
{
    if n >= 10 {
        write_nat(n / 10, out);
    }
    push_char(out, digit(n % 10));
    proof {
        if n < 10 {
            assert(nat_text(n as nat) == seq![digit_char(n as int)]);
        }
    }
    assert(final(out)@ == old(out)@ + nat_text(n as nat)) by {
        if n >= 10 {
            assert(old(out)@ + nat_text((n / 10) as nat) + seq![digit_char((n % 10) as int)]
                =~= old(out)@ + nat_text(n as nat));
        } else {
            assert(old(out)@.push(digit_char(n as int)) =~= old(out)@ + nat_text(n as nat));
        }
    }
}

fn write_int(v: i64, out: &mut String)
    ensures
        final(out)@ == old(out)@ + int_text(v as int),
{
    if v < 0 {
        push_char(out, '-');
        let m: i128 = 0i128 - (v as i128);
        let n: u64 = m as u64;
        assert(n as int == -(v as int));
        let ghost mid = out@;
        write_nat(n, out);
        assert(out@ =~= old(out)@ + int_text(v as int));
    } else {
        write_nat(v as u64, out);
    }
}

/// `"`, the text, `"`.
pub open spec fn quoted(s: Seq<char>) -> Seq<char> {
    seq!['"'] + s + seq!['"']
}

fn write_quoted(s: &String, out: &mut String)
    ensures
        final(out)@ == old(out)@ + quoted(s@),
{
    push_char(out, '"');
    out.append(s.as_str());
    push_char(out, '"');
    assert(out@ =~= old(out)@ + quoted(s@));
}

/// `true` or `false`.
pub open spec fn bool_text(b: bool) -> Seq<char> {
    if b { "true"@ } else { "false"@ }
}

fn write_bool(b: bool, out: &mut String)
    ensures
        final(out)@ == old(out)@ + bool_text(b),
{
    if b {
        out.append("true");
    } else {
        out.append("false");
    }
}

// ---------------------------------------------------------------------------
// Types
// ---------------------------------------------------------------------------

/// The texts of a sequence of types.
pub open spec fn type_texts(ts: Seq<Type>) -> Seq<Seq<char>>
    decreases ts,
{
    Seq::new(ts.len(), |i: int| if 0 <= i < ts.len() { type_text(ts[i]) } else { Seq::empty() })
}

/// The text of a type, as written in source.
pub open spec fn type_text(t: Type) -> Seq<char>
    decreases t,
{
    match t {
        Type::Simple { name, .. } => name@,
        Type::Function { parameters, return_type, .. } =>
            "("@ + join(type_texts(parameters@), ", "@) + ") -> "@ + type_text(*return_type),
        Type::Array { element_type, .. } => "["@ + type_text(*element_type) + "]"@,
        Type::Tuple { element_types, .. } => "("@ + join(type_texts(element_types@), ", "@) + ")"@,
        Type::Generic { base_type, type_arguments, .. } =>
            base_type@ + "<"@ + join(type_texts(type_arguments@), ", "@) + ">"@,
        Type::Reference { is_mutable, referenced_type, .. } => if is_mutable {
            "&mut "@ + type_text(*referenced_type)
        } else {
            "&"@ + type_text(*referenced_type)
        },
        Type::Owned { owned_type, .. } => "own "@ + type_text(*owned_type),
        Type::WithEffect { base_type, effect_type, .. } =>
            type_text(*base_type) + " & "@ + type_text(*effect_type),
    }
}

fn write_types(ts: &Vec<Type>, out: &mut String)
    ensures
        final(out)@ == old(out)@ + join(type_texts(ts@), ", "@),
    decreases ts@, 0int,
{
    let mut i: usize = 0;
    while i < ts.len()
        invariant
            i <= ts@.len(),
            out@ == old(out)@ + join(type_texts(ts@).take(i as int), ", "@),
        decreases ts@.len() - i,
    {
        proof {
            assert(decreases_to!(ts@ => ts@[i as int]));
            lemma_join_step(type_texts(ts@), ", "@, i as int);
        }
        let ghost before = out@;
        if i > 0 {
            out.append(", ");
        }
        write_type(&ts[i], out);
        assert(out@ == old(out)@ + join(type_texts(ts@).take(i + 1), ", "@)) by {
            if i > 0 {
                assert(out@ =~= before + ", "@ + type_text(ts@[i as int]));
            }
        }
        i = i + 1;
    }
    assert(type_texts(ts@).take(ts@.len() as int) =~= type_texts(ts@));
}

/// Writes the text of a type.
pub fn write_type(t: &Type, out: &mut String)
    ensures
        final(out)@ == old(out)@ + type_text(*t),
    decreases *t, 1int,
{
    match t {
        Type::Simple { name, .. } => {
            out.append(name.as_str());
        },
        Type::Function { parameters, return_type, .. } => {
            out.append("(");
            write_types(parameters, out);
            out.append(") -> ");
            write_type(return_type, out);
            assert(out@ =~= old(out)@ + type_text(*t));
        },
        Type::Array { element_type, .. } => {
            out.append("[");
            write_type(element_type, out);
            out.append("]");
            assert(out@ =~= old(out)@ + type_text(*t));
        },
        Type::Tuple { element_types, .. } => {
            out.append("(");
            write_types(element_types, out);
            out.append(")");
            assert(out@ =~= old(out)@ + type_text(*t));
        },
        Type::Generic { base_type, type_arguments, .. } => {
            out.append(base_type.as_str());
            out.append("<");
            write_types(type_arguments, out);
            out.append(">");
            assert(out@ =~= old(out)@ + type_text(*t));
        },
        Type::Reference { is_mutable, referenced_type, .. } => {
            if *is_mutable {
                out.append("&mut ");
            } else {
                out.append("&");
            }
            write_type(referenced_type, out);
            assert(out@ =~= old(out)@ + type_text(*t));
        },
        Type::Owned { owned_type, .. } => {
            out.append("own ");
            write_type(owned_type, out);
            assert(out@ =~= old(out)@ + type_text(*t));
        },
        Type::WithEffect { base_type, effect_type, .. } => {
            write_type(base_type, out);
            out.append(" & ");
            write_type(effect_type, out);
            assert(out@ =~= old(out)@ + type_text(*t));
        },
    }
}

/// The text of a type, as written in source: `(Int, Int) -> Int`, `[T]`, `&mut T`,
/// `own T`, `Map<K, V>`, `T & E`.
pub fn type_to_string(t: &Type) -> (s: String)
    ensures
        s@ == type_text(*t),
{
    let mut s = String::new();
    write_type(t, &mut s);
    assert(s@ =~= type_text(*t));
    s
}


// ---------------------------------------------------------------------------
// Patterns and operators
// ---------------------------------------------------------------------------

/// The text of a literal value: decimal integers, the source text of a floating point
/// literal, `true`/`false`, a quoted string, `()`.
pub open spec fn literal_text(v: LiteralValue) -> Seq<char> {
    match v {
        LiteralValue::Int(i) => int_text(i as int),
        LiteralValue::Float(t) => t@,
        LiteralValue::Bool(b) => bool_text(b),
        LiteralValue::String(s) => quoted(s@),
        LiteralValue::Unit => "()"@,
    }
}

fn write_literal(v: &LiteralValue, out: &mut String)
    ensures
        final(out)@ == old(out)@ + literal_text(*v),
{
    match v {
        LiteralValue::Int(i) => write_int(*i, out),
        LiteralValue::Float(t) => out.append(t.as_str()),
        LiteralValue::Bool(b) => write_bool(*b, out),
        LiteralValue::String(s) => write_quoted(s, out),
        LiteralValue::Unit => out.append("()"),
    }
}

/// The texts of a sequence of patterns.
pub open spec fn pattern_texts(ps: Seq<Pattern>) -> Seq<Seq<char>>
    decreases ps,
{
    Seq::new(ps.len(), |i: int| if 0 <= i < ps.len() { pattern_text(ps[i]) } else { Seq::empty() })
}

/// The text of a pattern: a literal, a name, `(p, q)`, `C` or `C(p, q)`, `_`.
pub open spec fn pattern_text(p: Pattern) -> Seq<char>
    decreases p,
{
    match p {
        Pattern::Literal(v, _) => literal_text(v),
        Pattern::Identifier(name, _) => name@,
        Pattern::Tuple(ps, _) => "("@ + join(pattern_texts(ps@), ", "@) + ")"@,
        Pattern::Constructor { name, arguments, .. } => if arguments@.len() == 0 {
            name@
        } else {
            name@ + "("@ + join(pattern_texts(arguments@), ", "@) + ")"@
        },
        Pattern::Wildcard(_) => "_"@,
    }
}

fn write_patterns(ps: &Vec<Pattern>, out: &mut String)
    ensures
        final(out)@ == old(out)@ + join(pattern_texts(ps@), ", "@),
    decreases ps@, 0int,
{
    let mut i: usize = 0;
    while i < ps.len()
        invariant
            i <= ps@.len(),
            out@ == old(out)@ + join(pattern_texts(ps@).take(i as int), ", "@),
        decreases ps@.len() - i,
    {
        proof {
            assert(decreases_to!(ps@ => ps@[i as int]));
            lemma_join_step(pattern_texts(ps@), ", "@, i as int);
        }
        let ghost before = out@;
        if i > 0 {
            out.append(", ");
        }
        write_pattern(&ps[i], out);
        assert(out@ == old(out)@ + join(pattern_texts(ps@).take(i + 1), ", "@)) by {
            if i > 0 {
                assert(out@ =~= before + ", "@ + pattern_text(ps@[i as int]));
            }
        }
        i = i + 1;
    }
    assert(pattern_texts(ps@).take(ps@.len() as int) =~= pattern_texts(ps@));
}

/// Writes the text of a pattern.
pub fn write_pattern(p: &Pattern, out: &mut String)
    ensures
        final(out)@ == old(out)@ + pattern_text(*p),
    decreases *p, 1int,
{
    match p {
        Pattern::Literal(v, _) => write_literal(v, out),
        Pattern::Identifier(name, _) => out.append(name.as_str()),
        Pattern::Tuple(ps, _) => {
            out.append("(");
            write_patterns(ps, out);
            out.append(")");
            assert(out@ =~= old(out)@ + pattern_text(*p));
        },
        Pattern::Constructor { name, arguments, .. } => {
            out.append(name.as_str());
            if arguments.len() > 0 {
                out.append("(");
                write_patterns(arguments, out);
                out.append(")");
            }
            assert(out@ =~= old(out)@ + pattern_text(*p));
        },
        Pattern::Wildcard(_) => out.append("_"),
    }
}

/// The text of a pattern: a literal, a name, `(p, q)`, `C` or `C(p, q)`, `_`.
pub fn pattern_to_string(p: &Pattern) -> (s: String)
    ensures
        s@ == pattern_text(*p),
{
    let mut s = String::new();
    write_pattern(p, &mut s);
    assert(s@ =~= pattern_text(*p));
    s
}

/// The symbol of a binary operator.
pub open spec fn op_text(op: BinaryOperator) -> Seq<char> {
    match op {
        BinaryOperator::Add => "+"@,
        BinaryOperator::Sub => "-"@,
        BinaryOperator::Mul => "*"@,
        BinaryOperator::Div => "/"@,
        BinaryOperator::Mod => "%"@,
        BinaryOperator::Eq => "=="@,
        BinaryOperator::Neq => "!="@,
        BinaryOperator::Lt => "<"@,
        BinaryOperator::Gt => ">"@,
        BinaryOperator::Lte => "<="@,
        BinaryOperator::Gte => ">="@,
        BinaryOperator::And => "&&"@,
        BinaryOperator::Or => "||"@,
    }
}

/// The symbol of a binary operator.
pub fn op_to_string(op: &BinaryOperator) -> (r: &'static str)
    ensures
        r@ == op_text(*op),
{
    match op {
        BinaryOperator::Add => "+",
        BinaryOperator::Sub => "-",
        BinaryOperator::Mul => "*",
        BinaryOperator::Div => "/",
        BinaryOperator::Mod => "%",
        BinaryOperator::Eq => "==",
        BinaryOperator::Neq => "!=",
        BinaryOperator::Lt => "<",
        BinaryOperator::Gt => ">",
        BinaryOperator::Lte => "<=",
        BinaryOperator::Gte => ">=",
        BinaryOperator::And => "&&",
        BinaryOperator::Or => "||",
    }
}

/// The symbol of a unary operator.
pub open spec fn unary_op_text(op: UnaryOperator) -> Seq<char> {
    match op {
        UnaryOperator::Neg => "-"@,
        UnaryOperator::Not => "!"@,
    }
}

/// The symbol of a unary operator.
pub fn unary_op_to_string(op: &UnaryOperator) -> (r: &'static str)
    ensures
        r@ == unary_op_text(*op),
{
    match op {
        UnaryOperator::Neg => "-",
        UnaryOperator::Not => "!",
    }
}

// ---------------------------------------------------------------------------
// Expressions, declarations and statements
// ---------------------------------------------------------------------------

/// `: Type` when there is a type annotation.
pub open spec fn annotation_text(t: Option<Type>) -> Seq<char> {
    match t {
        Some(t) => ": "@ + type_text(t),
        None => Seq::empty(),
    }
}

fn write_annotation(t: &Option<Type>, out: &mut String)
    ensures
        final(out)@ == old(out)@ + annotation_text(*t),
{
    match t {
        Some(ty) => {
            out.append(": ");
            write_type(ty, out);
            assert(out@ =~= old(out)@ + annotation_text(*t));
        },
        None => {
            assert(out@ =~= old(out)@ + annotation_text(*t));
        },
    }
}

/// A parameter: its name, then `: Type` when it has one.
pub open spec fn param_text(p: Parameter) -> Seq<char> {
    p.name@ + annotation_text(p.type_annotation)
}

/// The texts of a sequence of parameters.
pub open spec fn param_texts(ps: Seq<Parameter>) -> Seq<Seq<char>> {
    Seq::new(ps.len(), |i: int| param_text(ps[i]))
}

fn write_params(ps: &Vec<Parameter>, out: &mut String)
    ensures
        final(out)@ == old(out)@ + join(param_texts(ps@), ", "@),
{
    let mut i: usize = 0;
    while i < ps.len()
        invariant
            i <= ps@.len(),
            out@ == old(out)@ + join(param_texts(ps@).take(i as int), ", "@),
        decreases ps@.len() - i,
    {
        proof {
            lemma_join_step(param_texts(ps@), ", "@, i as int);
        }
        let ghost before = out@;
        if i > 0 {
            out.append(", ");
        }
        out.append(ps[i].name.as_str());
        write_annotation(&ps[i].type_annotation, out);
        assert(out@ == old(out)@ + join(param_texts(ps@).take(i + 1), ", "@)) by {
            if i > 0 {
                assert(out@ =~= before + ", "@ + param_text(ps@[i as int]));
            } else {
                assert(out@ =~= before + param_text(ps@[i as int]));
            }
        }
        i = i + 1;
    }
    assert(param_texts(ps@).take(ps@.len() as int) =~= param_texts(ps@));
}

/// The brackets around a comprehension of the given kind: `[ ]`, `{ }`, `#{ }`.
pub open spec fn comprehension_open(k: ComprehensionKind) -> Seq<char> {
    match k {
        ComprehensionKind::List => "["@,
        ComprehensionKind::MapOf => "{"@,
        ComprehensionKind::SetOf => "#{"@,
    }
}

/// The closing bracket of a comprehension of the given kind.
pub open spec fn comprehension_close(k: ComprehensionKind) -> Seq<char> {
    match k {
        ComprehensionKind::List => "]"@,
        _ => "}"@,
    }
}

/// The texts of a sequence of expressions.
pub open spec fn expr_texts(es: Seq<Expr>) -> Seq<Seq<char>>
    decreases es,
{
    Seq::new(es.len(), |i: int| if 0 <= i < es.len() { expr_text(es[i]) } else { Seq::empty() })
}

/// The texts of map entries: `key -> value`.
pub open spec fn entry_texts(es: Seq<(Expr, Expr)>) -> Seq<Seq<char>>
    decreases es,
{
    Seq::new(
        es.len(),
        |i: int|
            if 0 <= i < es.len() {
                expr_text(es[i].0) + " -> "@ + expr_text(es[i].1)
            } else {
                Seq::empty()
            },
    )
}

/// The texts of match cases: `pattern => body`, or `pattern if guard => body`.
pub open spec fn case_texts(cs: Seq<(Pattern, Option<Expr>, Expr)>) -> Seq<Seq<char>>
    decreases cs,
{
    Seq::new(
        cs.len(),
        |i: int|
            if 0 <= i < cs.len() {
                pattern_text(cs[i].0) + match cs[i].1 {
                    Some(g) => " if "@ + expr_text(g),
                    None => Seq::empty(),
                } + " => "@ + expr_text(cs[i].2)
            } else {
                Seq::empty()
            },
    )
}

/// The texts of `bind` bindings: `pattern <- expression`.
pub open spec fn bind_texts(bs: Seq<(Pattern, Expr)>) -> Seq<Seq<char>>
    decreases bs,
{
    Seq::new(
        bs.len(),
        |i: int|
            if 0 <= i < bs.len() {
                pattern_text(bs[i].0) + " <- "@ + expr_text(bs[i].1)
            } else {
                Seq::empty()
            },
    )
}

/// The texts of `with` bindings: `alias = instance`, then `: Type` when there is one.
pub open spec fn with_texts(bs: Seq<WithBinding>) -> Seq<Seq<char>>
    decreases bs,
{
    Seq::new(
        bs.len(),
        |i: int|
            if 0 <= i < bs.len() {
                bs[i].alias@ + " = "@ + expr_text(bs[i].instance) + annotation_text(bs[i].type_annotation)
            } else {
                Seq::empty()
            },
    )
}

/// The texts of the items of a block.
pub open spec fn item_texts(items: Seq<BlockItem>) -> Seq<Seq<char>>
    decreases items,
{
    Seq::new(items.len(), |i: int| if 0 <= i < items.len() { item_text(items[i]) } else { Seq::empty() })
}

/// The texts of handler functions: `let name = body`.
pub open spec fn member_texts(ms: Seq<LetHandlerFunction>) -> Seq<Seq<char>>
    decreases ms,
{
    Seq::new(
        ms.len(),
        |i: int|
            if 0 <= i < ms.len() {
                "let "@ + ms[i].name@ + " = "@ + expr_text(ms[i].body)
            } else {
                Seq::empty()
            },
    )
}

/// The text of a block item.
pub open spec fn item_text(it: BlockItem) -> Seq<char>
    decreases it,
{
    match it {
        BlockItem::Declaration(d) => decl_text(d),
        BlockItem::Statement(s) => stmt_text(s),
        BlockItem::Expression(e) => expr_text(e),
    }
}

/// The text of a declaration: `let pattern: T = value`, `var name: T = value`, or
/// `handler E for T { let f = ...; ... }`.
pub open spec fn decl_text(d: Decl) -> Seq<char>
    decreases d,
{
    match d {
        Decl::Let { pattern, type_annotation, value, .. } => "let "@ + pattern_text(pattern) + annotation_text(
            type_annotation,
        ) + " = "@ + expr_text(value),
        Decl::Var { name, type_annotation, value, .. } => "var "@ + name@ + annotation_text(type_annotation)
            + " = "@ + expr_text(value),
        Decl::HandlerDecl(h) => "handler "@ + type_text(h.effect_type) + " for "@ + type_text(h.target_type)
            + " { "@ + join(member_texts(h.members@), "; "@) + " }"@,
    }
}

/// The text of a statement: `return value` or `return`.
pub open spec fn stmt_text(s: Stmt) -> Seq<char>
    decreases s,
{
    match s {
        Stmt::Return { value, .. } => match value {
            Some(e) => "return "@ + expr_text(e),
            None => "return"@,
        },
    }
}

/// The text of an expression. Binary operations are fully parenthesised, a unary
/// operation is `op(operand)`, a function expression is `(params) => body`.
pub open spec fn expr_text(e: Expr) -> Seq<char>
    decreases e,
{
    match e {
        Expr::IntLiteral(v, _) => int_text(v as int),
        Expr::FloatLiteral(t, _) => t@,
        Expr::BoolLiteral(b, _) => bool_text(b),
        Expr::StringLiteral(s, _) => quoted(s@),
        Expr::UnitLiteral(_) => "()"@,
        Expr::ListLiteral { elements, .. } => "["@ + join(expr_texts(elements@), ", "@) + "]"@,
        Expr::MapLiteral { entries, .. } => "{"@ + join(entry_texts(entries@), ", "@) + "}"@,
        Expr::SetLiteral { elements, .. } => "#{"@ + join(expr_texts(elements@), ", "@) + "}"@,
        Expr::TupleLiteral { elements, .. } => "("@ + join(expr_texts(elements@), ", "@) + ")"@,
        Expr::FunctionExpr { parameters, body, .. } => "("@ + match parameters {
            Some(ps) => join(param_texts(ps@), ", "@),
            None => Seq::empty(),
        } + ") => "@ + expr_text(*body),
        Expr::Identifier(name, _) => name@,
        Expr::BinaryOp { left, operator, right, .. } => "("@ + expr_text(*left) + " "@ + op_text(operator)
            + " "@ + expr_text(*right) + ")"@,
        Expr::UnaryOp { operator, expr, .. } => unary_op_text(operator) + "("@ + expr_text(*expr) + ")"@,
        Expr::FunctionCall { function, arguments, .. } => expr_text(*function) + "("@ + join(
            expr_texts(arguments@),
            ", "@,
        ) + ")"@,
        Expr::MemberAccess { object, member, .. } => expr_text(*object) + "."@ + member@,
        Expr::ParenExpr(x, _) => "("@ + expr_text(*x) + ")"@,
        Expr::IfExpr { condition, then_branch, else_branch, .. } => "if "@ + expr_text(*condition) + " "@
            + expr_text(*then_branch) + match else_branch {
            Some(x) => " else "@ + expr_text(*x),
            None => Seq::empty(),
        },
        Expr::MatchExpr { scrutinee, cases, .. } => "match "@ + expr_text(*scrutinee) + " { "@ + join(
            case_texts(cases@),
            ", "@,
        ) + " }"@,
        Expr::CollectionComprehension { kind, output_expr, input_expr, pattern, condition, .. } =>
            comprehension_open(kind) + expr_text(*output_expr) + " for "@ + pattern_text(pattern) + " <- "@
                + expr_text(*input_expr) + match condition {
                Some(c) => " if "@ + expr_text(*c),
                None => Seq::empty(),
            } + comprehension_close(kind),
        Expr::BindExpr { bindings, final_expr, .. } => "bind { "@ + join(bind_texts(bindings@), "; "@)
            + "; "@ + expr_text(*final_expr) + " }"@,
        Expr::WithExpr { bindings, body, .. } => "with "@ + join(with_texts(bindings@), ", "@) + " "@
            + expr_text(*body),
        Expr::BlockExpr { items, .. } => "{ "@ + join(item_texts(items@), "; "@) + " }"@,
        Expr::Assignment { lvalue, rvalue, .. } => expr_text(*lvalue) + " = "@ + expr_text(*rvalue),
    }
}

fn write_exprs(xs: &Vec<Expr>, out: &mut String)
    ensures
        final(out)@ == old(out)@ + join(expr_texts(xs@), ", "@),
    decreases xs@, 0int,
{
    let mut i: usize = 0;
    while i < xs.len()
        invariant
            i <= xs@.len(),
            out@ == old(out)@ + join(expr_texts(xs@).take(i as int), ", "@),
        decreases xs@.len() - i,
    {
        proof {
            assert(decreases_to!(xs@ => xs@[i as int]));
            lemma_join_step(expr_texts(xs@), ", "@, i as int);
        }
        let ghost before = out@;
        if i > 0 {
            out.append(", ");
        }
        let x = &xs[i];
        write_expr(x, out);
        assert(out@ == old(out)@ + join(expr_texts(xs@).take(i + 1), ", "@)) by {
            if i > 0 {
                assert(out@ =~= before + ", "@ + expr_texts(xs@)[i as int]);
            } else {
                assert(out@ =~= before + expr_texts(xs@)[i as int]);
            }
        }
        i = i + 1;
    }
    assert(expr_texts(xs@).take(xs@.len() as int) =~= expr_texts(xs@));
}

fn write_entries(xs: &Vec<(Expr, Expr)>, out: &mut String)
    ensures
        final(out)@ == old(out)@ + join(entry_texts(xs@), ", "@),
    decreases xs@, 0int,
{
    let mut i: usize = 0;
    while i < xs.len()
        invariant
            i <= xs@.len(),
            out@ == old(out)@ + join(entry_texts(xs@).take(i as int), ", "@),
        decreases xs@.len() - i,
    {
        proof {
            assert(decreases_to!(xs@ => xs@[i as int]));
            lemma_join_step(entry_texts(xs@), ", "@, i as int);
        }
        let ghost before = out@;
        if i > 0 {
            out.append(", ");
        }
        let x = &xs[i];
        write_expr(&x.0, out);
        out.append(" -> ");
        write_expr(&x.1, out);
        assert(out@ == old(out)@ + join(entry_texts(xs@).take(i + 1), ", "@)) by {
            if i > 0 {
                assert(out@ =~= before + ", "@ + entry_texts(xs@)[i as int]);
            } else {
                assert(out@ =~= before + entry_texts(xs@)[i as int]);
            }
        }
        i = i + 1;
    }
    assert(entry_texts(xs@).take(xs@.len() as int) =~= entry_texts(xs@));
}

fn write_cases(xs: &Vec<(Pattern, Option<Expr>, Expr)>, out: &mut String)
    ensures
        final(out)@ == old(out)@ + join(case_texts(xs@), ", "@),
    decreases xs@, 0int,
{
    let mut i: usize = 0;
    while i < xs.len()
        invariant
            i <= xs@.len(),
            out@ == old(out)@ + join(case_texts(xs@).take(i as int), ", "@),
        decreases xs@.len() - i,
    {
        proof {
            assert(decreases_to!(xs@ => xs@[i as int]));
            lemma_join_step(case_texts(xs@), ", "@, i as int);
        }
        let ghost before = out@;
        if i > 0 {
            out.append(", ");
        }
        let x = &xs[i];
        write_pattern(&x.0, out);
        match &x.1 {
            Some(g) => {
                out.append(" if ");
                write_expr(g, out);
            },
            None => {},
        }
        out.append(" => ");
        write_expr(&x.2, out);
        assert(out@ == old(out)@ + join(case_texts(xs@).take(i + 1), ", "@)) by {
            if i > 0 {
                assert(out@ =~= before + ", "@ + case_texts(xs@)[i as int]);
            } else {
                assert(out@ =~= before + case_texts(xs@)[i as int]);
            }
        }
        i = i + 1;
    }
    assert(case_texts(xs@).take(xs@.len() as int) =~= case_texts(xs@));
}

fn write_binds(xs: &Vec<(Pattern, Expr)>, out: &mut String)
    ensures
        final(out)@ == old(out)@ + join(bind_texts(xs@), "; "@),
    decreases xs@, 0int,
{
    let mut i: usize = 0;
    while i < xs.len()
        invariant
            i <= xs@.len(),
            out@ == old(out)@ + join(bind_texts(xs@).take(i as int), "; "@),
        decreases xs@.len() - i,
    {
        proof {
            assert(decreases_to!(xs@ => xs@[i as int]));
            lemma_join_step(bind_texts(xs@), "; "@, i as int);
        }
        let ghost before = out@;
        if i > 0 {
            out.append("; ");
        }
        let x = &xs[i];
        write_pattern(&x.0, out);
        out.append(" <- ");
        write_expr(&x.1, out);
        assert(out@ == old(out)@ + join(bind_texts(xs@).take(i + 1), "; "@)) by {
            if i > 0 {
                assert(out@ =~= before + "; "@ + bind_texts(xs@)[i as int]);
            } else {
                assert(out@ =~= before + bind_texts(xs@)[i as int]);
            }
        }
        i = i + 1;
    }
    assert(bind_texts(xs@).take(xs@.len() as int) =~= bind_texts(xs@));
}

fn write_withs(xs: &Vec<WithBinding>, out: &mut String)
    ensures
        final(out)@ == old(out)@ + join(with_texts(xs@), ", "@),
    decreases xs@, 0int,
{
    let mut i: usize = 0;
    while i < xs.len()
        invariant
            i <= xs@.len(),
            out@ == old(out)@ + join(with_texts(xs@).take(i as int), ", "@),
        decreases xs@.len() - i,
    {
        proof {
            assert(decreases_to!(xs@ => xs@[i as int]));
            lemma_join_step(with_texts(xs@), ", "@, i as int);
        }
        let ghost before = out@;
        if i > 0 {
            out.append(", ");
        }
        let x = &xs[i];
        out.append(x.alias.as_str());
        out.append(" = ");
        write_expr(&x.instance, out);
        write_annotation(&x.type_annotation, out);
        assert(out@ == old(out)@ + join(with_texts(xs@).take(i + 1), ", "@)) by {
            if i > 0 {
                assert(out@ =~= before + ", "@ + with_texts(xs@)[i as int]);
            } else {
                assert(out@ =~= before + with_texts(xs@)[i as int]);
            }
        }
        i = i + 1;
    }
    assert(with_texts(xs@).take(xs@.len() as int) =~= with_texts(xs@));
}

fn write_items(xs: &Vec<BlockItem>, out: &mut String)
    ensures
        final(out)@ == old(out)@ + join(item_texts(xs@), "; "@),
    decreases xs@, 0int,
{
    let mut i: usize = 0;
    while i < xs.len()
        invariant
            i <= xs@.len(),
            out@ == old(out)@ + join(item_texts(xs@).take(i as int), "; "@),
        decreases xs@.len() - i,
    {
        proof {
            assert(decreases_to!(xs@ => xs@[i as int]));
            lemma_join_step(item_texts(xs@), "; "@, i as int);
        }
        let ghost before = out@;
        if i > 0 {
            out.append("; ");
        }
        let x = &xs[i];
        write_item(x, out);
        assert(out@ == old(out)@ + join(item_texts(xs@).take(i + 1), "; "@)) by {
            if i > 0 {
                assert(out@ =~= before + "; "@ + item_texts(xs@)[i as int]);
            } else {
                assert(out@ =~= before + item_texts(xs@)[i as int]);
            }
        }
        i = i + 1;
    }
    assert(item_texts(xs@).take(xs@.len() as int) =~= item_texts(xs@));
}

fn write_members(xs: &Vec<LetHandlerFunction>, out: &mut String)
    ensures
        final(out)@ == old(out)@ + join(member_texts(xs@), "; "@),
    decreases xs@, 0int,
{
    let mut i: usize = 0;
    while i < xs.len()
        invariant
            i <= xs@.len(),
            out@ == old(out)@ + join(member_texts(xs@).take(i as int), "; "@),
        decreases xs@.len() - i,
    {
        proof {
            assert(decreases_to!(xs@ => xs@[i as int]));
            lemma_join_step(member_texts(xs@), "; "@, i as int);
        }
        let ghost before = out@;
        if i > 0 {
            out.append("; ");
        }
        let x = &xs[i];
        out.append("let ");
        out.append(x.name.as_str());
        out.append(" = ");
        write_expr(&x.body, out);
        assert(out@ == old(out)@ + join(member_texts(xs@).take(i + 1), "; "@)) by {
            if i > 0 {
                assert(out@ =~= before + "; "@ + member_texts(xs@)[i as int]);
            } else {
                assert(out@ =~= before + member_texts(xs@)[i as int]);
            }
        }
        i = i + 1;
    }
    assert(member_texts(xs@).take(xs@.len() as int) =~= member_texts(xs@));
}

/// Writes the text of a block item.
pub fn write_item(it: &BlockItem, out: &mut String)
    ensures
        final(out)@ == old(out)@ + item_text(*it),
    decreases *it, 1int,
{
    match it {
        BlockItem::Declaration(d) => write_decl(d, out),
        BlockItem::Statement(s) => write_stmt(s, out),
        BlockItem::Expression(e) => write_expr(e, out),
    }
}

/// Writes the text of a declaration.
pub fn write_decl(d: &Decl, out: &mut String)
    ensures
        final(out)@ == old(out)@ + decl_text(*d),
    decreases *d, 1int,
{
    match d {
        Decl::Let { pattern, type_annotation, value, .. } => {
            out.append("let ");
            write_pattern(pattern, out);
            write_annotation(type_annotation, out);
            out.append(" = ");
            write_expr(value, out);
        },
        Decl::Var { name, type_annotation, value, .. } => {
            out.append("var ");
            out.append(name.as_str());
            write_annotation(type_annotation, out);
            out.append(" = ");
            write_expr(value, out);
        },
        Decl::HandlerDecl(h) => {
            out.append("handler ");
            write_type(&h.effect_type, out);
            out.append(" for ");
            write_type(&h.target_type, out);
            out.append(" { ");
            write_members(&h.members, out);
            out.append(" }");
        },
    }
    assert(out@ =~= old(out)@ + decl_text(*d));
}

/// Writes the text of a statement.
pub fn write_stmt(s: &Stmt, out: &mut String)
    ensures
        final(out)@ == old(out)@ + stmt_text(*s),
    decreases *s, 1int,
{
    match s {
        Stmt::Return { value, .. } => match value {
            Some(e) => {
                out.append("return ");
                write_expr(e, out);
            },
            None => out.append("return"),
        },
    }
    assert(out@ =~= old(out)@ + stmt_text(*s));
}

/// Writes the text of an expression.
#[verifier::spinoff_prover]
#[verifier::rlimit(40)]
pub fn write_expr(e: &Expr, out: &mut String)
    ensures
        final(out)@ == old(out)@ + expr_text(*e),
    decreases *e, 1int,
{
    match e {
        Expr::IntLiteral(v, _) => write_int(*v, out),
        Expr::FloatLiteral(t, _) => out.append(t.as_str()),
        Expr::BoolLiteral(b, _) => write_bool(*b, out),
        Expr::StringLiteral(s, _) => write_quoted(s, out),
        Expr::UnitLiteral(_) => out.append("()"),
        Expr::ListLiteral { elements, .. } => {
            out.append("[");
            write_exprs(elements, out);
            out.append("]");
            assert(out@ =~= old(out)@ + expr_text(*e));
        },
        Expr::MapLiteral { entries, .. } => {
            out.append("{");
            write_entries(entries, out);
            out.append("}");
            assert(out@ =~= old(out)@ + expr_text(*e));
        },
        Expr::SetLiteral { elements, .. } => {
            out.append("#{");
            write_exprs(elements, out);
            out.append("}");
            assert(out@ =~= old(out)@ + expr_text(*e));
        },
        Expr::TupleLiteral { elements, .. } => {
            out.append("(");
            write_exprs(elements, out);
            out.append(")");
            assert(out@ =~= old(out)@ + expr_text(*e));
        },
        Expr::FunctionExpr { parameters, body, .. } => {
            out.append("(");
            match parameters {
                Some(ps) => write_params(ps, out),
                None => {},
            }
            out.append(") => ");
            write_expr(body, out);
            assert(out@ =~= old(out)@ + expr_text(*e));
        },
        Expr::Identifier(name, _) => out.append(name.as_str()),
        Expr::BinaryOp { left, operator, right, .. } => {
            out.append("(");
            write_expr(left, out);
            out.append(" ");
            out.append(op_to_string(operator));
            out.append(" ");
            write_expr(right, out);
            out.append(")");
            assert(out@ =~= old(out)@ + expr_text(*e));
        },
        Expr::UnaryOp { operator, expr, .. } => {
            out.append(unary_op_to_string(operator));
            out.append("(");
            write_expr(expr, out);
            out.append(")");
            assert(out@ =~= old(out)@ + expr_text(*e));
        },
        Expr::FunctionCall { function, arguments, .. } => {
            write_expr(function, out);
            out.append("(");
            write_exprs(arguments, out);
            out.append(")");
            assert(out@ =~= old(out)@ + expr_text(*e));
        },
        Expr::MemberAccess { object, member, .. } => {
            write_expr(object, out);
            out.append(".");
            out.append(member.as_str());
            assert(out@ =~= old(out)@ + expr_text(*e));
        },
        Expr::ParenExpr(x, _) => {
            out.append("(");
            write_expr(x, out);
            out.append(")");
            assert(out@ =~= old(out)@ + expr_text(*e));
        },
        Expr::IfExpr { condition, then_branch, else_branch, .. } => {
            out.append("if ");
            write_expr(condition, out);
            out.append(" ");
            write_expr(then_branch, out);
            match else_branch {
                Some(x) => {
                    out.append(" else ");
                    write_expr(x, out);
                },
                None => {},
            }
            assert(out@ =~= old(out)@ + expr_text(*e));
        },
        Expr::MatchExpr { scrutinee, cases, .. } => {
            out.append("match ");
            write_expr(scrutinee, out);
            out.append(" { ");
            write_cases(cases, out);
            out.append(" }");
            assert(out@ =~= old(out)@ + expr_text(*e));
        },
        Expr::CollectionComprehension { kind, output_expr, input_expr, pattern, condition, .. } => {
            match kind {
                ComprehensionKind::List => out.append("["),
                ComprehensionKind::MapOf => out.append("{"),
                ComprehensionKind::SetOf => out.append("#{"),
            }
            write_expr(output_expr, out);
            out.append(" for ");
            write_pattern(pattern, out);
            out.append(" <- ");
            write_expr(input_expr, out);
            match condition {
                Some(c) => {
                    out.append(" if ");
                    write_expr(c, out);
                },
                None => {},
            }
            match kind {
                ComprehensionKind::List => out.append("]"),
                _ => out.append("}"),
            }
            assert(out@ =~= old(out)@ + expr_text(*e));
        },
        Expr::BindExpr { bindings, final_expr, .. } => {
            out.append("bind { ");
            write_binds(bindings, out);
            out.append("; ");
            write_expr(final_expr, out);
            out.append(" }");
            assert(out@ =~= old(out)@ + expr_text(*e));
        },
        Expr::WithExpr { bindings, body, .. } => {
            out.append("with ");
            write_withs(bindings, out);
            out.append(" ");
            write_expr(body, out);
            assert(out@ =~= old(out)@ + expr_text(*e));
        },
        Expr::BlockExpr { items, .. } => {
            out.append("{ ");
            write_items(items, out);
            out.append(" }");
            assert(out@ =~= old(out)@ + expr_text(*e));
        },
        Expr::Assignment { lvalue, rvalue, .. } => {
            write_expr(lvalue, out);
            out.append(" = ");
            write_expr(rvalue, out);
            assert(out@ =~= old(out)@ + expr_text(*e));
        },
    }
}

/// The text of an expression. Binary operations are fully parenthesised, a unary
/// operation is `op(operand)`, a function expression is `(params) => body`, a map
/// literal is `{k -> v, ...}` and a set literal `#{a, ...}`.
pub fn expr_to_string(e: &Expr) -> (s: String)
    ensures
        s@ == expr_text(*e),
{
    let mut s = String::new();
    write_expr(e, &mut s);
    assert(s@ =~= expr_text(*e));
    s
}

/// The text of a declaration: `let pattern: T = value`, `var name: T = value`, or
/// `handler E for T { let f = ...; ... }`.
pub fn decl_to_string(d: &Decl) -> (s: String)
    ensures
        s@ == decl_text(*d),
{
    let mut s = String::new();
    write_decl(d, &mut s);
    assert(s@ =~= decl_text(*d));
    s
}

/// The text of a statement: `return value` or `return`.
pub fn stmt_to_string(st: &Stmt) -> (s: String)
    ensures
        s@ == stmt_text(*st),
{
    let mut s = String::new();
    write_stmt(st, &mut s);
    assert(s@ =~= stmt_text(*st));
    s
}

// ---------------------------------------------------------------------------
// Programs
// ---------------------------------------------------------------------------

/// The lines that describe a program: the number of its top-level declarations, a
/// line `宣言 #n: ...` for each of them, the number of its top-level expressions (its
/// statements), and a line `文 #n: ...` for each of them, numbered from 1.
pub open spec fn program_line_texts(p: Program) -> Seq<Seq<char>> {
    let ds = p.declarations@;
    let xs = p.expressions@;
    seq!["宣言数: "@ + nat_text(ds.len())] + Seq::new(
        ds.len(),
        |i: int| "宣言 #"@ + nat_text((i + 1) as nat) + ": "@ + decl_text(ds[i]),
    ) + seq!["文数: "@ + nat_text(xs.len())] + Seq::new(
        xs.len(),
        |i: int| "文 #"@ + nat_text((i + 1) as nat) + ": "@ + expr_text(xs[i]),
    )
}

/// The lines that describe a program (see `program_line_texts`), in order.
pub fn program_lines(p: &Program) -> (lines: Vec<String>)
    ensures
        lines@.len() == program_line_texts(*p).len(),
        forall|i: int| 0 <= i < lines@.len() ==> #[trigger] lines@[i]@ == program_line_texts(*p)[i],
{
    let ghost want = program_line_texts(*p);
    let ghost nd: int = p.declarations@.len() as int;
    let ghost nx: int = p.expressions@.len() as int;
    let mut lines: Vec<String> = Vec::new();
    let mut head = String::new();
    head.append("宣言数: ");
    write_nat(p.declarations.len() as u64, &mut head);
    lines.push(head);
    assert(lines@[0]@ =~= want[0]);
    let mut i: usize = 0;
    while i < p.declarations.len()
        invariant
            i <= nd,
            nd == p.declarations@.len(),
            nx == p.expressions@.len(),
            want == program_line_texts(*p),
            want.len() == nd + nx + 2,
            lines@.len() == i + 1,
            forall|k: int| 0 <= k < lines@.len() ==> #[trigger] lines@[k]@ == want[k],
        decreases nd - i,
    {
        let mut line = String::new();
        line.append("宣言 #");
        write_nat((i + 1) as u64, &mut line);
        line.append(": ");
        write_decl(&p.declarations[i], &mut line);
        lines.push(line);
        assert(lines@[i + 1]@ =~= want[i + 1]);
        i = i + 1;
    }
    let mut mid = String::new();
    mid.append("文数: ");
    write_nat(p.expressions.len() as u64, &mut mid);
    lines.push(mid);
    assert(lines@[nd + 1]@ =~= want[nd + 1]);
    let mut j: usize = 0;
    while j < p.expressions.len()
        invariant
            j <= nx,
            nd == p.declarations@.len(),
            nx == p.expressions@.len(),
            want == program_line_texts(*p),
            want.len() == nd + nx + 2,
            lines@.len() == nd + 2 + j,
            forall|k: int| 0 <= k < lines@.len() ==> #[trigger] lines@[k]@ == want[k],
        decreases nx - j,
    {
        let mut line = String::new();
        line.append("文 #");
        write_nat((j + 1) as u64, &mut line);
        line.append(": ");
        write_expr(&p.expressions[j], &mut line);
        lines.push(line);
        assert(lines@[nd + 2 + j]@ =~= want[nd + 2 + j]);
        j = j + 1;
    }
    lines
}

} // verus!
