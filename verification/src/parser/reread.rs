//! Reading a printed type back: the text that `type_to_string` gives for a type built
//! from names, generic applications, arrays, references, owned types and function
//! types is read by the type parser as the same type, up to spans.
use vstd::prelude::*;
use vstd::string::StringSliceAdditionalSpecFns;
use crate::ast::{Type, TypeModel, types_model};
use crate::parser::common::{
    Parsed, ws_end, ws_lit, ident_at, ident_rest, ident_byte, ident_start_byte, ascii_text, lit_at,
    space_byte, comment_end, lemma_ws_end, no_span,
};
use crate::parser::types::{
    type_at, type_list_at, type_list_more_at, lit_own, lit_mut, lit_arrow, lit_amp,
    generic_args_at, effect_type_at, name_at,
};
use crate::printer::{type_text, type_texts, join};

verus! {

/// The bytes of ASCII characters.
pub open spec fn ascii_bytes(cs: Seq<char>) -> Seq<u8> {
    Seq::new(cs.len(), |i: int| cs[i] as u8)
}

/// A name that the type parser reads back as itself: an identifier of ASCII letters,
/// digits and `_`, not starting with a digit, that does not start with `own` or `mut`.
pub open spec fn good_name(nm: Seq<char>) -> bool {
    let b = ascii_bytes(nm);
    &&& b.len() > 0
    &&& ident_start_byte(b[0])
    &&& forall|i: int| 0 <= i < b.len() ==> #[trigger] ident_byte(b[i])
    &&& ascii_text(b) == nm
    &&& !lit_at(b, 0, lit_own())
    &&& !lit_at(b, 0, lit_mut())
}

/// The types whose printed text the type parser reads back: names, generic
/// applications with at least one argument, arrays, references, owned types and
/// function types, all built from such types and good names.
pub open spec fn rereadable(t: Type) -> bool
    decreases t,
{
    match t {
        Type::Simple { name, .. } => good_name(name@),
        Type::Function { parameters, return_type, .. } => all_rereadable(parameters@) && rereadable(*return_type),
        Type::Array { element_type, .. } => rereadable(*element_type),
        Type::Tuple { .. } => false,
        Type::Generic { base_type, type_arguments, .. } => good_name(base_type@) && type_arguments@.len() > 0
            && all_rereadable(type_arguments@),
        Type::Reference { referenced_type, .. } => rereadable(*referenced_type),
        Type::Owned { owned_type, .. } => rereadable(*owned_type),
        Type::WithEffect { .. } => false,
    }
}

/// Every type of the sequence is rereadable.
pub open spec fn all_rereadable(ts: Seq<Type>) -> bool
    decreases ts,
{
    if ts.len() == 0 {
        true
    } else {
        rereadable(ts[0]) && all_rereadable(ts.drop_first())
    }
}

/// A type model with every span replaced by the same empty span.
pub open spec fn erase(m: TypeModel) -> TypeModel
    decreases m,
{
    match m {
        TypeModel::Simple { name, .. } => TypeModel::Simple { name, span: no_span() },
        TypeModel::Function { parameters, return_type, .. } => TypeModel::Function {
            parameters: erase_all(parameters),
            return_type: Box::new(erase(*return_type)),
            span: no_span(),
        },
        TypeModel::Array { element_type, .. } => TypeModel::Array {
            element_type: Box::new(erase(*element_type)),
            span: no_span(),
        },
        TypeModel::Tuple { element_types, .. } => TypeModel::Tuple {
            element_types: erase_all(element_types),
            span: no_span(),
        },
        TypeModel::Generic { base_type, type_arguments, .. } => TypeModel::Generic {
            base_type,
            type_arguments: erase_all(type_arguments),
            span: no_span(),
        },
        TypeModel::Reference { is_mutable, referenced_type, .. } => TypeModel::Reference {
            is_mutable,
            referenced_type: Box::new(erase(*referenced_type)),
            span: no_span(),
        },
        TypeModel::Owned { owned_type, .. } => TypeModel::Owned {
            owned_type: Box::new(erase(*owned_type)),
            span: no_span(),
        },
        TypeModel::WithEffect { base_type, effect_type, .. } => TypeModel::WithEffect {
            base_type: Box::new(erase(*base_type)),
            effect_type: Box::new(erase(*effect_type)),
            span: no_span(),
        },
    }
}

/// The models of a sequence with every span erased.
pub open spec fn erase_all(ms: Seq<TypeModel>) -> Seq<TypeModel>
    decreases ms,
{
    Seq::new(ms.len(), |i: int| if 0 <= i < ms.len() { erase(ms[i]) } else { ms[i] })
}

/// The text of the types after the first in a list: each after `, `.
pub open spec fn tail_text(us: Seq<Type>) -> Seq<char>
    decreases us.len(),
{
    if us.len() == 0 {
        Seq::empty()
    } else {
        ", "@ + type_text(us[0]) + tail_text(us.drop_first())
    }
}

/// Whether the type text that ends at `e` is closed there: after white space comes the
/// end of the input or one of `,`, `>`, `)`, `]`.
pub open spec fn closes(s: Seq<u8>, e: int) -> bool {
    let q = ws_end(s, e);
    q >= s.len() || s[q] == 44u8 || s[q] == 62u8 || s[q] == 41u8 || s[q] == 93u8
}

// ---------------------------------------------------------------------------
// Lemmas on bytes and text.
// ---------------------------------------------------------------------------

proof fn lemma_bytes_add(a: Seq<char>, b: Seq<char>)
    ensures
        ascii_bytes(a + b) == ascii_bytes(a) + ascii_bytes(b),
{
    assert(ascii_bytes(a + b) =~= ascii_bytes(a) + ascii_bytes(b));
}

proof fn lemma_tail_push(us: Seq<Type>, u: Type)
    ensures
        tail_text(us.push(u)) == tail_text(us) + ", "@ + type_text(u),
    decreases us.len(),
{
    reveal_with_fuel(tail_text, 2);
    if us.len() == 0 {
        assert(us.push(u).drop_first() =~= Seq::<Type>::empty());
        assert(tail_text(us.push(u)) =~= tail_text(us) + ", "@ + type_text(u));
    } else {
        assert(us.push(u).drop_first() =~= us.drop_first().push(u));
        lemma_tail_push(us.drop_first(), u);
        assert(tail_text(us.push(u)) =~= tail_text(us) + ", "@ + type_text(u));
    }
}

proof fn lemma_join_front(ts: Seq<Type>)
    requires
        ts.len() >= 1,
    ensures
        join(type_texts(ts), ", "@) == type_text(ts[0]) + tail_text(ts.drop_first()),
    decreases ts.len(),
{
    if ts.len() == 1 {
        assert(ts.drop_first() =~= Seq::<Type>::empty());
        assert(type_text(ts[0]) + tail_text(ts.drop_first()) =~= type_text(ts[0]));
    } else {
        let init = ts.drop_last();
        assert(type_texts(ts).drop_last() =~= type_texts(init));
        lemma_join_front(init);
        assert(ts.drop_first() =~= init.drop_first().push(ts.last()));
        lemma_tail_push(init.drop_first(), ts.last());
        assert(init[0] == ts[0]);
        assert(join(type_texts(ts), ", "@) =~= type_text(ts[0]) + tail_text(ts.drop_first()));
    }
}

/// Where a byte that starts no white space and no comment stands, white space ends.
proof fn lemma_ws_here(s: Seq<u8>, p: int)
    requires
        0 <= p,
        p >= s.len() || (!space_byte(s[p]) && s[p] != 47u8),
    ensures
        ws_end(s, p) == p,
{
    if p < s.len() {
        assert(comment_end(s, p) is None);
    }
}

/// One space, then a byte that starts no white space and no comment.
proof fn lemma_ws_one_space(s: Seq<u8>, p: int)
    requires
        0 <= p,
        p + 1 < s.len(),
        s[p] == 32u8,
        !space_byte(s[p + 1]),
        s[p + 1] != 47u8,
    ensures
        ws_end(s, p) == p + 1,
{
    lemma_ws_here(s, p + 1);
}

/// An identifier that runs up to `end`.
proof fn lemma_ident_run(s: Seq<u8>, i: int, end: int)
    requires
        0 <= i <= end <= s.len(),
        forall|k: int| i <= k < end ==> #[trigger] ident_byte(s[k]),
        end < s.len() ==> !ident_byte(s[end]),
    ensures
        ident_rest(s, i) == end,
    decreases end - i,
{
    if i < end {
        lemma_ident_run(s, i + 1, end);
    }
}

/// The first byte of a printed rereadable type, and its length.
proof fn lemma_first_byte(t: Type)
    requires
        rereadable(t),
    ensures
        ascii_bytes(type_text(t)).len() >= 1,
        ({
            let b = ascii_bytes(type_text(t))[0];
            ident_start_byte(b) || b == 40u8 || b == 91u8 || b == 38u8
        }),
        !(t is Owned) ==> !lit_at(ascii_bytes(type_text(t)), 0, lit_own()),
{
    reveal_strlit("(");
    reveal_strlit("[");
    reveal_strlit("&");
    reveal_strlit("&mut ");
    reveal_strlit("own ");
    reveal_strlit("<");
    match t {
        Type::Simple { name, .. } => {},
        Type::Generic { base_type, type_arguments, .. } => {
            let nb = ascii_bytes(base_type@);
            let tx = type_text(t);
            assert(ascii_bytes(tx)[0] == nb[0]);
            if lit_at(ascii_bytes(tx), 0, lit_own()) {
                if nb.len() >= 3 {
                    assert(nb.subrange(0, 3) =~= ascii_bytes(tx).subrange(0, 3));
                } else {
                    assert(ascii_bytes(tx)[nb.len() as int] == 60u8);
                    assert(ascii_bytes(tx).subrange(0, 3)[nb.len() as int] == lit_own()[nb.len() as int]);
                }
            }
        },
        _ => {},
    }
}

// ---------------------------------------------------------------------------
// Reading printed types back.
// ---------------------------------------------------------------------------

/// A good name at `p` that ends before a byte that cannot continue an identifier does
/// not start with `own` or `mut`.
proof fn lemma_name_no_keyword(s: Seq<u8>, p: int, nm: Seq<char>, kw: Seq<u8>)
    requires
        good_name(nm),
        0 <= p,
        p + nm.len() <= s.len(),
        s.subrange(p, p + nm.len()) == ascii_bytes(nm),
        p + nm.len() < s.len() ==> !ident_byte(s[p + nm.len()]),
        kw == lit_own() || kw == lit_mut(),
    ensures
        !lit_at(s, p, kw),
{
    let b = ascii_bytes(nm);
    if lit_at(s, p, kw) {
        if b.len() >= 3 {
            assert(b.subrange(0, 3) =~= s.subrange(p, p + 3));
            assert(lit_at(b, 0, kw));
        } else {
            let n = b.len() as int;
            assert(s.subrange(p, p + 3)[n] == kw[n]);
            assert(ident_byte(kw[n]));
        }
    }
}

/// What the reading of a printed type at `p` relies on: the bytes are there, white
/// space ends where they start, and the text is closed after them.
pub open spec fn ready(s: Seq<u8>, p: int, bt: Seq<u8>, owned: bool) -> bool {
    let end = p + bt.len();
    &&& 0 <= p
    &&& end <= s.len()
    &&& bt.len() >= 1
    &&& s.subrange(p, end) == bt
    &&& forall|k: int| 0 <= k < bt.len() ==> s[p + k] == #[trigger] bt[k]
    &&& ws_end(s, p) == p
    &&& closes(s, end)
    &&& (end < s.len() ==> !ident_byte(s[end]) && s[end] != 38u8 && s[end] != 60u8)
    &&& end <= ws_end(s, end) <= s.len()
    &&& ws_end(s, ws_end(s, end)) == ws_end(s, end)
    &&& (!owned ==> !lit_at(s, p, lit_own()))
}

/// What reading a printed type at `p` gives.
pub open spec fn reread_ok(s: Seq<u8>, p: int, t: Type) -> bool {
    type_at(s, p) matches Parsed::Done(e, m) && e == ws_end(s, p + ascii_bytes(type_text(t)).len())
        && erase(m) == erase(t.model())
}

/// Bytes placed at `a` of `s` inside a text placed at `p`.
proof fn lemma_placed_inside(s: Seq<u8>, p: int, bt: Seq<u8>, off: int, sub: Seq<u8>)
    requires
        0 <= p,
        p + bt.len() <= s.len(),
        forall|k: int| 0 <= k < bt.len() ==> s[p + k] == #[trigger] bt[k],
        0 <= off,
        off + sub.len() <= bt.len(),
        forall|k: int| 0 <= k < sub.len() ==> #[trigger] sub[k] == bt[off + k],
    ensures
        s.subrange(p + off, p + off + sub.len()) == sub,
{
    assert forall|k: int| 0 <= k < sub.len() implies s.subrange(p + off, p + off + sub.len())[k] == sub[k] by {
        assert(sub[k] == bt[off + k]);
        assert(s[p + (off + k)] == bt[off + k]);
    }
    assert(s.subrange(p + off, p + off + sub.len()) =~= sub);
}

/// The bytes of a printed type at `p` of `s`, closed after it, are read by `type_at`
/// as that type (up to spans), up to the white space after it.
pub proof fn lemma_reread(s: Seq<u8>, p: int, t: Type)
    requires
        rereadable(t),
        0 <= p,
        p + ascii_bytes(type_text(t)).len() <= s.len(),
        s.subrange(p, p + ascii_bytes(type_text(t)).len()) == ascii_bytes(type_text(t)),
        closes(s, p + ascii_bytes(type_text(t)).len()),
    ensures
        reread_ok(s, p, t),
    decreases t, 3int,
{
    let tx = type_text(t);
    let bt = ascii_bytes(tx);
    let n = bt.len() as int;
    let end = p + n;
    lemma_first_byte(t);
    assert forall|k: int| 0 <= k < n implies s[p + k] == #[trigger] bt[k] by {
        assert(s.subrange(p, end)[k] == s[p + k]);
    }
    assert(s[p] == bt[0]);
    lemma_ws_here(s, p);
    lemma_ws_end(s, end);
    assert(end < s.len() ==> !ident_byte(s[end]) && s[end] != 38u8 && s[end] != 60u8) by {
        if end < s.len() && (ident_byte(s[end]) || s[end] == 38u8 || s[end] == 60u8) {
            lemma_ws_here(s, end);
        }
    }
    if !(t is Owned) {
        if lit_at(s, p, lit_own()) {
            if n >= 3 {
                assert(s.subrange(p, p + 3) =~= bt.subrange(0, 3));
            } else {
                match t {
                    Type::Simple { name, .. } => {
                        lemma_name_no_keyword(s, p, name@, lit_own());
                    },
                    _ => {
                        assert(false);
                    },
                }
            }
        }
    }
    assert(ready(s, p, bt, t is Owned));
    match t {
        Type::Simple { .. } => lemma_reread_simple(s, p, t),
        Type::Generic { .. } => lemma_reread_generic(s, p, t),
        Type::Array { .. } => lemma_reread_array(s, p, t),
        Type::Reference { .. } => lemma_reread_reference(s, p, t),
        Type::Owned { .. } => lemma_reread_owned(s, p, t),
        Type::Function { .. } => lemma_reread_function(s, p, t),
        _ => {},
    }
}

proof fn lemma_reread_simple(s: Seq<u8>, p: int, t: Type)
    requires
        rereadable(t),
        t is Simple,
        ready(s, p, ascii_bytes(type_text(t)), false),
    ensures
        reread_ok(s, p, t),
    decreases t, 2int,
{
    let name = t->Simple_name;
    let bt = ascii_bytes(type_text(t));
    let end = p + bt.len();
    let q = ws_end(s, end);
    assert(bt =~= ascii_bytes(name@));
    assert forall|k: int| p + 1 <= k < end implies #[trigger] ident_byte(s[k]) by {
        assert(s[p + (k - p)] == bt[k - p]);
    }
    lemma_ident_run(s, p + 1, end);
    assert(s[p] == bt[0]);
    assert(ident_at(s, p) == Some(end));
    assert(name_at(s, p, end) == name@);
    lemma_ws_here(s, q);
    assert(generic_args_at(s, q) matches Parsed::Failed(false, _, _));
    assert(s[p] != 40u8 && s[p] != 91u8 && s[p] != 38u8);
}

proof fn lemma_reread_generic(s: Seq<u8>, p: int, t: Type)
    requires
        rereadable(t),
        t is Generic,
        ready(s, p, ascii_bytes(type_text(t)), false),
    ensures
        reread_ok(s, p, t),
    decreases t, 2int,
{
    reveal_strlit("<");
    reveal_strlit(">");
    let base = t->Generic_base_type;
    let args = t->Generic_type_arguments@;
    let bt = ascii_bytes(type_text(t));
    let end = p + bt.len();
    let q = ws_end(s, end);
    let nb = ascii_bytes(base@);
    let la = ascii_bytes(join(type_texts(args), ", "@));
    lemma_bytes_add(base@ + "<"@ + join(type_texts(args), ", "@), ">"@);
    lemma_bytes_add(base@ + "<"@, join(type_texts(args), ", "@));
    lemma_bytes_add(base@, "<"@);
    let c = p + nb.len();
    assert(bt[nb.len() as int] == 60u8);
    assert(s[c] == 60u8);
    assert forall|k: int| p + 1 <= k < c implies #[trigger] ident_byte(s[k]) by {
        assert(s[p + (k - p)] == bt[k - p]);
        assert(bt[k - p] == nb[k - p]);
    }
    lemma_ident_run(s, p + 1, c);
    assert(s[p] == bt[0]);
    assert forall|k: int| 0 <= k < nb.len() implies #[trigger] nb[k] == bt[0 + k] by {}
    lemma_placed_inside(s, p, bt, 0, nb);
    assert(name_at(s, p, c) == base@);
    lemma_ws_here(s, c);
    let a0 = c + 1;
    assert(decreases_to!(t => t->Generic_type_arguments));
    lemma_join_front(args);
    lemma_bytes_add(type_text(args[0]), tail_text(args.drop_first()));
    assert(all_rereadable(args));
    assert(rereadable(args[0]));
    lemma_first_byte(args[0]);
    assert forall|k: int| 0 <= k < la.len() implies #[trigger] la[k] == bt[nb.len() + 1 + k] by {}
    lemma_placed_inside(s, p, bt, nb.len() + 1int, la);
    assert(s[a0] == la[0]) by {
        assert(s[p + (nb.len() + 1)] == bt[nb.len() + 1int]);
    }
    lemma_ws_here(s, a0);
    let la_end = a0 + la.len();
    assert(s[la_end] == 62u8) by {
        assert(s[p + (bt.len() - 1)] == bt[bt.len() - 1]);
    }
    lemma_reread_list(s, a0, args);
    lemma_ws_here(s, la_end);
    assert(la_end + 1 == end);
    assert(s[p] != 40u8 && s[p] != 91u8 && s[p] != 38u8);
    assert(generic_args_at(s, c) matches Parsed::Done(f, ms) && f == q && ms.len() > 0);
    assert(t.model()->Generic_type_arguments =~= types_model(args));
}

proof fn lemma_reread_array(s: Seq<u8>, p: int, t: Type)
    requires
        rereadable(t),
        t is Array,
        ready(s, p, ascii_bytes(type_text(t)), false),
    ensures
        reread_ok(s, p, t),
    decreases t, 2int,
{
    reveal_strlit("[");
    reveal_strlit("]");
    let et = *t->Array_element_type;
    let bt = ascii_bytes(type_text(t));
    let end = p + bt.len();
    let le = ascii_bytes(type_text(et));
    lemma_bytes_add("["@ + type_text(et), "]"@);
    lemma_bytes_add("["@, type_text(et));
    lemma_first_byte(et);
    assert(s[p] == bt[0]);
    assert forall|k: int| 0 <= k < le.len() implies #[trigger] le[k] == bt[1 + k] by {}
    lemma_placed_inside(s, p, bt, 1, le);
    assert(s[p + 1] == le[0]) by {
        assert(s[p + 1] == bt[1]);
    }
    lemma_ws_here(s, p + 1);
    assert(s[end - 1] == 93u8) by {
        assert(s[p + (bt.len() - 1)] == bt[bt.len() - 1]);
    }
    lemma_ws_here(s, end - 1);
    assert(closes(s, p + 1 + le.len()));
    lemma_reread(s, p + 1, et);
}

proof fn lemma_reread_owned(s: Seq<u8>, p: int, t: Type)
    requires
        rereadable(t),
        t is Owned,
        ready(s, p, ascii_bytes(type_text(t)), true),
    ensures
        reread_ok(s, p, t),
    decreases t, 2int,
{
    reveal_strlit("own ");
    let ot = *t->Owned_owned_type;
    let bt = ascii_bytes(type_text(t));
    let lo = ascii_bytes(type_text(ot));
    lemma_bytes_add("own "@, type_text(ot));
    lemma_first_byte(ot);
    assert forall|k: int| 0 <= k < 3 implies #[trigger] lit_own()[k] == bt[0 + k] by {}
    lemma_placed_inside(s, p, bt, 0, lit_own());
    assert(s[p + 3] == 32u8) by {
        assert(s[p + 3] == bt[3]);
    }
    assert(s[p + 4] == lo[0]) by {
        assert(s[p + 4] == bt[4]);
    }
    lemma_ws_one_space(s, p + 3);
    assert forall|k: int| 0 <= k < lo.len() implies #[trigger] lo[k] == bt[4 + k] by {}
    lemma_placed_inside(s, p, bt, 4, lo);
    lemma_reread(s, p + 4, ot);
}

proof fn lemma_reread_reference(s: Seq<u8>, p: int, t: Type)
    requires
        rereadable(t),
        t is Reference,
        ready(s, p, ascii_bytes(type_text(t)), false),
    ensures
        reread_ok(s, p, t),
    decreases t, 2int,
{
    reveal_strlit("&");
    reveal_strlit("&mut ");
    reveal_strlit("own ");
    reveal_strlit("<");
    let rt = *t->Reference_referenced_type;
    assert(rereadable(rt));
    let bt = ascii_bytes(type_text(t));
    let lr = ascii_bytes(type_text(rt));
    lemma_first_byte(rt);
    assert(s[p] == bt[0]);
    if t->Reference_is_mutable {
        lemma_bytes_add("&mut "@, type_text(rt));
        assert(s[p + 1] == 109u8) by {
            assert(s[p + 1] == bt[1]);
        }
        lemma_ws_here(s, p + 1);
        assert forall|k: int| 0 <= k < 3 implies #[trigger] lit_mut()[k] == bt[1 + k] by {}
        lemma_placed_inside(s, p, bt, 1, lit_mut());
        assert(s[p + 4] == 32u8) by {
            assert(s[p + 4] == bt[4]);
        }
        assert(s[p + 5] == lr[0]) by {
            assert(s[p + 5] == bt[5]);
        }
        lemma_ws_one_space(s, p + 4);
        assert forall|k: int| 0 <= k < lr.len() implies #[trigger] lr[k] == bt[5 + k] by {}
        lemma_placed_inside(s, p, bt, 5, lr);
        lemma_reread(s, p + 5, rt);
    } else {
        lemma_bytes_add("&"@, type_text(rt));
        assert(s[p + 1] == lr[0]) by {
            assert(s[p + 1] == bt[1]);
        }
        lemma_ws_here(s, p + 1);
        assert forall|k: int| 0 <= k < lr.len() implies #[trigger] lr[k] == bt[1 + k] by {}
        lemma_placed_inside(s, p, bt, 1, lr);
        if lit_at(s, p + 1, lit_mut()) {
            match rt {
                Type::Simple { name, .. } => {
                    assert(good_name(name@));
                    assert(lr =~= ascii_bytes(name@));
                    lemma_ws_end(s, p + bt.len());
                    lemma_name_no_keyword(s, p + 1, name@, lit_mut());
                },
                Type::Generic { base_type, type_arguments, .. } => {
                    assert(good_name(base_type@));
                    let nb = ascii_bytes(base_type@);
                    lemma_bytes_add(base_type@ + "<"@ + join(type_texts(type_arguments@), ", "@), ">"@);
                    lemma_bytes_add(base_type@ + "<"@, join(type_texts(type_arguments@), ", "@));
                    lemma_bytes_add(base_type@, "<"@);
                    assert forall|k: int| 0 <= k < nb.len() implies #[trigger] nb[k] == bt[1 + k] by {
                        assert(lr[k] == bt[1 + k]);
                    }
                    lemma_placed_inside(s, p, bt, 1, nb);
                    assert(s[p + 1 + nb.len()] == 60u8) by {
                        assert(lr[nb.len() as int] == 60u8);
                        assert(s[p + (1 + nb.len())] == bt[1int + nb.len()]);
                    }
                    lemma_name_no_keyword(s, p + 1, base_type@, lit_mut());
                },
                Type::Owned { owned_type, .. } => {
                    lemma_bytes_add("own "@, type_text(*owned_type));
                    assert(s[p + 1] == 111u8);
                    assert(s.subrange(p + 1, p + 4)[0] == s[p + 1]);
                },
                _ => {
                    assert(s.subrange(p + 1, p + 4)[0] == s[p + 1]);
                },
            }
        }
        lemma_reread(s, p + 1, rt);
    }
}

#[verifier::spinoff_prover]
#[verifier::rlimit(60)]
proof fn lemma_reread_function(s: Seq<u8>, p: int, t: Type)
    requires
        rereadable(t),
        t is Function,
        ready(s, p, ascii_bytes(type_text(t)), false),
    ensures
        reread_ok(s, p, t),
    decreases t, 2int,
{
    reveal_strlit("(");
    reveal_strlit(") -> ");
    let ps = t->Function_parameters@;
    let rt = *t->Function_return_type;
    let bt = ascii_bytes(type_text(t));
    let end = p + bt.len();
    let q = ws_end(s, end);
    let lp = ascii_bytes(join(type_texts(ps), ", "@));
    let lr = ascii_bytes(type_text(rt));
    lemma_bytes_add("("@ + join(type_texts(ps), ", "@) + ") -> "@, type_text(rt));
    lemma_bytes_add("("@ + join(type_texts(ps), ", "@), ") -> "@);
    lemma_bytes_add("("@, join(type_texts(ps), ", "@));
    assert(s[p] == bt[0]);
    let a0 = p + 1;
    let pe = a0 + lp.len();
    assert forall|k: int| 0 <= k < lp.len() implies #[trigger] lp[k] == bt[1 + k] by {}
    lemma_placed_inside(s, p, bt, 1, lp);
    assert(s[pe] == 41u8) by {
        assert(s[p + (1 + lp.len())] == bt[1int + lp.len()]);
    }
    assert(decreases_to!(t => t->Function_parameters));
    assert(all_rereadable(ps));
    if ps.len() > 0 {
        assert(rereadable(ps[0]));
        lemma_first_byte(ps[0]);
        lemma_join_front(ps);
        lemma_bytes_add(type_text(ps[0]), tail_text(ps.drop_first()));
        assert(s[a0] == lp[0]) by {
            assert(s[p + 1] == bt[1]);
        }
    }
    lemma_ws_here(s, a0);
    lemma_reread_list(s, a0, ps);
    lemma_ws_here(s, pe);
    assert(s[pe + 1] == 32u8 && s[pe + 2] == 45u8 && s[pe + 3] == 62u8 && s[pe + 4] == 32u8) by {
        assert(s[p + (lp.len() + 2)] == bt[lp.len() + 2int]);
        assert(s[p + (lp.len() + 3)] == bt[lp.len() + 3int]);
        assert(s[p + (lp.len() + 4)] == bt[lp.len() + 4int]);
        assert(s[p + (lp.len() + 5)] == bt[lp.len() + 5int]);
    }
    lemma_first_byte(rt);
    let r0 = pe + 5;
    assert(s[r0] == lr[0]) by {
        assert(s[p + (lp.len() + 6)] == bt[lp.len() + 6int]);
    }
    lemma_ws_one_space(s, pe + 1);
    assert(s.subrange(pe + 2, pe + 4) =~= lit_arrow());
    lemma_ws_one_space(s, pe + 4);
    assert forall|k: int| 0 <= k < lr.len() implies #[trigger] lr[k] == bt[lp.len() + 6 + k] by {}
    lemma_placed_inside(s, p, bt, lp.len() + 6int, lr);
    assert(r0 + lr.len() == end);
    lemma_reread(s, r0, rt);
    lemma_ws_here(s, q);
    assert(!lit_at(s, q, lit_amp())) by {
        if q < s.len() {
            assert(s.subrange(q, q + 1)[0] == s[q]);
        }
    }
    assert(ws_lit(s, q, lit_amp()) is None);
    assert(effect_type_at(s, q) matches Parsed::Failed(false, _, _));
    assert(t.model()->Function_parameters =~= types_model(ps));
}

/// The bytes of a printed list of types (`, ` between them) at `p`, followed directly
/// by `)` or `>`, are read by `type_list_at` as those types (up to spans).
pub proof fn lemma_reread_list(s: Seq<u8>, p: int, ts: Seq<Type>)
    requires
        all_rereadable(ts),
        0 <= p,
        p + ascii_bytes(join(type_texts(ts), ", "@)).len() < s.len(),
        s.subrange(p, p + ascii_bytes(join(type_texts(ts), ", "@)).len()) == ascii_bytes(join(type_texts(ts), ", "@)),
        s[p + ascii_bytes(join(type_texts(ts), ", "@)).len()] == 41u8
            || s[p + ascii_bytes(join(type_texts(ts), ", "@)).len()] == 62u8,
    ensures
        type_list_at(s, p) matches Parsed::Done(e, ms) && e == p + ascii_bytes(join(type_texts(ts), ", "@)).len()
            && erase_all(ms) == erase_all(types_model(ts)),
    decreases ts, 2int,
{
    let lt = ascii_bytes(join(type_texts(ts), ", "@));
    let end = p + lt.len();
    if ts.len() == 0 {
        assert(lt.len() == 0);
        lemma_ws_here(s, p);
        assert(type_at(s, p) matches Parsed::Failed(false, _, _));
        assert(erase_all(Seq::<TypeModel>::empty()) =~= erase_all(types_model(ts)));
    } else {
        lemma_join_front(ts);
        let t0 = ts[0];
        let rest = ts.drop_first();
        let l0 = ascii_bytes(type_text(t0));
        let lr = ascii_bytes(tail_text(rest));
        lemma_bytes_add(type_text(t0), tail_text(rest));
        assert(s.subrange(p, p + l0.len()) =~= l0) by {
            assert forall|k: int| 0 <= k < l0.len() implies s.subrange(p, p + l0.len())[k] == l0[k] by {
                assert(s.subrange(p, end)[k] == s[p + k]);
            }
        }
        let m0 = p + l0.len();
        assert(s.subrange(m0, end) =~= lr) by {
            assert forall|k: int| 0 <= k < lr.len() implies s.subrange(m0, end)[k] == lr[k] by {
                assert(s.subrange(p, end)[l0.len() + k] == s[m0 + k]);
            }
        }
        reveal_strlit(", ");
        assert(m0 < s.len() && (s[m0] == 44u8 || s[m0] == 41u8 || s[m0] == 62u8)) by {
            if rest.len() > 0 {
                lemma_bytes_add(", "@ + type_text(rest[0]), tail_text(rest.drop_first()));
                lemma_bytes_add(", "@, type_text(rest[0]));
                assert(s.subrange(m0, end)[0] == s[m0]);
            } else {
                assert(lr.len() == 0);
            }
        }
        lemma_ws_here(s, m0);
        assert(closes(s, m0));
        assert(decreases_to!(ts => ts[0]));
        lemma_reread(s, p, t0);
        assert(decreases_to!(ts => rest));
        lemma_reread_more(s, m0, rest);
        assert(erase_all(types_model(ts)) =~= seq![erase(t0.model())] + erase_all(types_model(rest)));
        match type_list_more_at(s, m0) {
            Parsed::Done(_, us) => {
                match type_at(s, p) {
                    Parsed::Done(_, m) => {
                        assert(erase_all(seq![m] + us) =~= seq![erase(m)] + erase_all(us));
                    },
                    _ => {},
                }
            },
            _ => {},
        }
    }
}

/// The bytes of the types after the first of a printed list at `p`, each after `, `,
/// followed directly by `)` or `>`, are read by `type_list_more_at` as those types.
pub proof fn lemma_reread_more(s: Seq<u8>, p: int, us: Seq<Type>)
    requires
        all_rereadable(us),
        0 <= p,
        p + ascii_bytes(tail_text(us)).len() < s.len(),
        s.subrange(p, p + ascii_bytes(tail_text(us)).len()) == ascii_bytes(tail_text(us)),
        s[p + ascii_bytes(tail_text(us)).len()] == 41u8 || s[p + ascii_bytes(tail_text(us)).len()] == 62u8,
    ensures
        type_list_more_at(s, p) matches Parsed::Done(e, ms) && e == p + ascii_bytes(tail_text(us)).len()
            && erase_all(ms) == erase_all(types_model(us)),
    decreases us, 2int,
{
    let lt = ascii_bytes(tail_text(us));
    let end = p + lt.len();
    reveal_strlit(", ");
    if us.len() == 0 {
        assert(lt.len() == 0);
        lemma_ws_here(s, p);
        assert(erase_all(Seq::<TypeModel>::empty()) =~= erase_all(types_model(us)));
    } else {
        let u0 = us[0];
        let rest = us.drop_first();
        let l0 = ascii_bytes(type_text(u0));
        let lr = ascii_bytes(tail_text(rest));
        lemma_bytes_add(", "@ + type_text(u0), tail_text(rest));
        lemma_bytes_add(", "@, type_text(u0));
        assert(s[p] == 44u8 && s[p + 1] == 32u8) by {
            assert(s.subrange(p, end)[0] == s[p]);
            assert(s.subrange(p, end)[1] == s[p + 1]);
        }
        lemma_first_byte(u0);
        let a = p + 2;
        assert(s.subrange(a, a + l0.len()) =~= l0) by {
            assert forall|k: int| 0 <= k < l0.len() implies s.subrange(a, a + l0.len())[k] == l0[k] by {
                assert(s.subrange(p, end)[2 + k] == s[a + k]);
            }
        }
        assert(s[a] == l0[0]);
        lemma_ws_here(s, p);
        lemma_ws_one_space(s, p + 1);
        let m0 = a + l0.len();
        assert(s.subrange(m0, end) =~= lr) by {
            assert forall|k: int| 0 <= k < lr.len() implies s.subrange(m0, end)[k] == lr[k] by {
                assert(s.subrange(p, end)[2 + l0.len() + k] == s[m0 + k]);
            }
        }
        assert(m0 < s.len() && (s[m0] == 44u8 || s[m0] == 41u8 || s[m0] == 62u8)) by {
            if rest.len() > 0 {
                lemma_bytes_add(", "@ + type_text(rest[0]), tail_text(rest.drop_first()));
                lemma_bytes_add(", "@, type_text(rest[0]));
                assert(s.subrange(m0, end)[0] == s[m0]);
            } else {
                assert(lr.len() == 0);
            }
        }
        lemma_ws_here(s, m0);
        assert(closes(s, m0));
        assert(decreases_to!(us => us[0]));
        lemma_reread(s, a, u0);
        assert(decreases_to!(us => rest));
        lemma_reread_more(s, m0, rest);
        assert(erase_all(types_model(us)) =~= seq![erase(u0.model())] + erase_all(types_model(rest)));
        match type_list_more_at(s, m0) {
            Parsed::Done(_, vs) => {
                match type_at(s, a) {
                    Parsed::Done(_, m) => {
                        assert(erase_all(seq![m] + vs) =~= seq![erase(m)] + erase_all(vs));
                    },
                    _ => {},
                }
            },
            _ => {},
        }
    }
}

/// Printing a type built from good names, generic applications with arguments, arrays,
/// references, owned types and function types, and parsing the text back, gives the
/// same type up to spans: the whole text is read.
pub proof fn law_type_text_reread(t: Type)
    requires
        rereadable(t),
    ensures
        vstd::utf8::encode_utf8(type_text(t)) == ascii_bytes(type_text(t)),
        type_at(ascii_bytes(type_text(t)), 0) matches Parsed::Done(e, m)
            && e == ascii_bytes(type_text(t)).len() && erase(m) == erase(t.model()),
{
    let b = ascii_bytes(type_text(t));
    lemma_ascii_text(t);
    vstd::utf8::is_ascii_chars_encode_utf8(type_text(t));
    assert(vstd::utf8::encode_utf8(type_text(t)) =~= b);
    assert(b.subrange(0, b.len() as int) =~= b);
    lemma_ws_here(b, b.len() as int);
    lemma_reread(b, 0, t);
}

/// Parsing the text that `type_to_string` prints for such a type (`Parser::parse_type`
/// reads `type_at` over its bytes) reads the whole text back as the same type, up to
/// spans.
pub proof fn law_parse_printed_type(t: Type, input: &str)
    requires
        rereadable(t),
        input@ == type_text(t),
    ensures
        type_at(input.spec_bytes(), 0) matches Parsed::Done(e, m) && e == input.spec_bytes().len()
            && erase(m) == erase(t.model()),
{
    law_type_text_reread(t);
}

proof fn lemma_ascii_add(a: Seq<char>, b: Seq<char>)
    requires
        vstd::utf8::is_ascii_chars(a),
        vstd::utf8::is_ascii_chars(b),
    ensures
        vstd::utf8::is_ascii_chars(a + b),
{
    assert forall|i: int| 0 <= i < (a + b).len() implies '\0' <= #[trigger] (a + b)[i] <= '\u{7f}' by {
        if i < a.len() {
            assert((a + b)[i] == a[i]);
        } else {
            assert((a + b)[i] == b[i - a.len()]);
        }
    }
}

proof fn lemma_ascii_join(parts: Seq<Seq<char>>, sep: Seq<char>)
    requires
        vstd::utf8::is_ascii_chars(sep),
        forall|i: int| 0 <= i < parts.len() ==> vstd::utf8::is_ascii_chars(#[trigger] parts[i]),
    ensures
        vstd::utf8::is_ascii_chars(join(parts, sep)),
    decreases parts.len(),
{
    if parts.len() == 0 {
    } else if parts.len() == 1 {
        assert(vstd::utf8::is_ascii_chars(parts[0]));
    } else {
        let init = parts.drop_last();
        assert forall|i: int| 0 <= i < init.len() implies vstd::utf8::is_ascii_chars(#[trigger] init[i]) by {
            assert(init[i] == parts[i]);
        }
        lemma_ascii_join(init, sep);
        assert(vstd::utf8::is_ascii_chars(parts[parts.len() - 1]));
        lemma_ascii_add(join(init, sep), sep);
        lemma_ascii_add(join(init, sep) + sep, parts.last());
    }
}

proof fn lemma_ascii_name(nm: Seq<char>)
    requires
        good_name(nm),
    ensures
        vstd::utf8::is_ascii_chars(nm),
{
    let b = ascii_bytes(nm);
    assert forall|i: int| 0 <= i < nm.len() implies '\0' <= #[trigger] nm[i] <= '\u{7f}' by {
        assert(ident_byte(b[i]));
        assert(ascii_text(b)[i] == nm[i]);
        assert(nm[i] == b[i] as char);
    }
}

/// A printed rereadable type is ASCII.
proof fn lemma_ascii_text(t: Type)
    requires
        rereadable(t),
    ensures
        vstd::utf8::is_ascii_chars(type_text(t)),
    decreases t, 1int,
{
    reveal_strlit("(");
    reveal_strlit("[");
    reveal_strlit("]");
    reveal_strlit("&");
    reveal_strlit("&mut ");
    reveal_strlit("own ");
    reveal_strlit("<");
    reveal_strlit(">");
    reveal_strlit(") -> ");
    reveal_strlit(", ");
    assert(vstd::utf8::is_ascii_chars("("@));
    assert(vstd::utf8::is_ascii_chars("["@));
    assert(vstd::utf8::is_ascii_chars("]"@));
    assert(vstd::utf8::is_ascii_chars("&"@));
    assert(vstd::utf8::is_ascii_chars("&mut "@));
    assert(vstd::utf8::is_ascii_chars("own "@));
    assert(vstd::utf8::is_ascii_chars("<"@));
    assert(vstd::utf8::is_ascii_chars(">"@));
    assert(vstd::utf8::is_ascii_chars(") -> "@));
    assert(vstd::utf8::is_ascii_chars(", "@));
    match t {
        Type::Simple { name, .. } => {
            lemma_ascii_name(name@);
        },
        Type::Function { parameters, return_type, .. } => {
            lemma_ascii_texts(parameters@);
            lemma_ascii_join(type_texts(parameters@), ", "@);
            lemma_ascii_text(*return_type);
            lemma_ascii_add("("@, join(type_texts(parameters@), ", "@));
            lemma_ascii_add("("@ + join(type_texts(parameters@), ", "@), ") -> "@);
            lemma_ascii_add("("@ + join(type_texts(parameters@), ", "@) + ") -> "@, type_text(*return_type));
        },
        Type::Array { element_type, .. } => {
            lemma_ascii_text(*element_type);
            lemma_ascii_add("["@, type_text(*element_type));
            lemma_ascii_add("["@ + type_text(*element_type), "]"@);
        },
        Type::Generic { base_type, type_arguments, .. } => {
            lemma_ascii_name(base_type@);
            lemma_ascii_texts(type_arguments@);
            lemma_ascii_join(type_texts(type_arguments@), ", "@);
            lemma_ascii_add(base_type@, "<"@);
            lemma_ascii_add(base_type@ + "<"@, join(type_texts(type_arguments@), ", "@));
            lemma_ascii_add(base_type@ + "<"@ + join(type_texts(type_arguments@), ", "@), ">"@);
        },
        Type::Reference { is_mutable, referenced_type, .. } => {
            lemma_ascii_text(*referenced_type);
            lemma_ascii_add("&mut "@, type_text(*referenced_type));
            lemma_ascii_add("&"@, type_text(*referenced_type));
        },
        Type::Owned { owned_type, .. } => {
            lemma_ascii_text(*owned_type);
            lemma_ascii_add("own "@, type_text(*owned_type));
        },
        _ => {},
    }
}

/// The printed texts of rereadable types are ASCII.
proof fn lemma_ascii_texts(ts: Seq<Type>)
    requires
        all_rereadable(ts),
    ensures
        forall|i: int| 0 <= i < ts.len() ==> vstd::utf8::is_ascii_chars(#[trigger] type_texts(ts)[i]),
    decreases ts, 2int,
{
    if ts.len() > 0 {
        let rest = ts.drop_first();
        assert(decreases_to!(ts => ts[0]));
        lemma_ascii_text(ts[0]);
        assert(decreases_to!(ts => rest));
        lemma_ascii_texts(rest);
        assert forall|i: int| 0 <= i < ts.len() implies vstd::utf8::is_ascii_chars(#[trigger] type_texts(ts)[i]) by {
            if i > 0 {
                assert(type_texts(ts)[i] == type_texts(rest)[i - 1]);
            }
        }
    }
}

} // verus!
