//! Types: names, generic applications, arrays, tuples, functions with an optional
//! effect, references and owned types.
use vstd::prelude::*;
use crate::ast::{Type, TypeModel, types_model};
use crate::parser::common::{
    Expected, ParseFailure, Parsed, failure_outcome, forward, ws_byte, ws_byte_at, ws_end,
    ws_comments, ws_lit, keyword, ws_ident, ws_identifier, ascii_text, span_of, span_at, miss,
    fail, is_miss, lemma_ws_end,
};

verus! {

/// The bytes of `->`.
pub open spec fn lit_arrow() -> Seq<u8> {
    seq![45u8, 62u8]
}

/// The bytes of `own`.
pub open spec fn lit_own() -> Seq<u8> {
    seq![111u8, 119u8, 110u8]
}

/// The bytes of `mut`.
pub open spec fn lit_mut() -> Seq<u8> {
    seq![109u8, 117u8, 116u8]
}

/// The bytes of `&`.
pub open spec fn lit_amp() -> Seq<u8> {
    seq![38u8]
}

/// The name spelled by the ASCII bytes from `a` to `b`.
pub open spec fn name_at(s: Seq<u8>, a: int, b: int) -> Seq<char> {
    ascii_text(s.subrange(a, b))
}

/// A type name alone; its span is recorded where the parse starts.
pub open spec fn simple_type_at(s: Seq<u8>, p: int) -> Parsed<TypeModel> {
    match ws_ident(s, p) {
        Some((a, b, c)) => Parsed::Done(
            c,
            TypeModel::Simple { name: name_at(s, a, b), span: span_of(s, p) },
        ),
        None => Parsed::Failed(false, ws_end(s, p), Expected::Keyword),
    }
}

/// `<` types separated by `,` `>`; once `<` is read, a missing `>` is final.
pub open spec fn generic_args_at(s: Seq<u8>, p: int) -> Parsed<Seq<TypeModel>>
    decreases s.len() - p, 1int,
{
    match ws_byte(s, p, 60u8) {
        None => Parsed::Failed(false, ws_end(s, p), Expected::Char(60u8)),
        Some(q) => if forward(s, p, q) {
            match type_list_at(s, q) {
                Parsed::Done(e, ts) => match ws_byte(s, e, 62u8) {
                    Some(f) => Parsed::Done(f, ts),
                    None => Parsed::Failed(true, ws_end(s, e), Expected::Char(62u8)),
                },
                Parsed::Failed(fatal, x, k) => Parsed::Failed(fatal, x, k),
            }
        } else {
            Parsed::Failed(false, q, Expected::Char(60u8))
        },
    }
}

/// A name, with type arguments if `<...>` follows and holds at least one type.
pub open spec fn generic_type_at(s: Seq<u8>, p: int) -> Parsed<TypeModel>
    decreases s.len() - p, 1int,
{
    match ws_ident(s, p) {
        None => Parsed::Failed(false, ws_end(s, p), Expected::Keyword),
        Some((a, b, c)) => {
            let name = name_at(s, a, b);
            if forward(s, p, c) {
                match generic_args_at(s, c) {
                    Parsed::Done(e, args) => if args.len() > 0 {
                        Parsed::Done(
                            e,
                            TypeModel::Generic { base_type: name, type_arguments: args, span: span_of(s, e) },
                        )
                    } else {
                        Parsed::Done(e, TypeModel::Simple { name, span: span_of(s, e) })
                    },
                    Parsed::Failed(fatal, x, k) => if fatal {
                        Parsed::Failed(true, x, k)
                    } else {
                        Parsed::Done(c, TypeModel::Simple { name, span: span_of(s, c) })
                    },
                }
            } else {
                Parsed::Failed(false, ws_end(s, p), Expected::Keyword)
            }
        },
    }
}

/// `[` type `]`; a missing `]` is final.
pub open spec fn array_type_at(s: Seq<u8>, p: int) -> Parsed<TypeModel>
    decreases s.len() - p, 1int,
{
    match ws_byte(s, p, 91u8) {
        None => Parsed::Failed(false, ws_end(s, p), Expected::Char(91u8)),
        Some(q) => if forward(s, p, q) {
            match type_at(s, q) {
                Parsed::Done(e, t) => match ws_byte(s, e, 93u8) {
                    Some(f) => Parsed::Done(
                        f,
                        TypeModel::Array { element_type: Box::new(t), span: span_of(s, f) },
                    ),
                    None => Parsed::Failed(true, ws_end(s, e), Expected::Char(93u8)),
                },
                Parsed::Failed(fatal, x, k) => Parsed::Failed(fatal, x, k),
            }
        } else {
            Parsed::Failed(false, q, Expected::Char(91u8))
        },
    }
}

/// `(` type `)` is that type; `(` type `,` types `)` is a tuple of them. A missing `)`
/// is final.
pub open spec fn tuple_type_at(s: Seq<u8>, p: int) -> Parsed<TypeModel>
    decreases s.len() - p, 1int,
{
    match ws_byte(s, p, 40u8) {
        None => Parsed::Failed(false, ws_end(s, p), Expected::Char(40u8)),
        Some(q) => if forward(s, p, q) {
            match type_at(s, q) {
                Parsed::Failed(fatal, x, k) => Parsed::Failed(fatal, x, k),
                Parsed::Done(e, first) => {
                    let rest: Parsed<Option<Seq<TypeModel>>> = match ws_byte(s, e, 44u8) {
                        None => Parsed::Done(e, None),
                        Some(q2) => if forward(s, p, q2) {
                            match type_list_at(s, q2) {
                                Parsed::Done(f, ts) => Parsed::Done(f, Some(ts)),
                                Parsed::Failed(fatal, x, k) => if fatal {
                                    Parsed::Failed(true, x, k)
                                } else {
                                    Parsed::Done(e, None)
                                },
                            }
                        } else {
                            Parsed::Done(e, None)
                        },
                    };
                    match rest {
                        Parsed::Failed(fatal, x, k) => Parsed::Failed(fatal, x, k),
                        Parsed::Done(f, more) => match ws_byte(s, f, 41u8) {
                            None => Parsed::Failed(true, ws_end(s, f), Expected::Char(41u8)),
                            Some(g) => match more {
                                Some(ts) => Parsed::Done(
                                    g,
                                    TypeModel::Tuple { element_types: seq![first] + ts, span: span_of(s, g) },
                                ),
                                None => Parsed::Done(g, first),
                            },
                        },
                    }
                },
            }
        } else {
            Parsed::Failed(false, q, Expected::Char(40u8))
        },
    }
}

/// `&` type: an effect.
pub open spec fn effect_type_at(s: Seq<u8>, p: int) -> Parsed<TypeModel>
    decreases s.len() - p, 1int,
{
    match ws_lit(s, p, lit_amp()) {
        None => Parsed::Failed(false, ws_end(s, p), Expected::Keyword),
        Some(q) => if forward(s, p, q) {
            type_at(s, q)
        } else {
            Parsed::Failed(false, q, Expected::Keyword)
        },
    }
}

/// `(` types separated by `,` `)` `->` type, then `&` effect if one follows. A missing
/// `)` is final; a missing `->` is not.
pub open spec fn function_type_at(s: Seq<u8>, p: int) -> Parsed<TypeModel>
    decreases s.len() - p, 1int,
{
    match ws_byte(s, p, 40u8) {
        None => Parsed::Failed(false, ws_end(s, p), Expected::Char(40u8)),
        Some(q) => if forward(s, p, q) {
            match type_list_at(s, q) {
                Parsed::Failed(fatal, x, k) => Parsed::Failed(fatal, x, k),
                Parsed::Done(e, params) => match ws_byte(s, e, 41u8) {
                    None => Parsed::Failed(true, ws_end(s, e), Expected::Char(41u8)),
                    Some(e2) => match ws_lit(s, e2, lit_arrow()) {
                        None => Parsed::Failed(false, ws_end(s, e2), Expected::Keyword),
                        Some(e3) => if forward(s, p, e3) {
                            match type_at(s, e3) {
                                Parsed::Failed(fatal, x, k) => Parsed::Failed(fatal, x, k),
                                Parsed::Done(e4, ret) => if forward(s, p, e4) {
                                    match effect_type_at(s, e4) {
                                        Parsed::Failed(fatal, x, k) => if fatal {
                                            Parsed::Failed(true, x, k)
                                        } else {
                                            Parsed::Done(
                                                e4,
                                                TypeModel::Function {
                                                    parameters: params,
                                                    return_type: Box::new(ret),
                                                    span: span_of(s, e4),
                                                },
                                            )
                                        },
                                        Parsed::Done(e5, eff) => Parsed::Done(
                                            e5,
                                            TypeModel::WithEffect {
                                                base_type: Box::new(
                                                    TypeModel::Function {
                                                        parameters: params,
                                                        return_type: Box::new(ret),
                                                        span: span_of(s, e5),
                                                    },
                                                ),
                                                effect_type: Box::new(eff),
                                                span: span_of(s, e5),
                                            },
                                        ),
                                    }
                                } else {
                                    Parsed::Failed(false, e4, Expected::Keyword)
                                },
                            }
                        } else {
                            Parsed::Failed(false, e3, Expected::Keyword)
                        },
                    },
                },
            }
        } else {
            Parsed::Failed(false, q, Expected::Char(40u8))
        },
    }
}

/// `&` type, or `&` `mut` type.
pub open spec fn reference_type_at(s: Seq<u8>, p: int) -> Parsed<TypeModel>
    decreases s.len() - p, 1int,
{
    match ws_byte(s, p, 38u8) {
        None => Parsed::Failed(false, ws_end(s, p), Expected::Char(38u8)),
        Some(q) => {
            let m = ws_lit(s, q, lit_mut()) is Some;
            let r = match ws_lit(s, q, lit_mut()) {
                Some(r) => r,
                None => q,
            };
            if forward(s, p, r) {
                match type_at(s, r) {
                    Parsed::Done(e, t) => Parsed::Done(
                        e,
                        TypeModel::Reference { is_mutable: m, referenced_type: Box::new(t), span: span_of(s, e) },
                    ),
                    Parsed::Failed(fatal, x, k) => Parsed::Failed(fatal, x, k),
                }
            } else {
                Parsed::Failed(false, r, Expected::Char(38u8))
            }
        },
    }
}

/// `own` type.
pub open spec fn owned_type_at(s: Seq<u8>, p: int) -> Parsed<TypeModel>
    decreases s.len() - p, 1int,
{
    match ws_lit(s, p, lit_own()) {
        None => Parsed::Failed(false, ws_end(s, p), Expected::Keyword),
        Some(q) => if forward(s, p, q) {
            match type_at(s, q) {
                Parsed::Done(e, t) => Parsed::Done(
                    e,
                    TypeModel::Owned { owned_type: Box::new(t), span: span_of(s, e) },
                ),
                Parsed::Failed(fatal, x, k) => Parsed::Failed(fatal, x, k),
            }
        } else {
            Parsed::Failed(false, q, Expected::Keyword)
        },
    }
}

/// A type: the first of owned, reference, function, array, tuple and named types that
/// reads one. A final failure of one of them ends the search.
pub open spec fn type_at(s: Seq<u8>, p: int) -> Parsed<TypeModel>
    decreases s.len() - p, 2int,
{
    let r1 = owned_type_at(s, p);
    if !(r1 matches Parsed::Failed(false, _, _)) {
        r1
    } else {
        let r2 = reference_type_at(s, p);
        if !(r2 matches Parsed::Failed(false, _, _)) {
            r2
        } else {
            let r3 = function_type_at(s, p);
            if !(r3 matches Parsed::Failed(false, _, _)) {
                r3
            } else {
                let r4 = array_type_at(s, p);
                if !(r4 matches Parsed::Failed(false, _, _)) {
                    r4
                } else {
                    let r5 = tuple_type_at(s, p);
                    if !(r5 matches Parsed::Failed(false, _, _)) {
                        r5
                    } else {
                        generic_type_at(s, p)
                    }
                }
            }
        }
    }
}

/// Types separated by `,`, possibly none. A `,` not followed by a type is left unread.
pub open spec fn type_list_at(s: Seq<u8>, p: int) -> Parsed<Seq<TypeModel>>
    decreases s.len() - p, 3int,
{
    match type_at(s, p) {
        Parsed::Failed(fatal, x, k) => if fatal {
            Parsed::Failed(true, x, k)
        } else {
            Parsed::Done(p, Seq::empty())
        },
        Parsed::Done(e, t) => if forward(s, p, e) {
            prepend_types(seq![t], type_list_more_at(s, e))
        } else {
            Parsed::Done(e, seq![t])
        },
    }
}

/// The types that follow, each after a `,`.
pub open spec fn type_list_more_at(s: Seq<u8>, p: int) -> Parsed<Seq<TypeModel>>
    decreases s.len() - p, 3int,
{
    match ws_byte(s, p, 44u8) {
        None => Parsed::Done(p, Seq::empty()),
        Some(q) => if forward(s, p, q) {
            match type_at(s, q) {
                Parsed::Failed(fatal, x, k) => if fatal {
                    Parsed::Failed(true, x, k)
                } else {
                    Parsed::Done(p, Seq::empty())
                },
                Parsed::Done(e, t) => if forward(s, q, e) {
                    prepend_types(seq![t], type_list_more_at(s, e))
                } else {
                    Parsed::Done(e, seq![t])
                },
            }
        } else {
            Parsed::Done(p, Seq::empty())
        },
    }
}

/// `ts` put in front of the types of an outcome.
pub open spec fn prepend_types(ts: Seq<TypeModel>, r: Parsed<Seq<TypeModel>>) -> Parsed<Seq<TypeModel>> {
    match r {
        Parsed::Done(e, us) => Parsed::Done(e, ts + us),
        Parsed::Failed(fatal, x, k) => Parsed::Failed(fatal, x, k),
    }
}

/// The outcome of a function that reads a type.
pub open spec fn type_outcome(r: Result<(usize, Type), ParseFailure>) -> Parsed<TypeModel> {
    match r {
        Ok((e, t)) => Parsed::Done(e as int, t.model()),
        Err(f) => failure_outcome(f),
    }
}

/// The outcome of a function that reads types.
pub open spec fn types_outcome(r: Result<(usize, Vec<Type>), ParseFailure>) -> Parsed<Seq<TypeModel>> {
    match r {
        Ok((e, ts)) => Parsed::Done(e as int, types_model(ts@)),
        Err(f) => failure_outcome(f),
    }
}

// ---------------------------------------------------------------------------
// The parsing functions.
// ---------------------------------------------------------------------------

/// A type name alone.
pub fn simple_type(input: &[u8], pos: usize) -> (r: Result<(usize, Type), ParseFailure>)
    requires
        pos <= input@.len(),
    ensures
        type_outcome(r) == simple_type_at(input@, pos as int),
        r matches Ok((e, _)) ==> pos < e <= input@.len(),
        r matches Err(f) ==> f.pos <= input@.len(),
{
    proof {
        lemma_ws_end(input@, pos as int);
    }
    match ws_identifier(input, pos) {
        Some((e, name)) => Ok((e, Type::Simple { name, span: span_at(input, pos) })),
        None => Err(miss(ws_comments(input, pos), Expected::Keyword)),
    }
}

/// `<` types separated by `,` `>`.
pub fn generic_args(input: &[u8], pos: usize) -> (r: Result<(usize, Vec<Type>), ParseFailure>)
    requires
        pos <= input@.len(),
    ensures
        types_outcome(r) == generic_args_at(input@, pos as int),
        r matches Ok((e, _)) ==> pos < e <= input@.len(),
        r matches Err(f) ==> f.pos <= input@.len(),
    decreases input@.len() - pos, 1int,
{
    proof {
        lemma_ws_end(input@, pos as int);
    }
    match ws_byte_at(input, pos, 60u8) {
        None => Err(miss(ws_comments(input, pos), Expected::Char(60u8))),
        Some(q) => match type_list(input, q) {
            Err(f) => Err(f),
            Ok((e, ts)) => {
                proof {
                    lemma_ws_end(input@, e as int);
                }
                match ws_byte_at(input, e, 62u8) {
                    Some(f) => Ok((f, ts)),
                    None => Err(fail(ws_comments(input, e), Expected::Char(62u8))),
                }
            },
        },
    }
}

/// A name, with type arguments if `<...>` follows and holds at least one type.
pub fn generic_type(input: &[u8], pos: usize) -> (r: Result<(usize, Type), ParseFailure>)
    requires
        pos <= input@.len(),
    ensures
        type_outcome(r) == generic_type_at(input@, pos as int),
        r matches Ok((e, _)) ==> pos < e <= input@.len(),
        r matches Err(f) ==> f.pos <= input@.len(),
    decreases input@.len() - pos, 1int,
{
    proof {
        lemma_ws_end(input@, pos as int);
    }
    match ws_identifier(input, pos) {
        None => Err(miss(ws_comments(input, pos), Expected::Keyword)),
        Some((c, name)) => {
            let args = generic_args(input, c);
            match args {
                Ok((e, ts)) => {
                    if ts.len() > 0 {
                        let t = Type::Generic { base_type: name, type_arguments: ts, span: span_at(input, e) };
                        proof {
                            assert(t.model()->Generic_type_arguments =~= types_model(ts@));
                        }
                        Ok((e, t))
                    } else {
                        Ok((e, Type::Simple { name, span: span_at(input, e) }))
                    }
                },
                Err(f) => if f.fatal {
                    Err(f)
                } else {
                    Ok((c, Type::Simple { name, span: span_at(input, c) }))
                },
            }
        },
    }
}

/// `[` type `]`.
pub fn array_type(input: &[u8], pos: usize) -> (r: Result<(usize, Type), ParseFailure>)
    requires
        pos <= input@.len(),
    ensures
        type_outcome(r) == array_type_at(input@, pos as int),
        r matches Ok((e, _)) ==> pos < e <= input@.len(),
        r matches Err(f) ==> f.pos <= input@.len(),
    decreases input@.len() - pos, 1int,
{
    proof {
        lemma_ws_end(input@, pos as int);
    }
    match ws_byte_at(input, pos, 91u8) {
        None => Err(miss(ws_comments(input, pos), Expected::Char(91u8))),
        Some(q) => match parse_type(input, q) {
            Err(f) => Err(f),
            Ok((e, t)) => {
                proof {
                    lemma_ws_end(input@, e as int);
                }
                match ws_byte_at(input, e, 93u8) {
                    Some(f) => Ok((f, Type::Array { element_type: Box::new(t), span: span_at(input, f) })),
                    None => Err(fail(ws_comments(input, e), Expected::Char(93u8))),
                }
            },
        },
    }
}

/// `(` type `)`, or a tuple `(` type `,` types `)`.
pub fn tuple_type(input: &[u8], pos: usize) -> (r: Result<(usize, Type), ParseFailure>)
    requires
        pos <= input@.len(),
    ensures
        type_outcome(r) == tuple_type_at(input@, pos as int),
        r matches Ok((e, _)) ==> pos < e <= input@.len(),
        r matches Err(f) ==> f.pos <= input@.len(),
    decreases input@.len() - pos, 1int,
{
    proof {
        lemma_ws_end(input@, pos as int);
    }
    match ws_byte_at(input, pos, 40u8) {
        None => Err(miss(ws_comments(input, pos), Expected::Char(40u8))),
        Some(q) => match parse_type(input, q) {
            Err(f) => Err(f),
            Ok((e, first)) => {
                let (f, more): (usize, Option<Vec<Type>>) = match ws_byte_at(input, e, 44u8) {
                    None => (e, None),
                    Some(q2) => match type_list(input, q2) {
                        Ok((f, ts)) => (f, Some(ts)),
                        Err(x) => if x.fatal {
                            return Err(x);
                        } else {
                            (e, None)
                        },
                    },
                };
                proof {
                    lemma_ws_end(input@, f as int);
                }
                match ws_byte_at(input, f, 41u8) {
                    None => Err(fail(ws_comments(input, f), Expected::Char(41u8))),
                    Some(g) => match more {
                        Some(ts) => {
                            let ghost first_model = first.model();
                            let mut elems: Vec<Type> = Vec::new();
                            elems.push(first);
                            let mut rest = ts;
                            let ghost rest_model = types_model(rest@);
                            elems.append(&mut rest);
                            let t = Type::Tuple { element_types: elems, span: span_at(input, g) };
                            proof {
                                assert(t.model()->Tuple_element_types =~= seq![first_model] + rest_model);
                            }
                            Ok((g, t))
                        },
                        None => Ok((g, first)),
                    },
                }
            },
        },
    }
}

/// `&` type: an effect.
pub fn effect_type(input: &[u8], pos: usize) -> (r: Result<(usize, Type), ParseFailure>)
    requires
        pos <= input@.len(),
    ensures
        type_outcome(r) == effect_type_at(input@, pos as int),
        r matches Ok((e, _)) ==> pos < e <= input@.len(),
        r matches Err(f) ==> f.pos <= input@.len(),
    decreases input@.len() - pos, 1int,
{
    proof {
        lemma_ws_end(input@, pos as int);
    }
    let amp: [u8; 1] = [38u8];
    proof {
        assert(amp@ =~= lit_amp());
    }
    match keyword(input, pos, &amp) {
        None => Err(miss(ws_comments(input, pos), Expected::Keyword)),
        Some(q) => parse_type(input, q),
    }
}

/// `(` types `)` `->` type, with `&` effect if one follows.
pub fn function_type(input: &[u8], pos: usize) -> (r: Result<(usize, Type), ParseFailure>)
    requires
        pos <= input@.len(),
    ensures
        type_outcome(r) == function_type_at(input@, pos as int),
        r matches Ok((e, _)) ==> pos < e <= input@.len(),
        r matches Err(f) ==> f.pos <= input@.len(),
    decreases input@.len() - pos, 1int,
{
    proof {
        lemma_ws_end(input@, pos as int);
    }
    match ws_byte_at(input, pos, 40u8) {
        None => Err(miss(ws_comments(input, pos), Expected::Char(40u8))),
        Some(q) => match type_list(input, q) {
            Err(f) => Err(f),
            Ok((e, params)) => {
                proof {
                    lemma_ws_end(input@, e as int);
                }
                match ws_byte_at(input, e, 41u8) {
                    None => Err(fail(ws_comments(input, e), Expected::Char(41u8))),
                    Some(e2) => {
                        proof {
                            lemma_ws_end(input@, e2 as int);
                        }
                        let arrow: [u8; 2] = [45u8, 62u8];
                        proof {
                            assert(arrow@ =~= lit_arrow());
                        }
                        match keyword(input, e2, &arrow) {
                            None => Err(miss(ws_comments(input, e2), Expected::Keyword)),
                            Some(e3) => match parse_type(input, e3) {
                                Err(f) => Err(f),
                                Ok((e4, ret)) => {
                                    let ghost params_model = types_model(params@);
                                    match effect_type(input, e4) {
                                        Err(f) => if f.fatal {
                                            Err(f)
                                        } else {
                                            let t = Type::Function {
                                                parameters: params,
                                                return_type: Box::new(ret),
                                                span: span_at(input, e4),
                                            };
                                            proof {
                                                assert(t.model()->Function_parameters =~= params_model);
                                            }
                                            Ok((e4, t))
                                        },
                                        Ok((e5, eff)) => {
                                            let span = span_at(input, e5);
                                            let base = Type::Function {
                                                parameters: params,
                                                return_type: Box::new(ret),
                                                span,
                                            };
                                            proof {
                                                assert(base.model()->Function_parameters =~= params_model);
                                            }
                                            Ok((e5, Type::WithEffect {
                                                base_type: Box::new(base),
                                                effect_type: Box::new(eff),
                                                span,
                                            }))
                                        },
                                    }
                                },
                            },
                        }
                    },
                }
            },
        },
    }
}

/// `&` type, or `&` `mut` type.
pub fn reference_type(input: &[u8], pos: usize) -> (r: Result<(usize, Type), ParseFailure>)
    requires
        pos <= input@.len(),
    ensures
        type_outcome(r) == reference_type_at(input@, pos as int),
        r matches Ok((e, _)) ==> pos < e <= input@.len(),
        r matches Err(f) ==> f.pos <= input@.len(),
    decreases input@.len() - pos, 1int,
{
    proof {
        lemma_ws_end(input@, pos as int);
    }
    match ws_byte_at(input, pos, 38u8) {
        None => Err(miss(ws_comments(input, pos), Expected::Char(38u8))),
        Some(q) => {
            let mut_kw: [u8; 3] = [109u8, 117u8, 116u8];
            proof {
                assert(mut_kw@ =~= lit_mut());
            }
            let (m, r) = match keyword(input, q, &mut_kw) {
                Some(r) => (true, r),
                None => (false, q),
            };
            match parse_type(input, r) {
                Ok((e, t)) => Ok((e, Type::Reference {
                    is_mutable: m,
                    referenced_type: Box::new(t),
                    span: span_at(input, e),
                })),
                Err(f) => Err(f),
            }
        },
    }
}

/// `own` type.
pub fn owned_type(input: &[u8], pos: usize) -> (r: Result<(usize, Type), ParseFailure>)
    requires
        pos <= input@.len(),
    ensures
        type_outcome(r) == owned_type_at(input@, pos as int),
        r matches Ok((e, _)) ==> pos < e <= input@.len(),
        r matches Err(f) ==> f.pos <= input@.len(),
    decreases input@.len() - pos, 1int,
{
    proof {
        lemma_ws_end(input@, pos as int);
    }
    let own: [u8; 3] = [111u8, 119u8, 110u8];
    proof {
        assert(own@ =~= lit_own());
    }
    match keyword(input, pos, &own) {
        None => Err(miss(ws_comments(input, pos), Expected::Keyword)),
        Some(q) => match parse_type(input, q) {
            Ok((e, t)) => Ok((e, Type::Owned { owned_type: Box::new(t), span: span_at(input, e) })),
            Err(f) => Err(f),
        },
    }
}

/// A type: owned, reference, function, array, tuple or named, the first that reads one.
pub fn parse_type(input: &[u8], pos: usize) -> (r: Result<(usize, Type), ParseFailure>)
    requires
        pos <= input@.len(),
    ensures
        type_outcome(r) == type_at(input@, pos as int),
        r matches Ok((e, _)) ==> pos < e <= input@.len(),
        r matches Err(f) ==> f.pos <= input@.len(),
    decreases input@.len() - pos, 2int,
{
    let r1 = owned_type(input, pos);
    if !is_miss(&r1) {
        return r1;
    }
    let r2 = reference_type(input, pos);
    if !is_miss(&r2) {
        return r2;
    }
    let r3 = function_type(input, pos);
    if !is_miss(&r3) {
        return r3;
    }
    let r4 = array_type(input, pos);
    if !is_miss(&r4) {
        return r4;
    }
    let r5 = tuple_type(input, pos);
    if !is_miss(&r5) {
        return r5;
    }
    generic_type(input, pos)
}

/// Types separated by `,`, possibly none.
pub fn type_list(input: &[u8], pos: usize) -> (r: Result<(usize, Vec<Type>), ParseFailure>)
    requires
        pos <= input@.len(),
    ensures
        types_outcome(r) == type_list_at(input@, pos as int),
        r matches Ok((e, _)) ==> pos <= e <= input@.len(),
        r matches Err(f) ==> f.pos <= input@.len(),
    decreases input@.len() - pos, 3int,
{
    match parse_type(input, pos) {
        Err(f) => if f.fatal {
            Err(f)
        } else {
            let v: Vec<Type> = Vec::new();
            proof {
                assert(types_model(v@) =~= Seq::<TypeModel>::empty());
            }
            Ok((pos, v))
        },
        Ok((e, t)) => {
            let mut items: Vec<Type> = Vec::new();
            items.push(t);
            let mut cur = e;
            proof {
                assert(types_model(items@) =~= seq![t.model()]);
            }
            loop
                invariant
                    pos < cur <= input@.len(),
                    type_list_at(input@, pos as int) == prepend_types(
                        types_model(items@),
                        type_list_more_at(input@, cur as int),
                    ),
                decreases input@.len() - cur,
            {
                match ws_byte_at(input, cur, 44u8) {
                    None => {
                        proof {
                            assert(types_model(items@) + Seq::<TypeModel>::empty() =~= types_model(items@));
                        }
                        return Ok((cur, items));
                    },
                    Some(q) => match parse_type(input, q) {
                        Err(f) => if f.fatal {
                            return Err(f);
                        } else {
                            proof {
                                assert(types_model(items@) + Seq::<TypeModel>::empty() =~= types_model(items@));
                            }
                            return Ok((cur, items));
                        },
                        Ok((e2, t2)) => {
                            let ghost old_items = types_model(items@);
                            let ghost t2_model = t2.model();
                            items.push(t2);
                            proof {
                                assert(types_model(items@) =~= old_items + seq![t2_model]);
                                let more = type_list_more_at(input@, e2 as int);
                                match more {
                                    Parsed::Done(f, us) => {
                                        assert(old_items + (seq![t2_model] + us) =~= (old_items + seq![t2_model]) + us);
                                    },
                                    Parsed::Failed(_, _, _) => {},
                                }
                            }
                            cur = e2;
                        },
                    },
                }
            }
        },
    }
}

} // verus!
