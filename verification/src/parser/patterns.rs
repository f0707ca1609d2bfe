//! Patterns: literals, `_`, tuples, constructors with arguments, and names.
use vstd::prelude::*;
use crate::ast::{LiteralValue, Pattern, Span};
use crate::parser::common::{
    Expected, ParseFailure, Parsed, failure_outcome, forward, ws_byte, ws_byte_at, ws_end,
    ws_comments, ws_lit, keyword, ident_at, identifier_string, ascii_text, span_of, span_at, miss,
    fail, lemma_ws_end, lemma_ident_rest, one_more, with_prefix, lemma_prefix_more, no_span,
};
use crate::parser::literals::{LiteralModel, literal_model, literal_pattern_value_at, literal_pattern_value};

verus! {

/// What a pattern is: a literal value, a name, a tuple or a constructor with the kinds
/// of its parts, or `_`; each with the span recorded for it.
pub enum PatternKind {
    Literal(LiteralModel, Span),
    Identifier(Seq<char>, Span),
    Tuple(Seq<PatternKind>, Span),
    Constructor(Seq<char>, Seq<PatternKind>, Span),
    Wildcard(Span),
}

/// The kinds of a sequence of patterns.
pub open spec fn pattern_kinds(ps: Seq<Pattern>) -> Seq<PatternKind>
    decreases ps,
{
    Seq::new(ps.len(), |i: int| if 0 <= i < ps.len() { pattern_kind(ps[i]) } else { PatternKind::Wildcard(no_span()) })
}

/// The kind of a pattern.
pub open spec fn pattern_kind(p: Pattern) -> PatternKind
    decreases p,
{
    match p {
        Pattern::Literal(v, sp) => PatternKind::Literal(literal_model(v), sp),
        Pattern::Identifier(n, sp) => PatternKind::Identifier(n@, sp),
        Pattern::Tuple(ps, sp) => PatternKind::Tuple(pattern_kinds(ps@), sp),
        Pattern::Constructor { name, arguments, span } => PatternKind::Constructor(name@, pattern_kinds(arguments@), span),
        Pattern::Wildcard(sp) => PatternKind::Wildcard(sp),
    }
}

/// The kinds of a sequence of patterns with one more pattern.
pub proof fn lemma_pattern_kinds_push(ps: Seq<Pattern>, x: Pattern)
    ensures
        pattern_kinds(ps.push(x)) == pattern_kinds(ps).push(pattern_kind(x)),
{
    assert(pattern_kinds(ps.push(x)) =~= pattern_kinds(ps).push(pattern_kind(x)));
}

/// The outcome of a function that reads a pattern.
pub open spec fn pattern_outcome(r: Result<(usize, Pattern), ParseFailure>) -> Parsed<PatternKind> {
    match r {
        Ok((e, p)) => Parsed::Done(e as int, pattern_kind(p)),
        Err(f) => failure_outcome(f),
    }
}

/// The outcome of a function that reads patterns: their kinds.
pub open spec fn patterns_outcome(r: Result<(usize, Vec<Pattern>), ParseFailure>) -> Parsed<Seq<PatternKind>> {
    match r {
        Ok((e, ps)) => Parsed::Done(e as int, pattern_kinds(ps@)),
        Err(f) => failure_outcome(f),
    }
}

/// The bytes of `_`.
pub open spec fn lit_underscore() -> Seq<u8> {
    seq![95u8]
}

/// A pattern, with white space and comments around it: the first of a literal, `_`, a
/// tuple `( patterns )` (`()` being the unit literal), a name with arguments
/// `( patterns )`, and a name.
pub open spec fn pattern_at(s: Seq<u8>, p: int) -> Parsed<PatternKind>
    decreases s.len() - p, 2int,
{
    let q = ws_end(s, p);
    if !(p <= q && q <= s.len()) {
        Parsed::Failed(false, q, Expected::Keyword)
    } else {
        let r: Parsed<PatternKind> = match literal_pattern_value_at(s, q) {
            Parsed::Done(e, v) => Parsed::Done(e, PatternKind::Literal(v, span_of(s, p))),
            Parsed::Failed(true, x, k) => Parsed::Failed(true, x, k),
            Parsed::Failed(false, _, _) => match ws_lit(s, q, lit_underscore()) {
                Some(e) => Parsed::Done(e, PatternKind::Wildcard(span_of(s, p))),
                None => match tuple_pattern_at(s, q) {
                    Parsed::Done(e, ks) => Parsed::Done(
                        e,
                        if ks.len() == 0 {
                            PatternKind::Literal(LiteralModel::Unit, span_of(s, e))
                        } else {
                            PatternKind::Tuple(ks, span_of(s, e))
                        },
                    ),
                    Parsed::Failed(true, x, k) => Parsed::Failed(true, x, k),
                    Parsed::Failed(false, _, _) => match ident_at(s, q) {
                        None => Parsed::Failed(false, q, Expected::Keyword),
                        Some(b) => {
                            let name = ascii_text(s.subrange(q, b));
                            if forward(s, p, b) {
                                match tuple_pattern_at(s, b) {
                                    Parsed::Done(e, ks) => Parsed::Done(e, PatternKind::Constructor(name, ks, span_of(s, e))),
                                    Parsed::Failed(true, x, k) => Parsed::Failed(true, x, k),
                                    Parsed::Failed(false, _, _) => Parsed::Done(b, PatternKind::Identifier(name, span_of(s, p))),
                                }
                            } else {
                                Parsed::Done(b, PatternKind::Identifier(name, span_of(s, p)))
                            }
                        },
                    },
                },
            },
        };
        match r {
            Parsed::Done(e, k) => Parsed::Done(ws_end(s, e), k),
            Parsed::Failed(fatal, x, k) => Parsed::Failed(fatal, x, k),
        }
    }
}

/// `(` patterns separated by `,` `)`: their kinds; once `(` is read, a missing `)` is
/// final.
pub open spec fn tuple_pattern_at(s: Seq<u8>, p: int) -> Parsed<Seq<PatternKind>>
    decreases s.len() - p, 1int,
{
    match ws_byte(s, p, 40u8) {
        None => Parsed::Failed(false, ws_end(s, p), Expected::Char(40u8)),
        Some(q) => if forward(s, p, q) {
            match pattern_list_at(s, q) {
                Parsed::Failed(fatal, x, k) => Parsed::Failed(fatal, x, k),
                Parsed::Done(e, ks) => match ws_byte(s, e, 41u8) {
                    Some(f) => Parsed::Done(f, ks),
                    None => Parsed::Failed(true, ws_end(s, e), Expected::Char(41u8)),
                },
            }
        } else {
            Parsed::Failed(false, q, Expected::Char(40u8))
        },
    }
}

/// Patterns separated by `,`, possibly none: their kinds.
pub open spec fn pattern_list_at(s: Seq<u8>, p: int) -> Parsed<Seq<PatternKind>>
    decreases s.len() - p, 3int,
{
    match pattern_at(s, p) {
        Parsed::Failed(fatal, x, k) => if fatal {
            Parsed::Failed(true, x, k)
        } else {
            Parsed::Done(p, Seq::empty())
        },
        Parsed::Done(e, k) => if forward(s, p, e) {
            one_more(k, pattern_list_more_at(s, e))
        } else {
            Parsed::Done(e, seq![k])
        },
    }
}

/// The patterns that follow, each after a `,`: their kinds.
pub open spec fn pattern_list_more_at(s: Seq<u8>, p: int) -> Parsed<Seq<PatternKind>>
    decreases s.len() - p, 3int,
{
    match ws_byte(s, p, 44u8) {
        None => Parsed::Done(p, Seq::empty()),
        Some(q) => if forward(s, p, q) {
            match pattern_at(s, q) {
                Parsed::Failed(fatal, x, k) => if fatal {
                    Parsed::Failed(true, x, k)
                } else {
                    Parsed::Done(p, Seq::empty())
                },
                Parsed::Done(e, k) => if forward(s, q, e) {
                    one_more(k, pattern_list_more_at(s, e))
                } else {
                    Parsed::Done(e, seq![k])
                },
            }
        } else {
            Parsed::Done(p, Seq::empty())
        },
    }
}

// ---------------------------------------------------------------------------
// The parsing functions.
// ---------------------------------------------------------------------------

/// A pattern, with white space and comments around it. Its span is recorded where the
/// parse starts, except for tuples and constructors, whose span is recorded where they
/// end.
pub fn pattern(input: &[u8], pos: usize) -> (r: Result<(usize, Pattern), ParseFailure>)
    requires
        pos <= input@.len(),
    ensures
        pattern_outcome(r) == pattern_at(input@, pos as int),
        r matches Ok((e, _)) ==> pos < e <= input@.len(),
        r matches Err(f) ==> f.pos <= input@.len(),
    decreases input@.len() - pos, 2int,
{
    proof {
        lemma_ws_end(input@, pos as int);
    }
    let q = ws_comments(input, pos);
    let r: Result<(usize, Pattern), ParseFailure> = match literal_pattern_value(input, q) {
        Ok((e, v)) => Ok((e, Pattern::Literal(v, span_at(input, pos)))),
        Err(f) => if f.fatal {
            Err(f)
        } else {
            let underscore: [u8; 1] = [95u8];
            proof {
                assert(underscore@ =~= lit_underscore());
            }
            match keyword(input, q, &underscore) {
                Some(e) => Ok((e, Pattern::Wildcard(span_at(input, pos)))),
                None => match parse_tuple_pattern(input, q) {
                    Ok((e, ps)) => {
                        if ps.len() == 0 {
                            Ok((e, Pattern::Literal(LiteralValue::Unit, span_at(input, e))))
                        } else {
                            Ok((e, Pattern::Tuple(ps, span_at(input, e))))
                        }
                    },
                    Err(f) => if f.fatal {
                        Err(f)
                    } else {
                        match identifier_string(input, q) {
                            None => Err(miss(q, Expected::Keyword)),
                            Some((b, name)) => {
                                match parse_constructor_args(input, b) {
                                    Ok((e, args)) => Ok((e, Pattern::Constructor { name, arguments: args, span: span_at(input, e) })),
                                    Err(f) => if f.fatal {
                                        Err(f)
                                    } else {
                                        Ok((b, Pattern::Identifier(name, span_at(input, pos))))
                                    },
                                }
                            },
                        }
                    },
                },
            }
        },
    };
    match r {
        Ok((e, p)) => {
            proof {
                lemma_ws_end(input@, e as int);
            }
            Ok((ws_comments(input, e), p))
        },
        Err(f) => Err(f),
    }
}

/// `(` patterns `)`.
fn parse_tuple_pattern(input: &[u8], pos: usize) -> (r: Result<(usize, Vec<Pattern>), ParseFailure>)
    requires
        pos <= input@.len(),
    ensures
        patterns_outcome(r) == tuple_pattern_at(input@, pos as int),
        r matches Ok((e, _)) ==> pos < e <= input@.len(),
        r matches Err(f) ==> f.pos <= input@.len(),
    decreases input@.len() - pos, 1int,
{
    proof {
        lemma_ws_end(input@, pos as int);
    }
    match ws_byte_at(input, pos, 40u8) {
        None => Err(miss(ws_comments(input, pos), Expected::Char(40u8))),
        Some(q) => match pattern_list(input, q) {
            Err(f) => Err(f),
            Ok((e, ps)) => {
                proof {
                    lemma_ws_end(input@, e as int);
                }
                match ws_byte_at(input, e, 41u8) {
                    Some(f) => Ok((f, ps)),
                    None => Err(fail(ws_comments(input, e), Expected::Char(41u8))),
                }
            },
        },
    }
}

/// The arguments of a constructor pattern: `(` patterns `)`.
fn parse_constructor_args(input: &[u8], pos: usize) -> (r: Result<(usize, Vec<Pattern>), ParseFailure>)
    requires
        pos <= input@.len(),
    ensures
        patterns_outcome(r) == tuple_pattern_at(input@, pos as int),
        r matches Ok((e, _)) ==> pos < e <= input@.len(),
        r matches Err(f) ==> f.pos <= input@.len(),
    decreases input@.len() - pos, 2int,
{
    parse_tuple_pattern(input, pos)
}

/// Patterns separated by `,`, possibly none.
fn pattern_list(input: &[u8], pos: usize) -> (r: Result<(usize, Vec<Pattern>), ParseFailure>)
    requires
        pos <= input@.len(),
    ensures
        patterns_outcome(r) == pattern_list_at(input@, pos as int),
        r matches Ok((e, _)) ==> pos <= e <= input@.len(),
        r matches Err(f) ==> f.pos <= input@.len(),
    decreases input@.len() - pos, 3int,
{
    proof {
        assert(pattern_kinds(Seq::<Pattern>::empty()) =~= Seq::<PatternKind>::empty());
    }
    match pattern(input, pos) {
        Err(f) => if f.fatal {
            Err(f)
        } else {
            Ok((pos, Vec::new()))
        },
        Ok((e, p)) => {
            let mut items: Vec<Pattern> = Vec::new();
            items.push(p);
            proof {
                assert(pattern_kinds(items@) =~= seq![pattern_kind(items@[0])]);
                lemma_prefix_more(Seq::<PatternKind>::empty(), pattern_kind(items@[0]), pattern_list_more_at(input@, e as int));
            }
            let mut cur = e;
            loop
                invariant
                    pos < cur <= input@.len(),
                    items@.len() >= 1,
                    pattern_list_at(input@, pos as int) == with_prefix(
                        pattern_kinds(items@),
                        pattern_list_more_at(input@, cur as int),
                    ),
                decreases input@.len() - cur,
            {
                proof {
                    assert(pattern_kinds(items@) + Seq::empty() =~= pattern_kinds(items@));
                }
                match ws_byte_at(input, cur, 44u8) {
                    None => {
                        return Ok((cur, items));
                    },
                    Some(q) => match pattern(input, q) {
                        Err(f) => if f.fatal {
                            return Err(f);
                        } else {
                            return Ok((cur, items));
                        },
                        Ok((e2, p2)) => {
                            let ghost items0 = items@;
                            items.push(p2);
                            proof {
                                lemma_pattern_kinds_push(items0, items@.last());
                                assert(items@ =~= items0.push(items@.last()));
                                lemma_prefix_more(pattern_kinds(items0), pattern_kind(items@.last()), pattern_list_more_at(input@, e2 as int));
                            }
                            cur = e2;
                        },
                    },
                }
            }
        },
    }
}

} // verus!
