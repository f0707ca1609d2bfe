//! Literals: integers, floating-point numbers (kept as their text), strings, booleans
//! and the unit value.
use vstd::prelude::*;
use crate::ast::{Expr, LiteralValue};
use crate::chars::utf8_text;
use crate::parser::common::{
    Expected, ParseFailure, Parsed, failure_outcome, ws_end, ws_comments, ws_lit, keyword,
    ascii_text, ascii_string, span_of, span_at, miss, is_miss, lemma_ws_end,
};
use vstd::utf8::{valid_utf8, decode_utf8};

verus! {

/// Whether the byte is an ASCII decimal digit.
pub open spec fn digit_byte(b: u8) -> bool {
    48u8 <= b <= 57u8
}

/// The index of the first byte at or after `i` that is not a digit.
pub open spec fn digits_end(s: Seq<u8>, i: int) -> int
    decreases s.len() - i,
{
    if i < 0 || i >= s.len() || !digit_byte(s[i]) {
        i
    } else {
        digits_end(s, i + 1)
    }
}

pub proof fn lemma_digits_end(s: Seq<u8>, i: int)
    requires
        0 <= i <= s.len(),
    ensures
        i <= digits_end(s, i) <= s.len(),
        forall|k: int| i <= k < digits_end(s, i) ==> digit_byte(#[trigger] s[k]),
    decreases s.len() - i,
{
    if i < s.len() && digit_byte(s[i]) {
        lemma_digits_end(s, i + 1);
    }
}

/// The value of a sequence of decimal digits.
pub open spec fn decimal_value(d: Seq<u8>) -> nat
    decreases d.len(),
{
    if d.len() == 0 {
        0
    } else {
        decimal_value(d.drop_last()) * 10 + (d.last() - 48u8) as nat
    }
}

/// The optional `-` and digits of an integer literal at `p`: where the digits start and
/// end.
pub open spec fn int_text_at(s: Seq<u8>, p: int) -> Parsed<(int, int)> {
    let q = if 0 <= p < s.len() && s[p] == 45u8 { p + 1 } else { p };
    let e = digits_end(s, q);
    if e == q {
        Parsed::Failed(false, q, Expected::Digit)
    } else {
        Parsed::Done(e, (q, e))
    }
}

/// An integer literal at `p` (no white space before it): an optional `-` and digits,
/// whose value must fit in 64 signed bits.
pub open spec fn int_literal_at(s: Seq<u8>, p: int) -> Parsed<int> {
    match int_text_at(s, p) {
        Parsed::Failed(fatal, x, k) => Parsed::Failed(fatal, x, k),
        Parsed::Done(e, (q, d)) => {
            let magnitude = decimal_value(s.subrange(q, d)) as int;
            let v = if q > p { -magnitude } else { magnitude };
            if i64::MIN <= v <= i64::MAX {
                Parsed::Done(e, v)
            } else {
                Parsed::Failed(false, p, Expected::Representable)
            }
        },
    }
}

/// Digits have their decimal value: no digits are 0, and one more digit `d` after
/// digits `t` is ten times the value of `t` plus the value of `d`.
pub proof fn law_decimal_value(t: Seq<u8>, d: u8)
    requires
        48u8 <= d <= 57u8,
    ensures
        decimal_value(Seq::empty()) == 0,
        decimal_value(t.push(d)) == decimal_value(t) * 10 + (d - 48),
{
    assert(t.push(d).drop_last() =~= t);
}

/// An integer literal is the decimal value of its digits, negated when a `-` comes
/// before them, and it ends where its digits end.
pub proof fn law_int_literal(s: Seq<u8>, p: int)
    requires
        0 <= p < s.len(),
    ensures
        int_literal_at(s, p) matches Parsed::Done(e, v) ==> ({
            let q = if s[p] == 45u8 { p + 1 } else { p };
            &&& e == digits_end(s, q)
            &&& q < e
            &&& (s[p] == 45u8 ==> v == -(decimal_value(s.subrange(q, e)) as int))
            &&& (s[p] != 45u8 ==> v == decimal_value(s.subrange(q, e)) as int)
        }),
{
    let q = if s[p] == 45u8 { p + 1 } else { p };
    let e = digits_end(s, q);
    lemma_digits_end(s, q);
    if e != q {
        assert(int_text_at(s, p) == Parsed::Done(e, (q, e)));
    }
}

/// A floating-point literal at `p`: an optional `-`, digits, `.`, digits; its text.
pub open spec fn float_literal_at(s: Seq<u8>, p: int) -> Parsed<Seq<char>> {
    match int_text_at(s, p) {
        Parsed::Failed(fatal, x, k) => Parsed::Failed(fatal, x, k),
        Parsed::Done(e, _) => if 0 <= e < s.len() && s[e] == 46u8 {
            let f = digits_end(s, e + 1);
            if f == e + 1 {
                Parsed::Failed(false, e + 1, Expected::Digit)
            } else {
                Parsed::Done(f, ascii_text(s.subrange(p, f)))
            }
        } else {
            Parsed::Failed(false, e, Expected::Char(46u8))
        },
    }
}

/// The byte an escape `\` `c` stands for in a string literal.
pub open spec fn escaped_byte(c: u8) -> Option<u8> {
    if c == 110u8 {
        Some(10u8)
    } else if c == 114u8 {
        Some(13u8)
    } else if c == 116u8 {
        Some(9u8)
    } else if c == 92u8 {
        Some(92u8)
    } else if c == 34u8 {
        Some(34u8)
    } else {
        None
    }
}

/// The body of a string literal from `i`: where it stops (at `"`, at a `\` that starts
/// no escape, or at the end) and the bytes it stands for.
pub open spec fn string_body(s: Seq<u8>, i: int) -> (int, Seq<u8>)
    decreases s.len() - i,
{
    if i < 0 || i >= s.len() {
        (i, Seq::empty())
    } else if s[i] == 92u8 && i + 1 < s.len() && escaped_byte(s[i + 1]) is Some {
        let (e, b) = string_body(s, i + 2);
        (e, seq![escaped_byte(s[i + 1])->0] + b)
    } else if s[i] == 34u8 || s[i] == 92u8 {
        (i, Seq::empty())
    } else {
        let (e, b) = string_body(s, i + 1);
        (e, seq![s[i]] + b)
    }
}

pub proof fn lemma_string_body(s: Seq<u8>, i: int)
    requires
        0 <= i <= s.len(),
    ensures
        i <= string_body(s, i).0 <= s.len(),
    decreases s.len() - i,
{
    if i < s.len() {
        if s[i] == 92u8 && i + 1 < s.len() && escaped_byte(s[i + 1]) is Some {
            lemma_string_body(s, i + 2);
        } else if !(s[i] == 34u8 || s[i] == 92u8) {
            lemma_string_body(s, i + 1);
        }
    }
}

/// A string literal at `p`: `"`, characters and the escapes `\n`, `\r`, `\t`, `\\`, `\"`,
/// then `"`; its text.
pub open spec fn string_literal_at(s: Seq<u8>, p: int) -> Parsed<Seq<char>> {
    if 0 <= p < s.len() && s[p] == 34u8 {
        let (e, b) = string_body(s, p + 1);
        if 0 <= e < s.len() && s[e] == 34u8 {
            if valid_utf8(b) {
                Parsed::Done(e + 1, decode_utf8(b))
            } else {
                Parsed::Failed(false, p, Expected::StringChar)
            }
        } else {
            Parsed::Failed(false, e, Expected::Char(34u8))
        }
    } else {
        Parsed::Failed(false, p, Expected::Char(34u8))
    }
}

/// Inside a string literal each escape stands for one byte, fixed by the escape: `\n`
/// the line feed 10, `\r` the carriage return 13, `\t` the tab 9, `\\` the backslash
/// 92 and `\"` the quote 34; any other byte than `"` and `\` stands for itself. Reading
/// on after it is reading the rest of the body.
pub proof fn law_string_escapes(s: Seq<u8>, i: int)
    requires
        0 <= i,
    ensures
        i + 1 < s.len() && s[i] == 92u8 && s[i + 1] == 110u8
            ==> string_body(s, i) == (string_body(s, i + 2).0, seq![10u8] + string_body(s, i + 2).1),
        i + 1 < s.len() && s[i] == 92u8 && s[i + 1] == 114u8
            ==> string_body(s, i) == (string_body(s, i + 2).0, seq![13u8] + string_body(s, i + 2).1),
        i + 1 < s.len() && s[i] == 92u8 && s[i + 1] == 116u8
            ==> string_body(s, i) == (string_body(s, i + 2).0, seq![9u8] + string_body(s, i + 2).1),
        i + 1 < s.len() && s[i] == 92u8 && s[i + 1] == 92u8
            ==> string_body(s, i) == (string_body(s, i + 2).0, seq![92u8] + string_body(s, i + 2).1),
        i + 1 < s.len() && s[i] == 92u8 && s[i + 1] == 34u8
            ==> string_body(s, i) == (string_body(s, i + 2).0, seq![34u8] + string_body(s, i + 2).1),
        i < s.len() && s[i] != 92u8 && s[i] != 34u8
            ==> string_body(s, i) == (string_body(s, i + 1).0, seq![s[i]] + string_body(s, i + 1).1),
        i < s.len() && s[i] == 34u8 ==> string_body(s, i) == (i, Seq::<u8>::empty()),
{
}

/// A string literal at `p` is read up to its closing quote, and its text is what the
/// bytes of its body decode to.
pub proof fn law_string_literal(s: Seq<u8>, p: int)
    requires
        0 <= p < s.len(),
        s[p] == 34u8,
    ensures
        string_literal_at(s, p) matches Parsed::Done(e, t) ==> s[e - 1] == 34u8
            && e - 1 == string_body(s, p + 1).0 && t == decode_utf8(string_body(s, p + 1).1),
{
}

/// The bytes of `true`.
pub open spec fn lit_true() -> Seq<u8> {
    seq![116u8, 114u8, 117u8, 101u8]
}

/// The bytes of `false`.
pub open spec fn lit_false() -> Seq<u8> {
    seq![102u8, 97u8, 108u8, 115u8, 101u8]
}

/// The bytes of `()`.
pub open spec fn lit_unit() -> Seq<u8> {
    seq![40u8, 41u8]
}

/// `true` or `false` at `p`.
pub open spec fn bool_literal_at(s: Seq<u8>, p: int) -> Parsed<bool> {
    if crate::parser::common::lit_at(s, p, lit_true()) {
        Parsed::Done(p + 4, true)
    } else if crate::parser::common::lit_at(s, p, lit_false()) {
        Parsed::Done(p + 5, false)
    } else {
        Parsed::Failed(false, p, Expected::Keyword)
    }
}

/// `()`, with white space and comments around it: the end.
pub open spec fn unit_literal_at(s: Seq<u8>, p: int) -> Parsed<()> {
    match ws_lit(s, p, lit_unit()) {
        Some(e) => Parsed::Done(e, ()),
        None => Parsed::Failed(false, ws_end(s, p), Expected::Keyword),
    }
}

/// The mathematical value of a literal pattern value.
pub enum LiteralModel {
    Int(int),
    Float(Seq<char>),
    Bool(bool),
    Str(Seq<char>),
    Unit,
}

/// The model of a literal value.
pub open spec fn literal_model(v: LiteralValue) -> LiteralModel {
    match v {
        LiteralValue::Int(i) => LiteralModel::Int(i as int),
        LiteralValue::Float(t) => LiteralModel::Float(t@),
        LiteralValue::Bool(b) => LiteralModel::Bool(b),
        LiteralValue::String(t) => LiteralModel::Str(t@),
        LiteralValue::Unit => LiteralModel::Unit,
    }
}

/// A literal in a pattern: the first of integer, floating-point, string, boolean and
/// `()` that reads one.
pub open spec fn literal_pattern_value_at(s: Seq<u8>, p: int) -> Parsed<LiteralModel> {
    match int_literal_at(s, p) {
        Parsed::Done(e, v) => Parsed::Done(e, LiteralModel::Int(v)),
        Parsed::Failed(true, x, k) => Parsed::Failed(true, x, k),
        Parsed::Failed(false, _, _) => match float_literal_at(s, p) {
            Parsed::Done(e, t) => Parsed::Done(e, LiteralModel::Float(t)),
            Parsed::Failed(true, x, k) => Parsed::Failed(true, x, k),
            Parsed::Failed(false, _, _) => match string_literal_at(s, p) {
                Parsed::Done(e, t) => Parsed::Done(e, LiteralModel::Str(t)),
                Parsed::Failed(true, x, k) => Parsed::Failed(true, x, k),
                Parsed::Failed(false, _, _) => match bool_literal_at(s, p) {
                    Parsed::Done(e, b) => Parsed::Done(e, LiteralModel::Bool(b)),
                    Parsed::Failed(true, x, k) => Parsed::Failed(true, x, k),
                    Parsed::Failed(false, _, _) => match unit_literal_at(s, p) {
                        Parsed::Done(e, _) => Parsed::Done(e, LiteralModel::Unit),
                        Parsed::Failed(fatal, x, k) => Parsed::Failed(fatal, x, k),
                    },
                },
            },
        },
    }
}

/// The outcome of a function that reads a value of type `T`, through `f`.
pub open spec fn outcome_with<T, U>(r: Result<(usize, T), ParseFailure>, f: spec_fn(T) -> U) -> Parsed<U> {
    match r {
        Ok((e, v)) => Parsed::Done(e as int, f(v)),
        Err(x) => failure_outcome(x),
    }
}

// ---------------------------------------------------------------------------
// The parsing functions.
// ---------------------------------------------------------------------------

/// The end of the digits that start at `i`.
fn digits(input: &[u8], i: usize) -> (e: usize)
    requires
        i <= input@.len(),
    ensures
        e == digits_end(input@, i as int),
        i <= e <= input@.len(),
{
    let mut e = i;
    while e < input.len() && 48u8 <= input[e] && input[e] <= 57u8
        invariant
            i <= e <= input@.len(),
            digits_end(input@, e as int) == digits_end(input@, i as int),
        decreases input@.len() - e,
    {
        e = e + 1;
    }
    e
}

/// The text of an integer literal: an optional `-` and digits. Returns the end.
pub fn recognize_int_literal(input: &[u8], pos: usize) -> (r: Result<usize, ParseFailure>)
    requires
        pos <= input@.len(),
    ensures
        r matches Ok(e) ==> int_text_at(input@, pos as int) matches Parsed::Done(x, _) && x == e,
        r matches Err(f) ==> failure_outcome::<(int, int)>(f) == int_text_at(input@, pos as int),
        r matches Ok(e) ==> pos < e <= input@.len(),
        r matches Err(f) ==> f.pos <= input@.len(),
{
    let q = if pos < input.len() && input[pos] == 45u8 { pos + 1 } else { pos };
    let e = digits(input, q);
    if e == q {
        Err(miss(q, Expected::Digit))
    } else {
        Ok(e)
    }
}

/// An integer literal (no white space before it) and its value.
pub fn int_literal(input: &[u8], pos: usize) -> (r: Result<(usize, i64), ParseFailure>)
    requires
        pos <= input@.len(),
    ensures
        outcome_with(r, |v: i64| v as int) == int_literal_at(input@, pos as int),
        r matches Ok((e, _)) ==> pos < e <= input@.len(),
        r matches Err(f) ==> f.pos <= input@.len(),
{
    let neg = pos < input.len() && input[pos] == 45u8;
    let q = if neg { pos + 1 } else { pos };
    let e = digits(input, q);
    if e == q {
        return Err(miss(q, Expected::Digit));
    }
    proof {
        lemma_digits_end(input@, q as int);
    }
    let limit: u64 = if neg { 9223372036854775808u64 } else { 9223372036854775807u64 };
    let mut value: u64 = 0;
    let mut i = q;
    while i < e
        invariant
            q <= i <= e <= input@.len(),
            value == decimal_value(input@.subrange(q as int, i as int)),
            value <= limit,
            forall|k: int| q <= k < e ==> digit_byte(#[trigger] input@[k]),
            limit == if neg { 9223372036854775808u64 } else { 9223372036854775807u64 },
            pos <= q,
            q < e,
            q == if neg { pos + 1 } else { pos as int },
            neg <==> (pos < input@.len() && input@[pos as int] == 45u8),
            e == digits_end(input@, q as int),
        decreases e - i,
    {
        proof {
            assert(input@.subrange(q as int, i + 1).drop_last() =~= input@.subrange(q as int, i as int));
            assert(digit_byte(input@[i as int]));
        }
        let d = (input[i] - 48u8) as u64;
        if value > (limit - d) / 10 {
            proof {
                assert(decimal_value(input@.subrange(q as int, i + 1)) > limit) by (nonlinear_arith)
                    requires
                        decimal_value(input@.subrange(q as int, i + 1)) == value * 10 + d,
                        value > (limit - d) / 10,
                        d <= 9,
                        limit >= 9,
                ;
                let digits_seq = input@.subrange(q as int, e as int);
                assert forall|k: int| 0 <= k < digits_seq.len() implies digit_byte(#[trigger] digits_seq[k]) by {
                    assert(digits_seq[k] == input@[q + k]);
                }
                lemma_decimal_value_grows(digits_seq, i - q + 1);
                assert(digits_seq.take(i - q + 1) =~= input@.subrange(q as int, i + 1));
                let magnitude = decimal_value(digits_seq) as int;
                assert(magnitude > limit);
                assert(int_text_at(input@, pos as int) == Parsed::Done(e as int, (q as int, e as int)));
            }
            return Err(miss(pos, Expected::Representable));
        }
        proof {
            assert(value * 10 + d <= limit) by (nonlinear_arith)
                requires
                    value <= (limit - d) / 10,
                    d <= 9,
                    limit >= 9,
            ;
        }
        value = value * 10 + d;
        i = i + 1;
    }
    let v: i64 = if neg {
        if value == 9223372036854775808u64 {
            -9223372036854775807i64 - 1
        } else {
            -(value as i64)
        }
    } else {
        value as i64
    };
    Ok((e, v))
}

/// Longer digit strings have values at least as large.
proof fn lemma_decimal_value_grows(d: Seq<u8>, n: int)
    requires
        0 <= n <= d.len(),
        forall|k: int| 0 <= k < d.len() ==> digit_byte(#[trigger] d[k]),
    ensures
        decimal_value(d.take(n)) <= decimal_value(d),
    decreases d.len() - n,
{
    if n < d.len() {
        lemma_decimal_value_grows(d, n + 1);
        assert(d.take(n + 1).drop_last() =~= d.take(n));
        assert(decimal_value(d.take(n)) <= decimal_value(d.take(n + 1))) by (nonlinear_arith)
            requires
                decimal_value(d.take(n + 1)) == decimal_value(d.take(n)) * 10 + (d[n] - 48u8) as nat,
        ;
    } else {
        assert(d.take(n) =~= d);
    }
}

/// A floating-point literal and its text.
pub fn float_literal(input: &[u8], pos: usize) -> (r: Result<(usize, String), ParseFailure>)
    requires
        pos <= input@.len(),
    ensures
        outcome_with(r, |t: String| t@) == float_literal_at(input@, pos as int),
        r matches Ok((e, _)) ==> pos < e <= input@.len(),
        r matches Err(f) ==> f.pos <= input@.len(),
{
    match recognize_int_literal(input, pos) {
        Err(f) => Err(f),
        Ok(e) => {
            if e < input.len() && input[e] == 46u8 {
                let f = digits(input, e + 1);
                if f == e + 1 {
                    Err(miss(e + 1, Expected::Digit))
                } else {
                    Ok((f, ascii_string(input, pos, f)))
                }
            } else {
                Err(miss(e, Expected::Char(46u8)))
            }
        },
    }
}

/// A string literal and its text.
pub fn string_literal(input: &[u8], pos: usize) -> (r: Result<(usize, String), ParseFailure>)
    requires
        pos <= input@.len(),
    ensures
        outcome_with(r, |t: String| t@) == string_literal_at(input@, pos as int),
        r matches Ok((e, _)) ==> pos < e <= input@.len(),
        r matches Err(f) ==> f.pos <= input@.len(),
{
    if !(pos < input.len() && input[pos] == 34u8) {
        return Err(miss(pos, Expected::Char(34u8)));
    }
    let mut bytes: Vec<u8> = Vec::new();
    let mut i = pos + 1;
    proof {
        lemma_string_body(input@, i as int);
    }
    loop
        invariant
            pos + 1 <= i <= input@.len(),
            string_body(input@, pos + 1) == (string_body(input@, i as int).0, bytes@ + string_body(input@, i as int).1),
        ensures
            pos + 1 <= i <= input@.len(),
            string_body(input@, pos + 1) == (string_body(input@, i as int).0, bytes@ + string_body(input@, i as int).1),
            string_body(input@, i as int).0 == i,
            string_body(input@, i as int).1 == Seq::<u8>::empty(),
        decreases input@.len() - i,
    {
        if i >= input.len() {
            break;
        }
        let b = input[i];
        if b == 92u8 && i + 1 < input.len() {
            let c = input[i + 1];
            let esc: Option<u8> = if c == 110u8 {
                Some(10u8)
            } else if c == 114u8 {
                Some(13u8)
            } else if c == 116u8 {
                Some(9u8)
            } else if c == 92u8 {
                Some(92u8)
            } else if c == 34u8 {
                Some(34u8)
            } else {
                None
            };
            match esc {
                Some(x) => {
                    let ghost before = bytes@;
                    bytes.push(x);
                    proof {
                        assert(before + (seq![x] + string_body(input@, i + 2).1) =~= bytes@ + string_body(input@, i + 2).1);
                    }
                    i = i + 2;
                    continue;
                },
                None => {
                    break;
                },
            }
        }
        if b == 34u8 || b == 92u8 {
            break;
        }
        let ghost before = bytes@;
        bytes.push(b);
        proof {
            assert(before + (seq![b] + string_body(input@, i + 1).1) =~= bytes@ + string_body(input@, i + 1).1);
        }
        i = i + 1;
    }
    proof {
        assert(string_body(input@, i as int).1 =~= Seq::<u8>::empty());
        assert(bytes@ + Seq::<u8>::empty() =~= bytes@);
    }
    if i < input.len() && input[i] == 34u8 {
        match utf8_text(bytes.as_slice()) {
            Some(text) => Ok((i + 1, String::from_str(text))),
            None => Err(miss(pos, Expected::StringChar)),
        }
    } else {
        Err(miss(i, Expected::Char(34u8)))
    }
}

/// `true` or `false`.
pub fn bool_literal(input: &[u8], pos: usize) -> (r: Result<(usize, bool), ParseFailure>)
    requires
        pos <= input@.len(),
    ensures
        outcome_with(r, |b: bool| b) == bool_literal_at(input@, pos as int),
        r matches Ok((e, _)) ==> pos < e <= input@.len(),
        r matches Err(f) ==> f.pos <= input@.len(),
{
    let t: [u8; 4] = [116u8, 114u8, 117u8, 101u8];
    let f: [u8; 5] = [102u8, 97u8, 108u8, 115u8, 101u8];
    proof {
        assert(t@ =~= lit_true());
        assert(f@ =~= lit_false());
    }
    if crate::parser::common::tag_at(input, pos, &t) {
        assert(pos + 4 <= input.len());
        Ok((pos + 4, true))
    } else if crate::parser::common::tag_at(input, pos, &f) {
        assert(pos + 5 <= input.len());
        Ok((pos + 5, false))
    } else {
        Err(miss(pos, Expected::Keyword))
    }
}

/// The kind of a literal expression.
pub open spec fn literal_expr_value(e: Expr) -> Option<LiteralModel> {
    match e {
        Expr::IntLiteral(v, _) => Some(LiteralModel::Int(v as int)),
        Expr::FloatLiteral(t, _) => Some(LiteralModel::Float(t@)),
        Expr::BoolLiteral(b, _) => Some(LiteralModel::Bool(b)),
        Expr::StringLiteral(t, _) => Some(LiteralModel::Str(t@)),
        Expr::UnitLiteral(_) => Some(LiteralModel::Unit),
        _ => None,
    }
}

/// The span of an expression that is a literal.
pub open spec fn literal_expr_span(e: Expr) -> Option<crate::ast::Span> {
    match e {
        Expr::IntLiteral(_, sp) => Some(sp),
        Expr::FloatLiteral(_, sp) => Some(sp),
        Expr::BoolLiteral(_, sp) => Some(sp),
        Expr::StringLiteral(_, sp) => Some(sp),
        Expr::UnitLiteral(sp) => Some(sp),
        _ => None,
    }
}

/// An integer literal expression, with the span where it ends.
pub fn int_literal_expr(input: &[u8], pos: usize) -> (r: Result<(usize, Expr), ParseFailure>)
    requires
        pos <= input@.len(),
    ensures
        match int_literal_at(input@, pos as int) {
            Parsed::Done(e, v) => r matches Ok((x, ex)) && x == e && literal_expr_value(ex) == Some(LiteralModel::Int(v))
                && literal_expr_span(ex) == Some(span_of(input@, e)),
            Parsed::Failed(fatal, x, k) => r matches Err(f) && failure_outcome::<()>(f) == Parsed::<()>::Failed(fatal, x, k),
        },
        r matches Ok((e, _)) ==> pos < e <= input@.len(),
        r matches Err(f) ==> f.pos <= input@.len(),
{
    match int_literal(input, pos) {
        Ok((e, v)) => Ok((e, Expr::IntLiteral(v, span_at(input, e)))),
        Err(f) => Err(f),
    }
}

/// A floating-point literal expression.
pub fn float_literal_expr(input: &[u8], pos: usize) -> (r: Result<(usize, Expr), ParseFailure>)
    requires
        pos <= input@.len(),
    ensures
        match float_literal_at(input@, pos as int) {
            Parsed::Done(e, t) => r matches Ok((x, ex)) && x == e && literal_expr_value(ex) == Some(LiteralModel::Float(t))
                && literal_expr_span(ex) == Some(span_of(input@, e)),
            Parsed::Failed(fatal, x, k) => r matches Err(f) && failure_outcome::<()>(f) == Parsed::<()>::Failed(fatal, x, k),
        },
        r matches Ok((e, _)) ==> pos < e <= input@.len(),
        r matches Err(f) ==> f.pos <= input@.len(),
{
    match float_literal(input, pos) {
        Ok((e, t)) => Ok((e, Expr::FloatLiteral(t, span_at(input, e)))),
        Err(f) => Err(f),
    }
}

/// A string literal expression.
pub fn string_literal_expr(input: &[u8], pos: usize) -> (r: Result<(usize, Expr), ParseFailure>)
    requires
        pos <= input@.len(),
    ensures
        match string_literal_at(input@, pos as int) {
            Parsed::Done(e, t) => r matches Ok((x, ex)) && x == e && literal_expr_value(ex) == Some(LiteralModel::Str(t))
                && literal_expr_span(ex) == Some(span_of(input@, e)),
            Parsed::Failed(fatal, x, k) => r matches Err(f) && failure_outcome::<()>(f) == Parsed::<()>::Failed(fatal, x, k),
        },
        r matches Ok((e, _)) ==> pos < e <= input@.len(),
        r matches Err(f) ==> f.pos <= input@.len(),
{
    match string_literal(input, pos) {
        Ok((e, t)) => Ok((e, Expr::StringLiteral(t, span_at(input, e)))),
        Err(f) => Err(f),
    }
}

/// A boolean literal expression.
pub fn bool_literal_expr(input: &[u8], pos: usize) -> (r: Result<(usize, Expr), ParseFailure>)
    requires
        pos <= input@.len(),
    ensures
        match bool_literal_at(input@, pos as int) {
            Parsed::Done(e, b) => r matches Ok((x, ex)) && x == e && literal_expr_value(ex) == Some(LiteralModel::Bool(b))
                && literal_expr_span(ex) == Some(span_of(input@, e)),
            Parsed::Failed(fatal, x, k) => r matches Err(f) && failure_outcome::<()>(f) == Parsed::<()>::Failed(fatal, x, k),
        },
        r matches Ok((e, _)) ==> pos < e <= input@.len(),
        r matches Err(f) ==> f.pos <= input@.len(),
{
    match bool_literal(input, pos) {
        Ok((e, b)) => Ok((e, Expr::BoolLiteral(b, span_at(input, e)))),
        Err(f) => Err(f),
    }
}

/// The unit literal `()` as an expression.
pub fn unit_literal_expr(input: &[u8], pos: usize) -> (r: Result<(usize, Expr), ParseFailure>)
    requires
        pos <= input@.len(),
    ensures
        match unit_literal_at(input@, pos as int) {
            Parsed::Done(e, _) => r matches Ok((x, ex)) && x == e && literal_expr_value(ex) == Some(LiteralModel::Unit)
                && literal_expr_span(ex) == Some(span_of(input@, e)),
            Parsed::Failed(fatal, x, k) => r matches Err(f) && failure_outcome::<()>(f) == Parsed::<()>::Failed(fatal, x, k),
        },
        r matches Ok((e, _)) ==> pos < e <= input@.len(),
        r matches Err(f) ==> f.pos <= input@.len(),
{
    proof {
        lemma_ws_end(input@, pos as int);
    }
    let u: [u8; 2] = [40u8, 41u8];
    proof {
        assert(u@ =~= lit_unit());
    }
    match keyword(input, pos, &u) {
        Some(e) => Ok((e, Expr::UnitLiteral(span_at(input, e)))),
        None => Err(miss(ws_comments(input, pos), Expected::Keyword)),
    }
}

/// A literal in a pattern.
pub fn literal_pattern_value(input: &[u8], pos: usize) -> (r: Result<(usize, LiteralValue), ParseFailure>)
    requires
        pos <= input@.len(),
    ensures
        outcome_with(r, |v: LiteralValue| literal_model(v)) == literal_pattern_value_at(input@, pos as int),
        r matches Ok((e, _)) ==> pos < e <= input@.len(),
        r matches Err(f) ==> f.pos <= input@.len(),
{
    match int_literal(input, pos) {
        Ok((e, v)) => {
            return Ok((e, LiteralValue::Int(v)));
        },
        Err(f) => if f.fatal {
            return Err(f);
        },
    }
    match float_literal(input, pos) {
        Ok((e, t)) => {
            return Ok((e, LiteralValue::Float(t)));
        },
        Err(f) => if f.fatal {
            return Err(f);
        },
    }
    match string_literal(input, pos) {
        Ok((e, t)) => {
            return Ok((e, LiteralValue::String(t)));
        },
        Err(f) => if f.fatal {
            return Err(f);
        },
    }
    match bool_literal(input, pos) {
        Ok((e, b)) => {
            return Ok((e, LiteralValue::Bool(b)));
        },
        Err(f) => if f.fatal {
            return Err(f);
        },
    }
    match unit_literal_expr(input, pos) {
        Ok((e, _)) => Ok((e, LiteralValue::Unit)),
        Err(f) => Err(f),
    }
}

} // verus!
