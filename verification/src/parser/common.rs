//! Parser context, positions, white space and comments, identifiers and keywords.
use vstd::prelude::*;
use crate::ast::Span;
use vstd::string::StringSliceAdditionalSpecFns;
use crate::chars::{push_char, utf8_text, chars_of};
use crate::error::{Error, ErrorKind};
use vstd::utf8::{decode_utf8, valid_utf8};
use crate::symbol::{
    Symbol, SymbolTable, ScopeKind, SymbolKind, has_name, unused_of, of_kind, deref_opt,
};

verus! {

/// The number of newline bytes in `s`.
pub open spec fn count_newlines(s: Seq<u8>) -> nat
    decreases s.len(),
{
    if s.len() == 0 {
        0
    } else {
        count_newlines(s.drop_last()) + if s.last() == 10u8 { 1nat } else { 0nat }
    }
}

/// Whether a byte starts a character in UTF-8, that is, it is not a continuation byte.
pub open spec fn char_start(b: u8) -> bool {
    b < 128u8 || b >= 192u8
}

/// The number of characters that start among the bytes `s`.
pub open spec fn char_count(s: Seq<u8>) -> nat
    decreases s.len(),
{
    if s.len() == 0 {
        0
    } else {
        char_count(s.drop_last()) + if char_start(s.last()) { 1nat } else { 0nat }
    }
}

/// The byte index where the last character of `s` starts (0 when none does).
pub open spec fn last_char_start(s: Seq<u8>) -> int
    decreases s.len(),
{
    if s.len() == 0 {
        0
    } else if char_start(s.last()) {
        s.len() - 1
    } else {
        last_char_start(s.drop_last())
    }
}

/// The number of characters of `s` after its last newline (all of them when it has
/// none).
pub open spec fn chars_after_newline(s: Seq<u8>) -> nat
    decreases s.len(),
{
    if s.len() == 0 || s.last() == 10u8 {
        0
    } else {
        chars_after_newline(s.drop_last()) + if char_start(s.last()) { 1nat } else { 0nat }
    }
}

/// A span for positions that nothing reads.
pub open spec fn no_span() -> Span {
    Span { start: 0, end: 0, line: 0, column: 0 }
}

/// The span recorded when `consumed` bytes of `input` have been read: it covers the
/// last character read, from its character index to the number of characters read,
/// and gives the line and column where that character starts.
pub open spec fn span_of(input: Seq<u8>, consumed: int) -> Span {
    let read = input.take(consumed);
    let prefix = input.take(last_char_start(read));
    Span {
        start: char_count(prefix) as usize,
        end: char_count(read) as usize,
        line: (1 + count_newlines(prefix)) as usize,
        column: (1 + chars_after_newline(prefix)) as usize,
    }
}

/// The index of the last newline byte in `s`.
pub open spec fn last_newline(s: Seq<u8>) -> Option<int>
    decreases s.len(),
{
    if s.len() == 0 {
        None
    } else if s.last() == 10u8 {
        Some(s.len() - 1)
    } else {
        last_newline(s.drop_last())
    }
}

/// Counting over ASCII bytes: every byte is a character.
proof fn lemma_ascii_counts(s: Seq<u8>)
    requires
        forall|i: int| 0 <= i < s.len() ==> #[trigger] s[i] < 128u8,
    ensures
        char_count(s) == s.len(),
        last_char_start(s) == if s.len() == 0 { 0 } else { s.len() - 1 },
        chars_after_newline(s) == match last_newline(s) {
            Some(k) => s.len() - k - 1,
            None => s.len() as int,
        },
        last_newline(s) matches Some(k) ==> 0 <= k < s.len(),
    decreases s.len(),
{
    if s.len() > 0 {
        let t = s.drop_last();
        assert forall|i: int| 0 <= i < t.len() implies #[trigger] t[i] < 128u8 by {
            assert(t[i] == s[i]);
        }
        lemma_ascii_counts(t);
        assert(s[s.len() - 1] < 128u8);
    }
}

/// On ASCII input, the span recorded after `consumed` bytes counts in bytes: it starts
/// one byte before `consumed` (at 0 when nothing was read) and ends at `consumed`; its
/// line is one more than the newlines before its start, and its column is the distance
/// from the last such newline (one more than the start when there is none).
pub proof fn law_span_of_ascii(input: Seq<u8>, consumed: int)
    requires
        0 <= consumed <= input.len(),
        forall|i: int| 0 <= i < input.len() ==> #[trigger] input[i] < 128u8,
    ensures
        ({
            let st = if consumed >= 1 { consumed - 1 } else { 0 };
            let prefix = input.take(st);
            span_of(input, consumed) == Span {
                start: st as usize,
                end: consumed as usize,
                line: (1 + count_newlines(prefix)) as usize,
                column: (match last_newline(prefix) {
                    Some(k) => st - k,
                    None => 1 + st,
                }) as usize,
            }
        }),
{
    let read = input.take(consumed);
    assert forall|i: int| 0 <= i < read.len() implies #[trigger] read[i] < 128u8 by {
        assert(read[i] == input[i]);
    }
    lemma_ascii_counts(read);
    let st = if consumed >= 1 { consumed - 1 } else { 0 };
    let prefix = input.take(st);
    assert forall|i: int| 0 <= i < prefix.len() implies #[trigger] prefix[i] < 128u8 by {
        assert(prefix[i] == input[i]);
    }
    lemma_ascii_counts(prefix);
}

/// The byte where the last character of the first `n` bytes starts.
fn last_start_of(input: &[u8], n: usize) -> (r: (usize, usize))
    requires
        n <= input@.len(),
    ensures
        r.0 == last_char_start(input@.take(n as int)),
        r.1 == char_count(input@.take(n as int)),
        r.0 <= n,
        n > 0 ==> r.0 < n,
{
    let mut i: usize = 0;
    let mut count: usize = 0;
    let mut last: usize = 0;
    while i < n
        invariant
            n <= input@.len(),
            i <= n,
            count == char_count(input@.take(i as int)),
            last == last_char_start(input@.take(i as int)),
            count <= i,
            last <= i,
            i > 0 ==> last < i,
        decreases n - i,
    {
        proof {
            assert(input@.take(i + 1).drop_last() =~= input@.take(i as int));
        }
        let b = input[i];
        if b < 128u8 || b >= 192u8 {
            count = count + 1;
            last = i;
        }
        i = i + 1;
    }
    (last, count)
}

/// The characters, newlines and characters since the last newline in the first `n`
/// bytes.
fn line_counts(input: &[u8], n: usize) -> (r: (usize, usize, usize))
    requires
        n <= input@.len(),
    ensures
        r.0 == char_count(input@.take(n as int)),
        r.1 == count_newlines(input@.take(n as int)),
        r.2 == chars_after_newline(input@.take(n as int)),
        r.0 <= n,
        r.1 <= n,
        r.2 <= n,
{
    let mut i: usize = 0;
    let mut count: usize = 0;
    let mut newlines: usize = 0;
    let mut column: usize = 0;
    while i < n
        invariant
            n <= input@.len(),
            i <= n,
            count == char_count(input@.take(i as int)),
            newlines == count_newlines(input@.take(i as int)),
            column == chars_after_newline(input@.take(i as int)),
            count <= i,
            newlines <= i,
            column <= i,
        decreases n - i,
    {
        proof {
            assert(input@.take(i + 1).drop_last() =~= input@.take(i as int));
        }
        let b = input[i];
        if b < 128u8 || b >= 192u8 {
            count = count + 1;
        }
        if b == 10u8 {
            newlines = newlines + 1;
            column = 0;
        } else if b < 128u8 || b >= 192u8 {
            column = column + 1;
        }
        i = i + 1;
    }
    (count, newlines, column)
}

/// The span recorded when `consumed` bytes of `input` have been read.
pub fn span_at(input: &[u8], consumed: usize) -> (s: Span)
    requires
        consumed <= input@.len(),
    ensures
        s == span_of(input@, consumed as int),
{
    let (last, end) = last_start_of(input, consumed);
    proof {
        assert(input@.take(consumed as int).take(last as int) =~= input@.take(last as int));
    }
    let (start, newlines, column) = line_counts(input, last);
    Span { start, end, line: 1 + newlines, column: 1 + column }
}

/// Parser state shared by the parsing functions: the original text, the file name and
/// the current scope.
pub struct ParserContext<'a> {
    /// The original input.
    pub original_input: &'a str,
    /// The file name.
    pub filename: Option<String>,
    /// The current scope.
    pub symbol_table: SymbolTable,
}

impl<'a> ParserContext<'a> {
    /// The current scope.
    pub open spec fn scope(self) -> SymbolTable {
        self.symbol_table
    }

    /// A context for the input, whose current scope is an empty global scope.
    pub fn new(input: &'a str, filename: Option<String>) -> (ctx: ParserContext<'a>)
        ensures
            ctx.original_input == input,
            ctx.filename == filename,
            ctx.scope().symbols() == Seq::<Symbol>::empty(),
            ctx.scope().parent_scope() is None,
            ctx.scope().kind() == ScopeKind::Global,
            ctx.scope().wf(),
    {
        ParserContext { original_input: input, filename, symbol_table: SymbolTable::new(ScopeKind::Global) }
    }

    /// Opens a new scope of the given kind inside the current one.
    pub fn enter_scope(&mut self, scope_kind: ScopeKind)
        requires
            old(self).scope().wf(),
        ensures
            final(self).scope().wf(),
            final(self).scope().symbols() == Seq::<Symbol>::empty(),
            final(self).scope().parent_scope() == Some(old(self).scope()),
            final(self).scope().kind() == scope_kind,
            final(self).original_input == old(self).original_input,
            final(self).filename == old(self).filename,
    {
        let mut current = SymbolTable::new(ScopeKind::Global);
        std::mem::swap(&mut current, &mut self.symbol_table);
        self.symbol_table = SymbolTable::with_parent(scope_kind, current);
    }

    /// Closes the current scope and returns to the enclosing one; does nothing in a
    /// scope without an enclosing one.
    pub fn exit_scope(&mut self)
        requires
            old(self).scope().wf(),
        ensures
            final(self).scope().wf(),
            final(self).scope() == match old(self).scope().parent_scope() {
                Some(p) => p,
                None => old(self).scope(),
            },
            final(self).original_input == old(self).original_input,
            final(self).filename == old(self).filename,
    {
        let mut current = SymbolTable::new(ScopeKind::Global);
        std::mem::swap(&mut current, &mut self.symbol_table);
        self.symbol_table = current.into_enclosing();
    }

    /// Adds a symbol to the current scope (see `SymbolTable::add_symbol`).
    pub fn add_symbol(&mut self, symbol: Symbol) -> (added: bool)
        requires
            old(self).scope().wf(),
        ensures
            final(self).scope().wf(),
            added == !has_name(old(self).scope().symbols(), symbol.name@),
            added ==> final(self).scope().symbols() == old(self).scope().symbols().push(symbol),
            !added ==> final(self).scope().symbols() == old(self).scope().symbols(),
            final(self).scope().parent_scope() == old(self).scope().parent_scope(),
            final(self).scope().kind() == old(self).scope().kind(),
            final(self).original_input == old(self).original_input,
            final(self).filename == old(self).filename,
    {
        self.symbol_table.add_symbol(symbol)
    }

    /// The symbol that the name resolves to from the current scope.
    pub fn lookup_symbol(&self, name: &str) -> (r: Option<&Symbol>)
        requires
            self.scope().wf(),
        ensures
            deref_opt(r) == self.scope().resolve(name@),
    {
        self.symbol_table.lookup_symbol_recursive(name)
    }

    /// Marks the symbol that the name resolves to as used.
    pub fn mark_symbol_used(&mut self, name: &str) -> (found: bool)
        requires
            old(self).scope().wf(),
        ensures
            final(self).scope().wf(),
            found == old(self).scope().resolve(name@) is Some,
            SymbolTable::marks_used(old(self).scope(), final(self).scope(), name@),
            final(self).original_input == old(self).original_input,
            final(self).filename == old(self).filename,
    {
        self.symbol_table.mark_symbol_used(name)
    }

    /// The symbols of the current scope that are not used.
    pub fn find_unused_symbols(&self) -> (r: Vec<&Symbol>)
        ensures
            r@.len() == unused_of(self.scope().symbols()).len(),
            forall|i: int| 0 <= i < r@.len() ==> *r@[i] == unused_of(self.scope().symbols())[i],
    {
        self.symbol_table.find_unused_symbols()
    }

    /// The symbols of the current scope of the given kind.
    pub fn find_symbols_by_kind(&self, kind: SymbolKind) -> (r: Vec<&Symbol>)
        ensures
            r@.len() == of_kind(self.scope().symbols(), kind).len(),
            forall|i: int| 0 <= i < r@.len() ==> *r@[i] == of_kind(self.scope().symbols(), kind)[i],
    {
        self.symbol_table.find_symbols_by_kind(kind)
    }

    /// The kind of the current scope.
    pub fn current_scope_kind(&self) -> (k: ScopeKind)
        ensures
            k == self.scope().kind(),
    {
        self.symbol_table.scope_kind()
    }

    /// The number of scopes that enclose the current one.
    pub fn scope_depth(&self) -> (d: usize)
        requires
            self.scope().depth() <= usize::MAX,
        ensures
            d == self.scope().depth(),
    {
        let mut depth: usize = 0;
        let mut current: &SymbolTable = &self.symbol_table;
        loop
            invariant
                depth + current.depth() == self.scope().depth(),
                self.scope().depth() <= usize::MAX,
            decreases current.depth(),
        {
            proof {
                current.lemma_depth_parent();
            }
            match current.parent() {
                Some(p) => {
                    depth = depth + 1;
                    current = p;
                },
                None => {
                    return depth;
                },
            }
        }
    }

    /// The span recorded when the parser has read up to `remaining`: it covers the last
    /// byte read, and gives its line and column.
    pub fn calculate_span(&self, remaining: &'a str) -> (s: Span)
        requires
            remaining.spec_bytes().len() <= self.original_input.spec_bytes().len(),
        ensures
            s == span_of(
                self.original_input.spec_bytes(),
                self.original_input.spec_bytes().len() - remaining.spec_bytes().len(),
            ),
    {
        let bytes = self.original_input.as_bytes();
        let consumed = bytes.len() - remaining.len();
        span_at(bytes, consumed)
    }
}


/// Leaving a scope that was entered from `outer` returns to `outer`: `exit_scope` after
/// `enter_scope` gives back the scope, with its symbols, that was current before.
pub proof fn law_exit_after_enter(outer: SymbolTable, inner: SymbolTable)
    requires
        inner.parent_scope() == Some(outer),
    ensures
        (match inner.parent_scope() {
            Some(p) => p,
            None => inner,
        }) == outer,
{
}

// ---------------------------------------------------------------------------
// Bytes, white space, comments, identifiers and literal tags.
// ---------------------------------------------------------------------------

/// The white space bytes: space, tab, carriage return, line feed.
pub open spec fn space_byte(b: u8) -> bool {
    b == 32u8 || b == 9u8 || b == 13u8 || b == 10u8
}

/// Whether `lit` occurs in `s` at `p`.
pub open spec fn lit_at(s: Seq<u8>, p: int, lit: Seq<u8>) -> bool {
    0 <= p && p + lit.len() <= s.len() && s.subrange(p, p + lit.len()) == lit
}

/// The index of the first line feed at or after `i`, or the length.
pub open spec fn line_feed_at_or_after(s: Seq<u8>, i: int) -> int
    decreases s.len() - i,
{
    if i >= s.len() || s[i] == 10u8 {
        i
    } else {
        line_feed_at_or_after(s, i + 1)
    }
}

/// The end of a line comment at `p`: `//`, at least one byte other than a line feed,
/// up to and including the line feed that ends it (or to the end of the input).
pub open spec fn comment_end(s: Seq<u8>, p: int) -> Option<int> {
    if 0 <= p && p + 2 < s.len() && s[p] == 47u8 && s[p + 1] == 47u8 && s[p + 2] != 10u8 {
        let e = line_feed_at_or_after(s, p + 2);
        Some(if e < s.len() { e + 1 } else { e })
    } else {
        None
    }
}

pub proof fn lemma_line_feed_at_or_after(s: Seq<u8>, i: int)
    requires
        0 <= i <= s.len(),
    ensures
        i <= line_feed_at_or_after(s, i) <= s.len(),
        line_feed_at_or_after(s, i) < s.len() ==> s[line_feed_at_or_after(s, i)] == 10u8,
    decreases s.len() - i,
{
    if i < s.len() && s[i] != 10u8 {
        lemma_line_feed_at_or_after(s, i + 1);
    }
}

/// The position after the white space and comments that start at `p`.
pub open spec fn ws_end(s: Seq<u8>, p: int) -> int
    decreases s.len() - p,
{
    if p < 0 || p >= s.len() {
        p
    } else if space_byte(s[p]) {
        ws_end(s, p + 1)
    } else {
        match comment_end(s, p) {
            Some(e) => {
                proof {
                    lemma_line_feed_at_or_after(s, p + 2);
                }
                ws_end(s, e)
            },
            None => p,
        }
    }
}

pub proof fn lemma_ws_end(s: Seq<u8>, p: int)
    requires
        0 <= p <= s.len(),
    ensures
        p <= ws_end(s, p) <= s.len(),
        ws_end(s, ws_end(s, p)) == ws_end(s, p),
    decreases s.len() - p,
{
    if p < s.len() {
        if space_byte(s[p]) {
            lemma_ws_end(s, p + 1);
        } else {
            match comment_end(s, p) {
                Some(e) => {
                    lemma_line_feed_at_or_after(s, p + 2);
                    lemma_ws_end(s, e);
                },
                None => {},
            }
        }
    }
}

/// The end of the comment that starts at `pos`, if one does.
pub fn skip_comment(input: &[u8], pos: usize) -> (r: Option<usize>)
    requires
        pos <= input@.len(),
    ensures
        r matches Some(e) ==> comment_end(input@, pos as int) == Some(e as int),
        r is None ==> comment_end(input@, pos as int) is None,
{
    if input.len() - pos > 2 && input[pos] == 47u8 && input[pos + 1] == 47u8 && input[pos + 2] != 10u8 {
        let mut i = pos + 2;
        while i < input.len() && input[i] != 10u8
            invariant
                pos + 2 <= i <= input@.len(),
                line_feed_at_or_after(input@, i as int) == line_feed_at_or_after(input@, pos + 2),
            decreases input@.len() - i,
        {
            i = i + 1;
        }
        if i < input.len() {
            Some(i + 1)
        } else {
            Some(i)
        }
    } else {
        None
    }
}

/// The position after the white space and comments that start at `pos`.
pub fn ws_comments(input: &[u8], pos: usize) -> (r: usize)
    requires
        pos <= input@.len(),
    ensures
        r == ws_end(input@, pos as int),
        pos <= r <= input@.len(),
{
    proof {
        lemma_ws_end(input@, pos as int);
    }
    let mut p = pos;
    loop
        invariant
            pos <= p <= input@.len(),
            ws_end(input@, p as int) == ws_end(input@, pos as int),
        decreases input@.len() - p,
    {
        if p < input.len() && (input[p] == 32u8 || input[p] == 9u8 || input[p] == 13u8 || input[p] == 10u8) {
            p = p + 1;
        } else {
            match skip_comment(input, p) {
                Some(e) => {
                    proof {
                        lemma_line_feed_at_or_after(input@, p + 2);
                    }
                    p = e;
                },
                None => {
                    return p;
                },
            }
        }
    }
}

/// Whether `lit` occurs in the input at `pos`.
pub fn tag_at(input: &[u8], pos: usize, lit: &[u8]) -> (r: bool)
    requires
        pos <= input@.len(),
    ensures
        r == lit_at(input@, pos as int, lit@),
{
    if lit.len() > input.len() - pos {
        return false;
    }
    let mut i: usize = 0;
    while i < lit.len()
        invariant
            i <= lit@.len(),
            pos <= input@.len(),
            pos + lit@.len() <= input@.len(),
            pos + lit.len() <= input.len(),
            forall|k: int| 0 <= k < i ==> input@[pos + k] == lit@[k],
        decreases lit@.len() - i,
    {
        assert(pos + i < input@.len());
        if input[pos + i] != lit[i] {
            assert(input@.subrange(pos as int, pos + lit@.len())[i as int] != lit@[i as int]);
            return false;
        }
        i = i + 1;
    }
    assert(input@.subrange(pos as int, pos + lit@.len()) =~= lit@);
    true
}

/// `lit` surrounded by white space and comments, at `p`: the position after it.
pub open spec fn ws_lit(s: Seq<u8>, p: int, lit: Seq<u8>) -> Option<int> {
    let q = ws_end(s, p);
    if lit_at(s, q, lit) {
        Some(ws_end(s, q + lit.len()))
    } else {
        None
    }
}

/// A keyword (or any fixed text) surrounded by white space and comments: the position
/// after it and the white space that follows.
pub fn keyword(input: &[u8], pos: usize, kw: &[u8]) -> (r: Option<usize>)
    requires
        pos <= input@.len(),
    ensures
        r matches Some(e) ==> ws_lit(input@, pos as int, kw@) == Some(e as int) && pos + kw@.len() <= e <= input@.len(),
        r is None ==> ws_lit(input@, pos as int, kw@) is None,
{
    let q = ws_comments(input, pos);
    if tag_at(input, q, kw) {
        proof {
            lemma_ws_end(input@, pos as int);
        }
        assert(q + kw.len() <= input.len());
        let e = ws_comments(input, q + kw.len());
        Some(e)
    } else {
        None
    }
}

/// The identifier bytes: ASCII letters, digits and `_`.
pub open spec fn ident_start_byte(b: u8) -> bool {
    (65u8 <= b <= 90u8) || (97u8 <= b <= 122u8) || b == 95u8
}

pub open spec fn ident_byte(b: u8) -> bool {
    ident_start_byte(b) || (48u8 <= b <= 57u8)
}

/// The index of the first byte at or after `i` that cannot continue an identifier.
pub open spec fn ident_rest(s: Seq<u8>, i: int) -> int
    decreases s.len() - i,
{
    if i < 0 || i >= s.len() || !ident_byte(s[i]) {
        i
    } else {
        ident_rest(s, i + 1)
    }
}

pub proof fn lemma_ident_rest(s: Seq<u8>, i: int)
    requires
        0 <= i <= s.len(),
    ensures
        i <= ident_rest(s, i) <= s.len(),
        forall|k: int| i <= k < ident_rest(s, i) ==> ident_byte(#[trigger] s[k]),
    decreases s.len() - i,
{
    if i < s.len() && ident_byte(s[i]) {
        lemma_ident_rest(s, i + 1);
    }
}

/// The end of the identifier that starts at `p`: a letter or `_`, then letters,
/// digits and `_`.
pub open spec fn ident_at(s: Seq<u8>, p: int) -> Option<int> {
    if 0 <= p < s.len() && ident_start_byte(s[p]) {
        Some(ident_rest(s, p + 1))
    } else {
        None
    }
}

/// The characters of ASCII bytes.
pub open spec fn ascii_text(b: Seq<u8>) -> Seq<char> {
    Seq::new(b.len(), |i: int| b[i] as char)
}

/// The end of the identifier that starts at `pos`.
pub fn identifier(input: &[u8], pos: usize) -> (r: Option<usize>)
    requires
        pos <= input@.len(),
    ensures
        r matches Some(e) ==> ident_at(input@, pos as int) == Some(e as int) && pos < e <= input@.len(),
        r is None ==> ident_at(input@, pos as int) is None,
{
    if pos < input.len() && ((65u8 <= input[pos] && input[pos] <= 90u8) || (97u8 <= input[pos] && input[pos] <= 122u8) || input[pos] == 95u8) {
        let mut i = pos + 1;
        while i < input.len() && ((65u8 <= input[i] && input[i] <= 90u8) || (97u8 <= input[i] && input[i] <= 122u8) || input[i] == 95u8 || (48u8 <= input[i] && input[i] <= 57u8))
            invariant
                pos < i <= input@.len(),
                ident_rest(input@, i as int) == ident_rest(input@, pos + 1),
            decreases input@.len() - i,
        {
            i = i + 1;
        }
        Some(i)
    } else {
        None
    }
}

/// The text of the ASCII bytes from `start` to `end`.
pub fn ascii_string(input: &[u8], start: usize, end: usize) -> (s: String)
    requires
        start <= end <= input@.len(),
    ensures
        s@ == ascii_text(input@.subrange(start as int, end as int)),
{
    let mut s = String::new();
    let mut i = start;
    while i < end
        invariant
            start <= i <= end <= input@.len(),
            s@ == ascii_text(input@.subrange(start as int, i as int)),
        decreases end - i,
    {
        push_char(&mut s, input[i] as char);
        proof {
            assert(ascii_text(input@.subrange(start as int, i + 1)) =~= ascii_text(input@.subrange(start as int, i as int)).push(input@[i as int] as char));
        }
        i = i + 1;
    }
    s
}

/// The identifier that starts at `pos`, and its end.
pub fn identifier_string(input: &[u8], pos: usize) -> (r: Option<(usize, String)>)
    requires
        pos <= input@.len(),
    ensures
        r matches Some((e, name)) ==> ident_at(input@, pos as int) == Some(e as int) && pos < e <= input@.len()
            && name@ == ascii_text(input@.subrange(pos as int, e as int)),
        r is None ==> ident_at(input@, pos as int) is None,
{
    match identifier(input, pos) {
        Some(e) => Some((e, ascii_string(input, pos, e))),
        None => None,
    }
}

/// An identifier surrounded by white space and comments, at `p`: its start, end, and
/// the position after the white space that follows.
pub open spec fn ws_ident(s: Seq<u8>, p: int) -> Option<(int, int, int)> {
    let q = ws_end(s, p);
    match ident_at(s, q) {
        Some(e) => Some((q, e, ws_end(s, e))),
        None => None,
    }
}

/// An identifier surrounded by white space and comments: the position after it and
/// the white space that follows, and its text.
pub fn ws_identifier(input: &[u8], pos: usize) -> (r: Option<(usize, String)>)
    requires
        pos <= input@.len(),
    ensures
        r matches Some((e, name)) ==> ws_ident(input@, pos as int) matches Some((a, b, c))
            && c == e && name@ == ascii_text(input@.subrange(a, b)) && pos < e <= input@.len(),
        r is None ==> ws_ident(input@, pos as int) is None,
{
    let q = ws_comments(input, pos);
    match identifier_string(input, q) {
        Some((e, name)) => {
            let f = ws_comments(input, e);
            Some((f, name))
        },
        None => None,
    }
}

// ---------------------------------------------------------------------------
// Outcomes of the parsing functions.
// ---------------------------------------------------------------------------

/// What a parsing function expected where it failed.
#[derive(Debug, Clone, Copy, PartialEq, Eq, Structural)]
pub enum Expected {
    /// A particular character (its byte).
    Char(u8),
    /// A keyword, an identifier or another fixed text.
    Keyword,
    /// A decimal digit.
    Digit,
    /// Digits whose value fits the integer type.
    Representable,
    /// A character of a string literal.
    StringChar,
    /// An assignable expression (a name or a member access) before `=`.
    AssignableTarget,
    /// More of a handler body before the end of the input.
    HandlerBodyEnd,
    /// More of a module body before the end of the input.
    ModuleBodyEnd,
}

/// A failed parse: where it failed, what was expected there, and whether the failure
/// is final (`fatal`: the enclosing alternatives are not tried) or lets the caller try
/// another alternative.
#[derive(Debug, Clone, Copy, PartialEq, Eq, Structural)]
pub struct ParseFailure {
    pub fatal: bool,
    pub pos: usize,
    pub expected: Expected,
}

/// The mathematical outcome of a parsing function: the position after what it read and
/// the value it read, or a failure (final or not, its position, what was expected).
pub enum Parsed<T> {
    Done(int, T),
    Failed(bool, int, Expected),
}

/// One more thing read before the rest.
pub open spec fn one_more<T>(k: T, r: Parsed<Seq<T>>) -> Parsed<Seq<T>> {
    match r {
        Parsed::Done(e, ks) => Parsed::Done(e, seq![k] + ks),
        Parsed::Failed(fatal, x, f) => Parsed::Failed(fatal, x, f),
    }
}

/// Things read before the rest.
pub open spec fn with_prefix<T>(pre: Seq<T>, r: Parsed<Seq<T>>) -> Parsed<Seq<T>> {
    match r {
        Parsed::Done(e, ks) => Parsed::Done(e, pre + ks),
        Parsed::Failed(fatal, x, f) => Parsed::Failed(fatal, x, f),
    }
}

/// Reading one more thing before the rest extends the prefix.
pub proof fn lemma_prefix_more<T>(pre: Seq<T>, k: T, r: Parsed<Seq<T>>)
    ensures
        with_prefix(pre, one_more(k, r)) == with_prefix(pre.push(k), r),
        one_more(k, r) == with_prefix(seq![k], r),
{
    match r {
        Parsed::Done(e, ks) => {
            assert(pre + (seq![k] + ks) =~= pre.push(k) + ks);
        },
        Parsed::Failed(..) => {},
    }
    assert(pre + Seq::<T>::empty() =~= pre);
}

/// The failure, as an outcome.
pub open spec fn failure_outcome<T>(f: ParseFailure) -> Parsed<T> {
    Parsed::Failed(f.fatal, f.pos as int, f.expected)
}

/// Whether `x` lies after `p` and within the input: a parsing function that succeeds
/// always moves forward.
pub open spec fn forward(s: Seq<u8>, p: int, x: int) -> bool {
    p < x && x <= s.len()
}

/// The byte `c` surrounded by white space and comments, at `p`: the position after it
/// and the white space that follows.
pub open spec fn ws_byte(s: Seq<u8>, p: int, c: u8) -> Option<int> {
    let q = ws_end(s, p);
    if 0 <= q < s.len() && s[q] == c {
        Some(ws_end(s, q + 1))
    } else {
        None
    }
}

/// A failure that lets the caller try another alternative.
pub fn miss(pos: usize, expected: Expected) -> (f: ParseFailure)
    ensures
        f == (ParseFailure { fatal: false, pos, expected }),
{
    ParseFailure { fatal: false, pos, expected }
}

/// A final failure.
pub fn fail(pos: usize, expected: Expected) -> (f: ParseFailure)
    ensures
        f == (ParseFailure { fatal: true, pos, expected }),
{
    ParseFailure { fatal: true, pos, expected }
}

/// Whether an outcome is a failure that lets the caller try another alternative.
pub fn is_miss<T>(r: &Result<T, ParseFailure>) -> (b: bool)
    ensures
        b == (r matches Err(f) && !f.fatal),
{
    match r {
        Err(f) => !f.fatal,
        Ok(_) => false,
    }
}

/// The byte `c` surrounded by white space and comments: the position after it and the
/// white space that follows.
pub fn ws_byte_at(input: &[u8], pos: usize, c: u8) -> (r: Option<usize>)
    requires
        pos <= input@.len(),
    ensures
        r matches Some(e) ==> ws_byte(input@, pos as int, c) == Some(e as int) && pos < e <= input@.len(),
        r is None ==> ws_byte(input@, pos as int, c) is None,
{
    let q = ws_comments(input, pos);
    if q < input.len() && input[q] == c {
        proof {
            lemma_ws_end(input@, pos as int);
        }
        let e = ws_comments(input, q + 1);
        Some(e)
    } else {
        None
    }
}

// ---------------------------------------------------------------------------
// Syntax errors.
// ---------------------------------------------------------------------------

/// Where a syntax error found at byte `pos` of `input` is reported: at the character
/// that starts there, one character long, with its line and column.
pub open spec fn error_span(input: Seq<u8>, pos: int) -> Span {
    let before = input.take(pos);
    Span {
        start: char_count(before) as usize,
        end: (char_count(before) + 1) as usize,
        line: (1 + count_newlines(before)) as usize,
        column: (1 + chars_after_newline(before)) as usize,
    }
}

/// The text from byte `pos` of `b` to the end, when those bytes are valid UTF-8.
pub open spec fn text_after(b: Seq<u8>, pos: int) -> Option<Seq<char>> {
    let rest = b.subrange(pos, b.len() as int);
    if valid_utf8(rest) {
        Some(decode_utf8(rest))
    } else {
        None
    }
}

/// At most `n` characters of a text (none when the text is unknown).
pub open spec fn shown_text(rest: Option<Seq<char>>, n: nat) -> Seq<char> {
    match rest {
        Some(cs) => if cs.len() <= n {
            cs
        } else {
            cs.take(n as int)
        },
        None => Seq::empty(),
    }
}

/// The message of a syntax error: what was expected, and the text found there.
pub open spec fn failure_message(k: Expected, rest: Option<Seq<char>>) -> Seq<char> {
    match k {
        Expected::Char(_) => "期待される文字が見つかりません: '"@ + shown_text(rest, 1) + "'"@,
        Expected::Keyword => "期待されるキーワードが見つかりません: '"@ + shown_text(rest, 10) + "'"@,
        Expected::Digit => "構文解析エラー: Nom(Digit)"@,
        Expected::Representable => "構文解析エラー: Nom(MapRes)"@,
        Expected::StringChar => "構文解析エラー: Nom(NoneOf)"@,
        Expected::AssignableTarget => "Invalid assignment target: 構文解析エラー"@,
        Expected::HandlerBodyEnd => "Unexpected EOF in handler body: 構文解析エラー"@,
        Expected::ModuleBodyEnd => "Unexpected EOF in module body: 構文解析エラー"@,
    }
}

/// Whether `e` is the syntax error reported for a failure at byte `pos` of `input`,
/// where `k` was expected.
pub open spec fn is_syntax_error(
    e: Error,
    input: &str,
    pos: int,
    k: Expected,
    filename: Option<String>,
) -> bool {
    &&& e.kind matches ErrorKind::Syntax(m) && m@ == failure_message(k, text_after(input.spec_bytes(), pos))
    &&& e.span == Some(error_span(input.spec_bytes(), pos))
    &&& e.filename == filename
}

/// Appends at most `n` characters of `cs`.
fn push_prefix(out: &mut String, cs: &Vec<char>, n: usize)
    ensures
        final(out)@ == old(out)@ + shown_text(Some(cs@), n as nat),
{
    let mut i: usize = 0;
    while i < n && i < cs.len()
        invariant
            i <= cs@.len(),
            i <= n,
            out@ == old(out)@ + cs@.take(i as int),
        decreases cs@.len() - i,
    {
        push_char(out, cs[i]);
        proof {
            assert(cs@.take(i + 1) =~= cs@.take(i as int).push(cs@[i as int]));
        }
        i = i + 1;
    }
    proof {
        if cs@.len() <= n {
            assert(cs@.take(i as int) =~= cs@);
        }
    }
}

/// The syntax error reported for a failure: its message says what was expected and
/// shows the text found at the failure (one character after a missing character, ten
/// after a missing keyword); its span is the character where the failure was found.
pub fn to_syntax_error(input: &str, failure: ParseFailure, filename: Option<String>) -> (e: Error)
    requires
        failure.pos <= input.spec_bytes().len(),
        input.spec_bytes().len() < usize::MAX,
    ensures
        is_syntax_error(e, input, failure.pos as int, failure.expected, filename),
{
    let bytes = input.as_bytes();
    let mut rest: Vec<u8> = Vec::new();
    let mut i = failure.pos;
    while i < bytes.len()
        invariant
            failure.pos <= i <= bytes@.len(),
            rest@ == bytes@.subrange(failure.pos as int, i as int),
        decreases bytes@.len() - i,
    {
        rest.push(bytes[i]);
        proof {
            assert(bytes@.subrange(failure.pos as int, i + 1) =~= bytes@.subrange(failure.pos as int, i as int).push(bytes@[i as int]));
        }
        i = i + 1;
    }
    let mut message = String::new();
    let shown: usize = match failure.expected {
        Expected::Char(_) => {
            message.append("期待される文字が見つかりません: '");
            1
        },
        Expected::Keyword => {
            message.append("期待されるキーワードが見つかりません: '");
            10
        },
        Expected::Digit => {
            message.append("構文解析エラー: Nom(Digit)");
            0
        },
        Expected::Representable => {
            message.append("構文解析エラー: Nom(MapRes)");
            0
        },
        Expected::StringChar => {
            message.append("構文解析エラー: Nom(NoneOf)");
            0
        },
        Expected::AssignableTarget => {
            message.append("Invalid assignment target: 構文解析エラー");
            0
        },
        Expected::HandlerBodyEnd => {
            message.append("Unexpected EOF in handler body: 構文解析エラー");
            0
        },
        Expected::ModuleBodyEnd => {
            message.append("Unexpected EOF in module body: 構文解析エラー");
            0
        },
    };
    if shown > 0 {
        let ghost head = message@;
        match utf8_text(rest.as_slice()) {
            Some(text) => {
                let cs = chars_of(text);
                push_prefix(&mut message, &cs, shown);
            },
            None => {
                assert(message@ =~= head + shown_text(None, shown as nat));
            },
        }
        message.append("'");
    }
    let (start, newlines, column) = line_counts(bytes, failure.pos);
    let span = Span { start, end: start + 1, line: newlines + 1, column: column + 1 };
    Error { kind: ErrorKind::Syntax(message), span: Some(span), filename }
}

} // verus!
