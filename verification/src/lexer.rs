//! The Protorun lexer: turns text into tokens.
use vstd::prelude::*;
use crate::ast::Span;
use crate::error::{Error, ErrorKind, Result, decimal};
use crate::chars::{
    is_whitespace, alphabetic, alphanumeric, alphabetic_char, alphanumeric_char, push_char,
    chars_of, unicode_whitespace, ascii_digit,
};

verus! {

/// The kinds of tokens.
///
/// A floating point literal keeps its source text (for example `3.14`).
#[derive(Debug, Clone, PartialEq)]
pub enum TokenKind {
    Let,
    Fn,
    If,
    Else,
    True,
    False,
    Return,
    Identifier(String),
    IntLiteral(i64),
    FloatLiteral(String),
    StringLiteral(String),
    LeftParen,
    RightParen,
    LeftBrace,
    RightBrace,
    LeftBracket,
    RightBracket,
    Comma,
    Dot,
    Colon,
    Semicolon,
    Equal,
    Plus,
    Minus,
    Star,
    Slash,
    Percent,
    EqualEqual,
    NotEqual,
    Less,
    Greater,
    LessEqual,
    GreaterEqual,
    And,
    Or,
    Bang,
    Eof,
}

/// The mathematical value of a token kind: texts as character sequences.
pub enum TokenModel {
    Let,
    Fn,
    If,
    Else,
    True,
    False,
    Return,
    Identifier(Seq<char>),
    IntLiteral(i64),
    FloatLiteral(Seq<char>),
    StringLiteral(Seq<char>),
    LeftParen,
    RightParen,
    LeftBrace,
    RightBrace,
    LeftBracket,
    RightBracket,
    Comma,
    Dot,
    Colon,
    Semicolon,
    Equal,
    Plus,
    Minus,
    Star,
    Slash,
    Percent,
    EqualEqual,
    NotEqual,
    Less,
    Greater,
    LessEqual,
    GreaterEqual,
    And,
    Or,
    Bang,
    Eof,
}

impl TokenKind {
    /// The model of a token kind.
    pub open spec fn model(self) -> TokenModel {
        match self {
            TokenKind::Let => TokenModel::Let,
            TokenKind::Fn => TokenModel::Fn,
            TokenKind::If => TokenModel::If,
            TokenKind::Else => TokenModel::Else,
            TokenKind::True => TokenModel::True,
            TokenKind::False => TokenModel::False,
            TokenKind::Return => TokenModel::Return,
            TokenKind::Identifier(s) => TokenModel::Identifier(s@),
            TokenKind::IntLiteral(v) => TokenModel::IntLiteral(v),
            TokenKind::FloatLiteral(s) => TokenModel::FloatLiteral(s@),
            TokenKind::StringLiteral(s) => TokenModel::StringLiteral(s@),
            TokenKind::LeftParen => TokenModel::LeftParen,
            TokenKind::RightParen => TokenModel::RightParen,
            TokenKind::LeftBrace => TokenModel::LeftBrace,
            TokenKind::RightBrace => TokenModel::RightBrace,
            TokenKind::LeftBracket => TokenModel::LeftBracket,
            TokenKind::RightBracket => TokenModel::RightBracket,
            TokenKind::Comma => TokenModel::Comma,
            TokenKind::Dot => TokenModel::Dot,
            TokenKind::Colon => TokenModel::Colon,
            TokenKind::Semicolon => TokenModel::Semicolon,
            TokenKind::Equal => TokenModel::Equal,
            TokenKind::Plus => TokenModel::Plus,
            TokenKind::Minus => TokenModel::Minus,
            TokenKind::Star => TokenModel::Star,
            TokenKind::Slash => TokenModel::Slash,
            TokenKind::Percent => TokenModel::Percent,
            TokenKind::EqualEqual => TokenModel::EqualEqual,
            TokenKind::NotEqual => TokenModel::NotEqual,
            TokenKind::Less => TokenModel::Less,
            TokenKind::Greater => TokenModel::Greater,
            TokenKind::LessEqual => TokenModel::LessEqual,
            TokenKind::GreaterEqual => TokenModel::GreaterEqual,
            TokenKind::And => TokenModel::And,
            TokenKind::Or => TokenModel::Or,
            TokenKind::Bang => TokenModel::Bang,
            TokenKind::Eof => TokenModel::Eof,
        }
    }
}

/// A token and its position.
#[derive(Debug, Clone, PartialEq)]
pub struct Token {
    pub kind: TokenKind,
    pub span: Span,
}

impl Token {
    /// A token of the given kind and position.
    pub fn new(kind: TokenKind, span: Span) -> (t: Token)
        ensures
            t.kind == kind,
            t.span == span,
    {
        Token { kind, span }
    }
}

// ---------------------------------------------------------------------------
// The lexical grammar, over the characters of the input.
//
// The lexer reads the input one character at a time; its state is the index `cur` of
// the character under the cursor (the input's length once it has read past the end).
// ---------------------------------------------------------------------------

/// The number of characters read when the cursor is at `cur`.
pub open spec fn position_of(chars: Seq<char>, cur: int) -> int {
    if cur < chars.len() { cur + 1 } else { chars.len() as int }
}

/// The number of line feeds in `s`.
pub open spec fn count_line_feeds(s: Seq<char>) -> nat
    decreases s.len(),
{
    if s.len() == 0 {
        0
    } else {
        count_line_feeds(s.drop_last()) + if s.last() == '\n' { 1nat } else { 0nat }
    }
}

/// The index of the last line feed in `s`.
pub open spec fn last_line_feed(s: Seq<char>) -> Option<int>
    decreases s.len(),
{
    if s.len() == 0 {
        None
    } else if s.last() == '\n' {
        Some(s.len() - 1)
    } else {
        last_line_feed(s.drop_last())
    }
}

/// The line counter of the lexer when the cursor is at `cur`.
pub open spec fn line_of(chars: Seq<char>, cur: int) -> int {
    1 + count_line_feeds(chars.take(position_of(chars, cur))) as int
}

/// The column counter of the lexer when the cursor is at `cur`.
pub open spec fn column_of(chars: Seq<char>, cur: int) -> int {
    let p = position_of(chars, cur);
    match last_line_feed(chars.take(p)) {
        Some(k) => p - k,
        None => 1 + p,
    }
}

/// The index of the first line feed at or after `i`, or the length.
pub open spec fn line_end(chars: Seq<char>, i: int) -> int
    decreases chars.len() - i,
{
    if i >= chars.len() || chars[i] == '\n' {
        i
    } else {
        line_end(chars, i + 1)
    }
}

/// `line_end` does not move back, nor past the end.
pub proof fn lemma_line_end(chars: Seq<char>, i: int)
    requires
        0 <= i,
    ensures
        i <= line_end(chars, i),
        line_end(chars, i) <= if i > chars.len() { i } else { chars.len() as int },
        line_end(chars, i) < chars.len() ==> chars[line_end(chars, i)] == '\n',
    decreases chars.len() - i,
{
    if i < chars.len() && chars[i] != '\n' {
        lemma_line_end(chars, i + 1);
    }
}

/// The counters of the lexer stay below the number of characters read plus one.
pub proof fn lemma_counters(s: Seq<char>)
    ensures
        count_line_feeds(s) <= s.len(),
        match last_line_feed(s) {
            Some(k) => 0 <= k < s.len(),
            None => true,
        },
    decreases s.len(),
{
    if s.len() > 0 {
        lemma_counters(s.drop_last());
    }
}

/// Where the cursor stops after skipping white space and `//` comments from `cur`.
pub open spec fn skip_space(chars: Seq<char>, cur: int) -> int
    decreases chars.len() - cur,
{
    if 0 <= cur < chars.len() && unicode_whitespace(chars[cur]) {
        skip_space(chars, cur + 1)
    } else if 0 <= cur && cur + 1 < chars.len() && chars[cur] == '/' && chars[cur + 1] == '/' {
        let e = line_end(chars, cur + 1);
        proof {
            lemma_line_end(chars, cur + 1);
        }
        if e < chars.len() {
            skip_space(chars, e + 1)
        } else {
            chars.len() as int
        }
    } else {
        cur
    }
}

/// Whether a character continues an identifier.
pub open spec fn ident_char(c: char) -> bool {
    alphanumeric_char(c) || c == '_'
}

/// The index of the first character at or after `i` that does not continue an
/// identifier, or the length.
pub open spec fn ident_end(chars: Seq<char>, i: int) -> int
    decreases chars.len() - i,
{
    if i >= chars.len() || !ident_char(chars[i]) {
        i
    } else {
        ident_end(chars, i + 1)
    }
}

/// The end of a number whose text continues at `i`, and whether it has a dot; a
/// number has digits and at most one dot.
pub open spec fn number_end(chars: Seq<char>, i: int, dot: bool) -> (int, bool)
    decreases chars.len() - i,
{
    if i >= chars.len() {
        (i, dot)
    } else if ascii_digit(chars[i]) {
        number_end(chars, i + 1, dot)
    } else if chars[i] == '.' && !dot {
        number_end(chars, i + 1, true)
    } else {
        (i, dot)
    }
}

/// The value of a sequence of decimal digits.
pub open spec fn digits_value(s: Seq<char>) -> nat
    decreases s.len(),
{
    if s.len() == 0 {
        0
    } else {
        digits_value(s.drop_last()) * 10 + ((s.last() as u32) - ('0' as u32)) as nat
    }
}

/// The keyword a word stands for, or an identifier.
pub open spec fn word_token(w: Seq<char>) -> TokenModel {
    if w == "let"@ {
        TokenModel::Let
    } else if w == "fn"@ {
        TokenModel::Fn
    } else if w == "if"@ {
        TokenModel::If
    } else if w == "else"@ {
        TokenModel::Else
    } else if w == "true"@ {
        TokenModel::True
    } else if w == "false"@ {
        TokenModel::False
    } else if w == "return"@ {
        TokenModel::Return
    } else {
        TokenModel::Identifier(w)
    }
}

/// The character that an escape sequence `\e` stands for, when `e` is a known escape.
pub open spec fn escape_char(e: char) -> Option<char> {
    if e == 'n' {
        Some('\n')
    } else if e == 'r' {
        Some('\r')
    } else if e == 't' {
        Some('\t')
    } else if e == '\\' {
        Some('\\')
    } else if e == '"' {
        Some('"')
    } else {
        None
    }
}

/// Reads the rest of a string literal from `i` with content `acc` so far: the content
/// and the cursor after the closing quote (or at the end when it is missing); `None`
/// when the input ends right after a backslash.
pub open spec fn string_rest(chars: Seq<char>, i: int, acc: Seq<char>) -> Option<(Seq<char>, int)>
    decreases chars.len() - i,
{
    if i < 0 || i >= chars.len() {
        Some((acc, chars.len() as int))
    } else if chars[i] == '"' {
        Some((acc, i + 1))
    } else if chars[i] == '\\' {
        if i + 1 >= chars.len() {
            None
        } else {
            let e = chars[i + 1];
            match escape_char(e) {
                Some(c) => string_rest(chars, i + 2, acc.push(c)),
                None => string_rest(chars, i + 2, acc.push('\\').push(e)),
            }
        }
    } else {
        string_rest(chars, i + 1, acc.push(chars[i]))
    }
}

/// An operator or punctuation token starting with `c`, whose next character is `n`:
/// the token and whether it takes `n` too; `None` for a character that starts no token.
pub open spec fn symbol_token(c: char, n: Option<char>) -> Option<(TokenModel, bool)> {
    if c == '(' {
        Some((TokenModel::LeftParen, false))
    } else if c == ')' {
        Some((TokenModel::RightParen, false))
    } else if c == '{' {
        Some((TokenModel::LeftBrace, false))
    } else if c == '}' {
        Some((TokenModel::RightBrace, false))
    } else if c == '[' {
        Some((TokenModel::LeftBracket, false))
    } else if c == ']' {
        Some((TokenModel::RightBracket, false))
    } else if c == ',' {
        Some((TokenModel::Comma, false))
    } else if c == '.' {
        Some((TokenModel::Dot, false))
    } else if c == ':' {
        Some((TokenModel::Colon, false))
    } else if c == ';' {
        Some((TokenModel::Semicolon, false))
    } else if c == '=' {
        if n == Some('=') {
            Some((TokenModel::EqualEqual, true))
        } else {
            Some((TokenModel::Equal, false))
        }
    } else if c == '+' {
        Some((TokenModel::Plus, false))
    } else if c == '-' {
        Some((TokenModel::Minus, false))
    } else if c == '*' {
        Some((TokenModel::Star, false))
    } else if c == '/' {
        Some((TokenModel::Slash, false))
    } else if c == '%' {
        Some((TokenModel::Percent, false))
    } else if c == '!' {
        if n == Some('=') {
            Some((TokenModel::NotEqual, true))
        } else {
            Some((TokenModel::Bang, false))
        }
    } else if c == '<' {
        if n == Some('=') {
            Some((TokenModel::LessEqual, true))
        } else {
            Some((TokenModel::Less, false))
        }
    } else if c == '>' {
        if n == Some('=') {
            Some((TokenModel::GreaterEqual, true))
        } else {
            Some((TokenModel::Greater, false))
        }
    } else if c == '&' {
        if n == Some('&') {
            Some((TokenModel::And, true))
        } else {
            None
        }
    } else if c == '|' {
        if n == Some('|') {
            Some((TokenModel::Or, true))
        } else {
            None
        }
    } else {
        None
    }
}

/// The outcome of reading one token: the token or the error (its message and span),
/// and the cursor after it.
pub enum LexStep {
    Token(TokenModel, Span, int),
    Failure(Seq<char>, Span, int),
}

/// The span of a token from its first character `s` to its end `cur`, the index just
/// past its last character.
pub open spec fn token_span(chars: Seq<char>, s: int, cur: int) -> Span {
    Span {
        start: s as usize,
        end: cur as usize,
        line: line_of(chars, s) as usize,
        column: (column_of(chars, s) - 1) as usize,
    }
}

/// The token that the lexer reads with its cursor at `cur0`: it skips white space and
/// comments, then reads the token there.
pub open spec fn lex_step(chars: Seq<char>, cur0: int) -> LexStep {
    token_at(chars, skip_space(chars, cur0))
}

/// The token that starts under the cursor `s`.
pub open spec fn token_at(chars: Seq<char>, s: int) -> LexStep {
    if s >= chars.len() {
        let p = position_of(chars, s);
        LexStep::Token(
            TokenModel::Eof,
            Span {
                start: p as usize,
                end: p as usize,
                line: line_of(chars, s) as usize,
                column: column_of(chars, s) as usize,
            },
            s,
        )
    } else {
        let c = chars[s];
        if alphabetic_char(c) || c == '_' {
            let e = ident_end(chars, s + 1);
            LexStep::Token(word_token(chars.subrange(s, e)), token_span(chars, s, e), e)
        } else if ascii_digit(c) {
            let (e, dot) = number_end(chars, s + 1, false);
            let text = chars.subrange(s, e);
            if dot {
                LexStep::Token(TokenModel::FloatLiteral(text), token_span(chars, s, e), e)
            } else if digits_value(text) <= i64::MAX {
                LexStep::Token(
                    TokenModel::IntLiteral(digits_value(text) as i64),
                    token_span(chars, s, e),
                    e,
                )
            } else {
                LexStep::Failure("無効な整数: "@ + text, token_span(chars, s, e), e)
            }
        } else if c == '"' {
            match string_rest(chars, s + 1, Seq::empty()) {
                Some((content, e)) => LexStep::Token(
                    TokenModel::StringLiteral(content),
                    token_span(chars, s, e),
                    e,
                ),
                None => LexStep::Failure(
                    "文字列リテラルが終了する前に入力が終了しました"@,
                    token_span(chars, s, chars.len() as int),
                    chars.len() as int,
                ),
            }
        } else {
            let n = if s + 1 < chars.len() { Some(chars[s + 1]) } else { None };
            match symbol_token(c, n) {
                Some((t, two)) => {
                    let e = if two { s + 2 } else { s + 1 };
                    LexStep::Token(t, token_span(chars, s, e), e)
                },
                None => LexStep::Failure(
                    "予期しない文字: "@.push(c),
                    token_span(chars, s, s + 1),
                    s + 1,
                ),
            }
        }
    }
}

/// The cursor of a lexing step.
pub open spec fn step_cursor(st: LexStep) -> int {
    match st {
        LexStep::Token(_, _, e) => e,
        LexStep::Failure(_, _, e) => e,
    }
}

/// `ident_end`, `number_end` and `string_rest` move forward and stay within the text.
pub proof fn lemma_scans(chars: Seq<char>, i: int)
    requires
        0 <= i <= chars.len(),
    ensures
        i <= ident_end(chars, i) <= chars.len(),
        forall|dot: bool| #![trigger number_end(chars, i, dot)] i <= number_end(chars, i, dot).0 <= chars.len(),
        forall|acc: Seq<char>| #![trigger string_rest(chars, i, acc)] string_rest(chars, i, acc) matches Some((_, e)) ==> i <= e <= chars.len(),
    decreases chars.len() - i,
{
    if i < chars.len() {
        lemma_scans(chars, i + 1);
        if i + 2 <= chars.len() {
            lemma_scans(chars, i + 2);
        }
        assert forall|dot: bool| #![trigger number_end(chars, i, dot)] i <= number_end(chars, i, dot).0 <= chars.len() by {
            let a = number_end(chars, i + 1, dot);
            let b = number_end(chars, i + 1, true);
        }
        assert forall|acc: Seq<char>| #![trigger string_rest(chars, i, acc)] string_rest(chars, i, acc) matches Some((_, e)) ==> i <= e <= chars.len() by {
            let a = string_rest(chars, i + 1, acc.push(chars[i]));
            if i + 2 <= chars.len() {
                let e = chars[i + 1];
                match escape_char(e) {
                    Some(c) => { let b = string_rest(chars, i + 2, acc.push(c)); },
                    None => { let b = string_rest(chars, i + 2, acc.push('\\').push(e)); },
                }
            }
        }
    }
}

/// `skip_space` moves forward and stays within the text.
pub proof fn lemma_skip_space(chars: Seq<char>, cur: int)
    requires
        0 <= cur <= chars.len(),
    ensures
        cur <= skip_space(chars, cur) <= chars.len(),
    decreases chars.len() - cur,
{
    if 0 <= cur < chars.len() && unicode_whitespace(chars[cur]) {
        lemma_skip_space(chars, cur + 1);
    } else if 0 <= cur && cur + 1 < chars.len() && chars[cur] == '/' && chars[cur + 1] == '/' {
        lemma_line_end(chars, cur + 1);
        let e = line_end(chars, cur + 1);
        if e < chars.len() {
            lemma_skip_space(chars, e + 1);
        }
    }
}

/// A step that reads a token other than the end of input moves the cursor on; every
/// step keeps the cursor within the text.
pub proof fn lemma_step_progress(chars: Seq<char>, cur: int)
    requires
        0 <= cur <= chars.len(),
    ensures
        cur <= step_cursor(lex_step(chars, cur)) <= chars.len(),
        !(lex_step(chars, cur) matches LexStep::Token(TokenModel::Eof, _, _)) ==> cur < step_cursor(
            lex_step(chars, cur),
        ),
{
    lemma_skip_space(chars, cur);
    let s = skip_space(chars, cur);
    if s < chars.len() {
        lemma_scans(chars, s + 1);
    }
}

/// All tokens from the cursor `cur`, up to and including the end of input; or the first
/// error.
pub open spec fn lex_all(chars: Seq<char>, cur: int) -> std::result::Result<Seq<(TokenModel, Span)>, (Seq<char>, Span)>
    decreases chars.len() - cur,
{
    if cur < 0 || cur > chars.len() {
        Ok(Seq::empty())
    } else {
        match lex_step(chars, cur) {
            LexStep::Failure(msg, sp, _) => Err((msg, sp)),
            LexStep::Token(TokenModel::Eof, sp, _) => Ok(seq![(TokenModel::Eof, sp)]),
            LexStep::Token(t, sp, e) => {
                proof {
                    lemma_step_progress(chars, cur);
                }
                match lex_all(chars, e) {
                    Ok(rest) => Ok(seq![(t, sp)] + rest),
                    Err(err) => Err(err),
                }
            },
        }
    }
}

/// The result `r` and cursor `e` of a lexer that read a token at `cur` agree with the
/// lexing step `st`.
pub open spec fn lex_outcome(st: LexStep, r: Result<Token>, e: int, filename: Option<String>) -> bool {
    match st {
        LexStep::Token(t, sp, e2) => r matches Ok(tok) && tok.kind.model() == t && tok.span == sp && e == e2,
        LexStep::Failure(msg, sp, e2) => r matches Err(err) && err.kind matches ErrorKind::Syntax(m)
            && m@ == msg && err.span == Some(sp) && err.filename == filename && e == e2,
    }
}

/// Whether a string has the text of a literal.
fn text_is(s: &String, lit: &str) -> (r: bool)
    ensures
        r == (s@ == lit@),
{
    *s == String::from_str(lit)
}

/// A copy of an optional file name.
fn copy_name(f: &Option<String>) -> (r: Option<String>)
    ensures
        r == *f,
{
    match f {
        Some(s) => Some(s.clone()),
        None => None,
    }
}

/// The value of a text of decimal digits, when it fits in an `i64`.
fn digits_to_i64(text: &Vec<char>) -> (r: Option<i64>)
    requires
        forall|i: int| 0 <= i < text@.len() ==> ascii_digit(#[trigger] text@[i]),
    ensures
        r == if digits_value(text@) <= i64::MAX {
            Some(digits_value(text@) as i64)
        } else {
            None::<i64>
        },
{
    let mut value: i64 = 0;
    let mut overflow = false;
    let mut i: usize = 0;
    while i < text.len()
        invariant
            i <= text@.len(),
            forall|k: int| 0 <= k < text@.len() ==> ascii_digit(#[trigger] text@[k]),
            overflow <==> digits_value(text@.take(i as int)) > i64::MAX,
            !overflow ==> value == digits_value(text@.take(i as int)),
        decreases text@.len() - i,
    {
        proof {
            assert(text@.take(i + 1).drop_last() =~= text@.take(i as int));
        }
        let c = text[i];
        let d: i64 = (c as u32 - '0' as u32) as i64;
        assert(0 <= d <= 9);
        assert(digits_value(text@.take(i + 1)) == digits_value(text@.take(i as int)) * 10 + d);
        if !overflow {
            if value > (i64::MAX - d) / 10 {
                overflow = true;
                assert(value * 10 + d > i64::MAX) by (nonlinear_arith)
                    requires
                        value > (i64::MAX - d) / 10,
                        0 <= d <= 9,
                ;
            } else {
                assert(value * 10 + d <= i64::MAX) by (nonlinear_arith)
                    requires
                        value <= (i64::MAX - d) / 10,
                        0 <= value,
                        0 <= d <= 9,
                ;
                value = value * 10 + d;
            }
        } else {
            assert(digits_value(text@.take(i as int)) * 10 + d > i64::MAX) by (nonlinear_arith)
                requires
                    digits_value(text@.take(i as int)) > i64::MAX,
                    0 <= d,
            ;
        }
        i = i + 1;
    }
    assert(text@.take(i as int) =~= text@);
    if overflow {
        None
    } else {
        Some(value)
    }
}

/// The lexer.
pub struct Lexer {
    /// The characters of the input.
    chars: Vec<char>,
    /// The index of the character under the cursor (the length past the end).
    cur: usize,
    /// The number of characters read.
    position: usize,
    /// The line counter (1-based).
    line: usize,
    /// The column counter (1-based).
    column: usize,
    /// The character under the cursor.
    current_char: Option<char>,
    /// The file name.
    filename: Option<String>,
}

impl Lexer {
    /// The characters of the input.
    pub closed spec fn text(self) -> Seq<char> {
        self.chars@
    }

    /// The cursor.
    pub closed spec fn cursor(self) -> int {
        self.cur as int
    }

    /// The file name.
    pub closed spec fn file(self) -> Option<String> {
        self.filename
    }

    /// The counters agree with the cursor.
    pub closed spec fn wf(self) -> bool {
        &&& self.chars@.len() < usize::MAX
        &&& self.cur <= self.chars@.len()
        &&& self.position == position_of(self.chars@, self.cur as int)
        &&& self.line == line_of(self.chars@, self.cur as int)
        &&& self.column == column_of(self.chars@, self.cur as int)
        &&& self.current_char == if self.cur < self.chars@.len() {
            Some(self.chars@[self.cur as int])
        } else {
            None
        }
    }

    /// A lexer for the input, with its cursor on the first character.
    pub fn new(input: &str, filename: Option<String>) -> (l: Lexer)
        requires
            input@.len() < usize::MAX,
        ensures
            l.wf(),
            l.text() == input@,
            l.cursor() == 0,
            l.file() == filename,
    {
        let chars = chars_of(input);
        let mut lexer = Lexer {
            chars,
            cur: 0,
            position: 0,
            line: 1,
            column: 1,
            current_char: None,
            filename,
        };
        if lexer.chars.len() > 0 {
            let c = lexer.chars[0];
            lexer.current_char = Some(c);
            lexer.position = 1;
            if c == '\n' {
                lexer.line = 2;
                lexer.column = 1;
            } else {
                lexer.column = 2;
            }
            proof {
                assert(lexer.chars@.take(1).drop_last() =~= Seq::<char>::empty());
                assert(count_line_feeds(Seq::<char>::empty()) == 0);
                assert(last_line_feed(Seq::<char>::empty()) is None);
            }
        } else {
            lexer.cur = 0;
            proof {
                assert(lexer.chars@.take(0) =~= Seq::<char>::empty());
                assert(count_line_feeds(Seq::<char>::empty()) == 0);
                assert(last_line_feed(Seq::<char>::empty()) is None);
            }
        }
        lexer
    }

    /// Moves the cursor one character on, updating the counters.
    fn read_char(&mut self)
        requires
            old(self).wf(),
        ensures
            final(self).wf(),
            final(self).chars@ == old(self).chars@,
            final(self).filename == old(self).filename,
            final(self).cur == if old(self).cur < old(self).chars@.len() {
                old(self).cur + 1
            } else {
                old(self).cur as int
            },
    {
        if self.cur < self.chars.len() {
            self.cur = self.cur + 1;
            if self.cur < self.chars.len() {
                let c = self.chars[self.cur];
                self.current_char = Some(c);
                proof {
                    assert(self.chars@.take(self.cur + 1).drop_last() =~= self.chars@.take(
                        self.cur as int,
                    ));
                    lemma_counters(self.chars@.take(self.cur as int));
                }
                if c == '\n' {
                    self.line = self.line + 1;
                    self.column = 1;
                } else {
                    self.column = self.column + 1;
                }
                self.position = self.position + 1;
            } else {
                self.current_char = None;
            }
        }
    }

    /// The character after the one under the cursor.
    fn peek_char(&self) -> (c: Option<char>)
        requires
            self.wf(),
        ensures
            c == if self.cur + 1 < self.chars@.len() {
                Some(self.chars@[self.cur + 1])
            } else {
                None::<char>
            },
    {
        if self.cur < self.chars.len() && self.cur + 1 < self.chars.len() {
            Some(self.chars[self.cur + 1])
        } else {
            None
        }
    }

    /// The span from the token start to the cursor, which stands just past the token.
    fn make_span(&self, start_pos: usize, start_line: usize, start_column: usize) -> (s: Span)
        ensures
            s == (Span { start: start_pos, end: self.cur, line: start_line, column: start_column }),
    {
        Span { start: start_pos, end: self.cur, line: start_line, column: start_column }
    }

    /// Skips white space and `//` comments.
    fn skip_whitespace_and_comments(&mut self)
        requires
            old(self).wf(),
        ensures
            final(self).wf(),
            final(self).chars@ == old(self).chars@,
            final(self).filename == old(self).filename,
            final(self).cur == skip_space(old(self).chars@, old(self).cur as int),
    {
        loop
            invariant
                self.wf(),
                self.chars@ == old(self).chars@,
                self.filename == old(self).filename,
                skip_space(self.chars@, self.cur as int) == skip_space(
                    old(self).chars@,
                    old(self).cur as int,
                ),
            decreases self.chars@.len() - self.cur,
        {
            match self.current_char {
                Some(c) => {
                    if is_whitespace(c) {
                        self.read_char();
                    } else if c == '/' && self.peek_char() == Some('/') {
                        let ghost start = self.cur as int;
                        let ghost e = line_end(self.chars@, start + 1);
                        proof {
                            lemma_line_end(self.chars@, start + 1);
                            assert(skip_space(self.chars@, start) == if e < self.chars@.len() {
                                skip_space(self.chars@, e + 1)
                            } else {
                                self.chars@.len() as int
                            });
                        }
                        self.read_char();
                        loop
                            invariant
                                self.wf(),
                                self.chars@ == old(self).chars@,
                                self.filename == old(self).filename,
                                start < self.cur <= self.chars@.len(),
                                line_end(self.chars@, self.cur as int) == e,
                            ensures
                                self.wf(),
                                self.chars@ == old(self).chars@,
                                self.filename == old(self).filename,
                                self.cur == e,
                            decreases self.chars@.len() - self.cur,
                        {
                            match self.current_char {
                                Some(d) => {
                                    if d == '\n' {
                                        break;
                                    }
                                    self.read_char();
                                },
                                None => {
                                    break;
                                },
                            }
                        }
                        assert(self.cur == e);
                        if self.current_char == Some('\n') {
                            self.read_char();
                        } else {
                            assert(skip_space(self.chars@, self.cur as int) == self.cur);
                        }
                    } else {
                        return;
                    }
                },
                None => {
                    return;
                },
            }
        }
    }
}


impl Lexer {
    /// The start of a token under the cursor: its position, line and column.
    fn token_start(&self) -> (r: (usize, usize, usize))
        requires
            self.wf(),
            self.cur < self.chars@.len(),
        ensures
            r.0 == self.cur,
            r.1 == line_of(self.chars@, self.cur as int),
            r.2 == column_of(self.chars@, self.cur as int) - 1,
    {
        proof {
            lemma_counters(self.chars@.take(self.cur + 1));
        }
        (self.position - 1, self.line, self.column - 1)
    }

    /// Reads an identifier or keyword whose first character is under the cursor.
    fn read_identifier(&mut self) -> (t: Token)
        requires
            old(self).wf(),
            old(self).cur < old(self).chars@.len(),
            alphabetic_char(old(self).chars@[old(self).cur as int]) || old(self).chars@[old(
                self,
            ).cur as int] == '_',
        ensures
            final(self).wf(),
            final(self).chars@ == old(self).chars@,
            final(self).filename == old(self).filename,
            token_at(old(self).chars@, old(self).cur as int) == LexStep::Token(
                t.kind.model(),
                t.span,
                final(self).cur as int,
            ),
    {
        let ghost chars = self.chars@;
        let ghost s = self.cur as int;
        let (start_pos, start_line, start_column) = self.token_start();
        let mut identifier = String::new();
        push_char(&mut identifier, self.chars[self.cur]);
        self.read_char();
        proof {
            lemma_scans(chars, s + 1);
        }
        loop
            invariant
                self.wf(),
                self.chars@ == chars,
                self.filename == old(self).filename,
                0 <= s < self.cur <= chars.len(),
                identifier@ == chars.subrange(s, self.cur as int),
                ident_end(chars, self.cur as int) == ident_end(chars, s + 1),
            ensures
                self.wf(),
                self.chars@ == chars,
                self.filename == old(self).filename,
                self.cur == ident_end(chars, s + 1),
                identifier@ == chars.subrange(s, self.cur as int),
            decreases chars.len() - self.cur,
        {
            match self.current_char {
                Some(c) => {
                    if alphanumeric(c) || c == '_' {
                        push_char(&mut identifier, c);
                        proof {
                            assert(self.cur < chars.len());
                            assert(c == chars[self.cur as int]);
                            assert(chars.subrange(s, self.cur + 1) =~= chars.subrange(
                                s,
                                self.cur as int,
                            ).push(c));
                        }
                        self.read_char();
                    } else {
                        break;
                    }
                },
                None => {
                    break;
                },
            }
        }
        let span = self.make_span(start_pos, start_line, start_column);
        proof {
            reveal_strlit("let");
            reveal_strlit("fn");
            reveal_strlit("if");
            reveal_strlit("else");
            reveal_strlit("true");
            reveal_strlit("false");
            reveal_strlit("return");
        }
        let kind = if text_is(&identifier, "let") {
            TokenKind::Let
        } else if text_is(&identifier, "fn") {
            TokenKind::Fn
        } else if text_is(&identifier, "if") {
            TokenKind::If
        } else if text_is(&identifier, "else") {
            TokenKind::Else
        } else if text_is(&identifier, "true") {
            TokenKind::True
        } else if text_is(&identifier, "false") {
            TokenKind::False
        } else if text_is(&identifier, "return") {
            TokenKind::Return
        } else {
            TokenKind::Identifier(identifier)
        };
        Token::new(kind, span)
    }

    /// Reads a number whose first digit is under the cursor.
    fn read_number(&mut self) -> (r: Result<Token>)
        requires
            old(self).wf(),
            old(self).cur < old(self).chars@.len(),
            ascii_digit(old(self).chars@[old(self).cur as int]),
            !alphabetic_char(old(self).chars@[old(self).cur as int]),
        ensures
            final(self).wf(),
            final(self).chars@ == old(self).chars@,
            final(self).filename == old(self).filename,
            lex_outcome(token_at(old(self).chars@, old(self).cur as int), r, final(self).cur as int, old(self).filename),
    {
        let ghost chars = self.chars@;
        let ghost s = self.cur as int;
        let (start_pos, start_line, start_column) = self.token_start();
        let mut is_float = false;
        let mut number_str = String::new();
        let mut digits: Vec<char> = Vec::new();
        let first = self.chars[self.cur];
        push_char(&mut number_str, first);
        digits.push(first);
        self.read_char();
        proof {
            lemma_scans(chars, s + 1);
        }
        loop
            invariant
                self.wf(),
                self.chars@ == chars,
                self.filename == old(self).filename,
                0 <= s < self.cur <= chars.len(),
                number_str@ == chars.subrange(s, self.cur as int),
                !is_float ==> digits@ == number_str@,
                forall|k: int| 0 <= k < digits@.len() ==> ascii_digit(#[trigger] digits@[k]),
                number_end(chars, self.cur as int, is_float) == number_end(chars, s + 1, false),
            ensures
                self.wf(),
                self.chars@ == chars,
                self.filename == old(self).filename,
                (self.cur as int, is_float) == number_end(chars, s + 1, false),
                number_str@ == chars.subrange(s, self.cur as int),
                !is_float ==> digits@ == number_str@,
                forall|k: int| 0 <= k < digits@.len() ==> ascii_digit(#[trigger] digits@[k]),
            decreases chars.len() - self.cur,
        {
            match self.current_char {
                Some(c) => {
                    if c >= '0' && c <= '9' {
                        push_char(&mut number_str, c);
                        digits.push(c);
                        proof {
                            assert(self.cur < chars.len());
                            assert(c == chars[self.cur as int]);
                            assert(chars.subrange(s, self.cur + 1) =~= chars.subrange(
                                s,
                                self.cur as int,
                            ).push(c));
                        }
                        self.read_char();
                    } else if c == '.' && !is_float {
                        push_char(&mut number_str, c);
                        is_float = true;
                        proof {
                            assert(self.cur < chars.len());
                            assert(c == chars[self.cur as int]);
                            assert(chars.subrange(s, self.cur + 1) =~= chars.subrange(
                                s,
                                self.cur as int,
                            ).push(c));
                        }
                        self.read_char();
                    } else {
                        break;
                    }
                },
                None => {
                    break;
                },
            }
        }
        let span = self.make_span(start_pos, start_line, start_column);
        if is_float {
            Ok(Token::new(TokenKind::FloatLiteral(number_str), span))
        } else {
            match digits_to_i64(&digits) {
                Some(value) => Ok(Token::new(TokenKind::IntLiteral(value), span)),
                None => {
                    let mut msg = String::from_str("無効な整数: ");
                    msg.append(number_str.as_str());
                    Err(Error::syntax(msg.as_str(), Some(span), copy_name(&self.filename)))
                },
            }
        }
    }
}

impl Lexer {
    /// Reads a string literal whose opening quote is under the cursor.
    fn read_string(&mut self) -> (r: Result<Token>)
        requires
            old(self).wf(),
            old(self).cur < old(self).chars@.len(),
            old(self).chars@[old(self).cur as int] == '"',
            !alphabetic_char(old(self).chars@[old(self).cur as int]),
        ensures
            final(self).wf(),
            final(self).chars@ == old(self).chars@,
            final(self).filename == old(self).filename,
            lex_outcome(token_at(old(self).chars@, old(self).cur as int), r, final(self).cur as int, old(self).filename),
    {
        let ghost chars = self.chars@;
        let ghost s = self.cur as int;
        let (start_pos, start_line, start_column) = self.token_start();
        let mut string_content = String::new();
        self.read_char();
        loop
            invariant_except_break
                string_rest(chars, self.cur as int, string_content@) == string_rest(
                    chars,
                    s + 1,
                    Seq::empty(),
                ),
            invariant
                self.wf(),
                self.chars@ == chars,
                chars == old(self).chars@,
                self.filename == old(self).filename,
                0 <= s < self.cur <= chars.len(),
                chars[s] == '"',
                s == old(self).cur,
                !alphabetic_char(chars[s]),
                start_pos == s,
                start_line == line_of(chars, s),
                start_column == column_of(chars, s) - 1,
            ensures
                self.wf(),
                self.chars@ == chars,
                self.filename == old(self).filename,
                string_rest(chars, s + 1, Seq::empty()) == Some((string_content@, self.cur as int)),
            decreases chars.len() - self.cur,
        {
            let ghost i = self.cur as int;
            match self.current_char {
                Some(c) => {
                    if c == '"' {
                        self.read_char();
                        break;
                    } else if c == '\\' {
                        self.read_char();
                        match self.current_char {
                            Some('n') => push_char(&mut string_content, '\n'),
                            Some('r') => push_char(&mut string_content, '\r'),
                            Some('t') => push_char(&mut string_content, '\t'),
                            Some('\\') => push_char(&mut string_content, '\\'),
                            Some('"') => push_char(&mut string_content, '"'),
                            Some(e) => {
                                push_char(&mut string_content, '\\');
                                push_char(&mut string_content, e);
                            },
                            None => {
                                assert(string_rest(chars, i, string_content@) is None);
                                assert(string_rest(chars, s + 1, Seq::empty()) is None);
                                assert(self.cur == chars.len());
                                assert(token_at(chars, s) == LexStep::Failure(
                                    "文字列リテラルが終了する前に入力が終了しました"@,
                                    token_span(chars, s, chars.len() as int),
                                    chars.len() as int,
                                ));
                                let span = self.make_span(start_pos, start_line, start_column);
                                return Err(
                                    Error::syntax(
                                        "文字列リテラルが終了する前に入力が終了しました",
                                        Some(span),
                                        copy_name(&self.filename),
                                    ),
                                );
                            },
                        }
                    } else {
                        push_char(&mut string_content, c);
                    }
                    self.read_char();
                },
                None => {
                    break;
                },
            }
        }
        let span = self.make_span(start_pos, start_line, start_column);
        Ok(Token::new(TokenKind::StringLiteral(string_content), span))
    }

    /// Reads the next token, after white space and comments.
    pub fn next_token(&mut self) -> (r: Result<Token>)
        requires
            old(self).wf(),
        ensures
            final(self).wf(),
            final(self).text() == old(self).text(),
            final(self).file() == old(self).file(),
            lex_outcome(lex_step(old(self).text(), old(self).cursor()), r, final(self).cursor(), old(self).file()),
    {
        self.skip_whitespace_and_comments();
        match self.current_char {
            None => {
                let span = Span {
                    start: self.position,
                    end: self.position,
                    line: self.line,
                    column: self.column,
                };
                Ok(Token::new(TokenKind::Eof, span))
            },
            Some(c) => {
                if alphabetic(c) || c == '_' {
                    Ok(self.read_identifier())
                } else if c >= '0' && c <= '9' {
                    self.read_number()
                } else if c == '"' {
                    self.read_string()
                } else {
                    let (start_pos, start_line, start_column) = self.token_start();
                    let ghost chars = self.chars@;
                    let ghost s = self.cur as int;
                    self.read_char();
                    let kind = match c {
                        '(' => TokenKind::LeftParen,
                        ')' => TokenKind::RightParen,
                        '{' => TokenKind::LeftBrace,
                        '}' => TokenKind::RightBrace,
                        '[' => TokenKind::LeftBracket,
                        ']' => TokenKind::RightBracket,
                        ',' => TokenKind::Comma,
                        '.' => TokenKind::Dot,
                        ':' => TokenKind::Colon,
                        ';' => TokenKind::Semicolon,
                        '=' => {
                            if self.current_char == Some('=') {
                                self.read_char();
                                TokenKind::EqualEqual
                            } else {
                                TokenKind::Equal
                            }
                        },
                        '+' => TokenKind::Plus,
                        '-' => TokenKind::Minus,
                        '*' => TokenKind::Star,
                        '/' => TokenKind::Slash,
                        '%' => TokenKind::Percent,
                        '!' => {
                            if self.current_char == Some('=') {
                                self.read_char();
                                TokenKind::NotEqual
                            } else {
                                TokenKind::Bang
                            }
                        },
                        '<' => {
                            if self.current_char == Some('=') {
                                self.read_char();
                                TokenKind::LessEqual
                            } else {
                                TokenKind::Less
                            }
                        },
                        '>' => {
                            if self.current_char == Some('=') {
                                self.read_char();
                                TokenKind::GreaterEqual
                            } else {
                                TokenKind::Greater
                            }
                        },
                        '&' => {
                            if self.current_char == Some('&') {
                                self.read_char();
                                TokenKind::And
                            } else {
                                return Err(self.unexpected(c, start_pos, start_line, start_column));
                            }
                        },
                        '|' => {
                            if self.current_char == Some('|') {
                                self.read_char();
                                TokenKind::Or
                            } else {
                                return Err(self.unexpected(c, start_pos, start_line, start_column));
                            }
                        },
                        _ => {
                            return Err(self.unexpected(c, start_pos, start_line, start_column));
                        },
                    };
                    let span = self.make_span(start_pos, start_line, start_column);
                    Ok(Token::new(kind, span))
                }
            },
        }
    }

    /// The error for a character that starts no token.
    fn unexpected(&self, c: char, start_pos: usize, start_line: usize, start_column: usize) -> (e: Error)
        ensures
            e.kind matches ErrorKind::Syntax(m) && m@ == "予期しない文字: "@.push(c),
            e.span == Some(Span { start: start_pos, end: self.cur, line: start_line, column: start_column }),
            e.filename == self.filename,
    {
        let mut msg = String::from_str("予期しない文字: ");
        push_char(&mut msg, c);
        let span = self.make_span(start_pos, start_line, start_column);
        Error::syntax(msg.as_str(), Some(span), copy_name(&self.filename))
    }

    /// Reads all tokens up to and including the end of input.
    pub fn tokenize(&mut self) -> (r: Result<Vec<Token>>)
        requires
            old(self).wf(),
        ensures
            final(self).wf(),
            final(self).text() == old(self).text(),
            match lex_all(old(self).text(), old(self).cursor()) {
                Ok(ts) => r matches Ok(tokens) && tokens@.len() == ts.len() && forall|i: int|
                    0 <= i < ts.len() ==> (#[trigger] tokens@[i]).kind.model() == ts[i].0
                        && tokens@[i].span == ts[i].1,
                Err((msg, sp)) => r matches Err(err) && err.kind matches ErrorKind::Syntax(m)
                    && m@ == msg && err.span == Some(sp) && err.filename == old(self).file(),
            },
    {
        let mut tokens: Vec<Token> = Vec::new();
        let ghost chars = self.chars@;
        let ghost cur0 = self.cur as int;
        loop
            invariant
                self.wf(),
                self.chars@ == chars,
                chars == old(self).chars@,
                self.filename == old(self).filename,
                0 <= cur0 <= self.cur <= chars.len(),
                cur0 == old(self).cur,
                match lex_all(chars, self.cur as int) {
                    Ok(rest) => lex_all(chars, cur0) matches Ok(all) && all.len() == tokens@.len() + rest.len()
                        && (forall|i: int| 0 <= i < tokens@.len() ==> (#[trigger] tokens@[i]).kind.model() == all[i].0
                            && tokens@[i].span == all[i].1)
                        && (forall|i: int| 0 <= i < rest.len() ==> #[trigger] rest[i] == all[tokens@.len() + i]),
                    Err(e) => lex_all(chars, cur0) == Err::<Seq<(TokenModel, Span)>, (Seq<char>, Span)>(e),
                },
            decreases chars.len() - self.cur,
        {
            let ghost before = self.cur as int;
            let ghost prev = tokens@;
            proof {
                lemma_step_progress(chars, before);
            }
            let ghost all0 = lex_all(chars, before);
            let token = match self.next_token() {
                Ok(t) => t,
                Err(e) => {
                    proof {
                        assert(all0 is Err);
                    }
                    return Err(e);
                },
            };
            let is_eof = matches!(token.kind, TokenKind::Eof);
            tokens.push(token);
            if is_eof {
                proof {
                    assert(all0 == Ok::<Seq<(TokenModel, Span)>, (Seq<char>, Span)>(seq![(TokenModel::Eof, token.span)]));
                    assert(tokens@[prev.len() as int] == token);
                    let all = lex_all(chars, cur0)->Ok_0;
                    assert(seq![(TokenModel::Eof, token.span)][0] == all[prev.len() as int]);
                    assert forall|k: int| 0 <= k < tokens@.len() implies (#[trigger] tokens@[k]).kind.model() == all[k].0
                        && tokens@[k].span == all[k].1 by {
                        if k < prev.len() {
                            assert(tokens@[k] == prev[k]);
                        }
                    }
                }
                return Ok(tokens);
            }
            proof {
                let e = self.cur as int;
                assert(lex_step(chars, before) == LexStep::Token(token.kind.model(), token.span, e));
                assert(all0 == match lex_all(chars, e) {
                    Ok(rest) => Ok(seq![(token.kind.model(), token.span)] + rest),
                    Err(err) => Err(err),
                });
                match lex_all(chars, e) {
                    Ok(rest2) => {
                        let rest = seq![(token.kind.model(), token.span)] + rest2;
                        let all = lex_all(chars, cur0)->Ok_0;
                        assert(all0 == Ok::<Seq<(TokenModel, Span)>, (Seq<char>, Span)>(rest));
                        assert(tokens@[prev.len() as int] == token);
                        assert(rest[0] == all[prev.len() as int]);
                        assert forall|k: int| 0 <= k < rest2.len() implies #[trigger] rest2[k] == all[tokens@.len() + k] by {
                            assert(rest[k + 1] == all[prev.len() + k + 1]);
                        }
                        assert forall|k: int| 0 <= k < tokens@.len() implies (#[trigger] tokens@[k]).kind.model() == all[k].0
                            && tokens@[k].span == all[k].1 by {
                            if k < prev.len() {
                                assert(tokens@[k] == prev[k]);
                            }
                        }
                    },
                    Err(err) => {},
                }
            }
        }
    }
}
/// Each operator and punctuation mark is read by its spelling: after white space and
/// comments, `<=` `>=` `==` `!=` `&&` `||` are one token each covering both characters
/// (`LessEqual`, `GreaterEqual`, `EqualEqual`, `NotEqual`, `And`, `Or`); `<` `>` `=` `!`
/// not followed by `=` are `Less`, `Greater`, `Equal`, `Bang`; and each of
/// `( ) { } [ ] , . : ; + - * / %` is its own one-character token.
pub proof fn law_lex_operators(chars: Seq<char>, cur: int, s: int)
    requires
        s == skip_space(chars, cur),
    ensures
        0 <= s && s + 1 < chars.len() && chars[s] == '<' && chars[s + 1] == '='
            ==> lex_step(chars, cur) == LexStep::Token(TokenModel::LessEqual, token_span(chars, s, s + 2), s + 2),
        0 <= s && s + 1 < chars.len() && chars[s] == '>' && chars[s + 1] == '='
            ==> lex_step(chars, cur) == LexStep::Token(TokenModel::GreaterEqual, token_span(chars, s, s + 2), s + 2),
        0 <= s && s + 1 < chars.len() && chars[s] == '=' && chars[s + 1] == '='
            ==> lex_step(chars, cur) == LexStep::Token(TokenModel::EqualEqual, token_span(chars, s, s + 2), s + 2),
        0 <= s && s + 1 < chars.len() && chars[s] == '!' && chars[s + 1] == '='
            ==> lex_step(chars, cur) == LexStep::Token(TokenModel::NotEqual, token_span(chars, s, s + 2), s + 2),
        0 <= s && s + 1 < chars.len() && chars[s] == '&' && chars[s + 1] == '&'
            ==> lex_step(chars, cur) == LexStep::Token(TokenModel::And, token_span(chars, s, s + 2), s + 2),
        0 <= s && s + 1 < chars.len() && chars[s] == '|' && chars[s + 1] == '|'
            ==> lex_step(chars, cur) == LexStep::Token(TokenModel::Or, token_span(chars, s, s + 2), s + 2),
        0 <= s < chars.len() && chars[s] == '<' && !(s + 1 < chars.len() && chars[s + 1] == '=')
            ==> lex_step(chars, cur) == LexStep::Token(TokenModel::Less, token_span(chars, s, s + 1), s + 1),
        0 <= s < chars.len() && chars[s] == '>' && !(s + 1 < chars.len() && chars[s + 1] == '=')
            ==> lex_step(chars, cur) == LexStep::Token(TokenModel::Greater, token_span(chars, s, s + 1), s + 1),
        0 <= s < chars.len() && chars[s] == '=' && !(s + 1 < chars.len() && chars[s + 1] == '=')
            ==> lex_step(chars, cur) == LexStep::Token(TokenModel::Equal, token_span(chars, s, s + 1), s + 1),
        0 <= s < chars.len() && chars[s] == '!' && !(s + 1 < chars.len() && chars[s + 1] == '=')
            ==> lex_step(chars, cur) == LexStep::Token(TokenModel::Bang, token_span(chars, s, s + 1), s + 1),
        0 <= s < chars.len() && chars[s] == '('
            ==> lex_step(chars, cur) == LexStep::Token(TokenModel::LeftParen, token_span(chars, s, s + 1), s + 1),
        0 <= s < chars.len() && chars[s] == ')'
            ==> lex_step(chars, cur) == LexStep::Token(TokenModel::RightParen, token_span(chars, s, s + 1), s + 1),
        0 <= s < chars.len() && chars[s] == '{'
            ==> lex_step(chars, cur) == LexStep::Token(TokenModel::LeftBrace, token_span(chars, s, s + 1), s + 1),
        0 <= s < chars.len() && chars[s] == '}'
            ==> lex_step(chars, cur) == LexStep::Token(TokenModel::RightBrace, token_span(chars, s, s + 1), s + 1),
        0 <= s < chars.len() && chars[s] == '['
            ==> lex_step(chars, cur) == LexStep::Token(TokenModel::LeftBracket, token_span(chars, s, s + 1), s + 1),
        0 <= s < chars.len() && chars[s] == ']'
            ==> lex_step(chars, cur) == LexStep::Token(TokenModel::RightBracket, token_span(chars, s, s + 1), s + 1),
        0 <= s < chars.len() && chars[s] == ','
            ==> lex_step(chars, cur) == LexStep::Token(TokenModel::Comma, token_span(chars, s, s + 1), s + 1),
        0 <= s < chars.len() && chars[s] == '.'
            ==> lex_step(chars, cur) == LexStep::Token(TokenModel::Dot, token_span(chars, s, s + 1), s + 1),
        0 <= s < chars.len() && chars[s] == ':'
            ==> lex_step(chars, cur) == LexStep::Token(TokenModel::Colon, token_span(chars, s, s + 1), s + 1),
        0 <= s < chars.len() && chars[s] == ';'
            ==> lex_step(chars, cur) == LexStep::Token(TokenModel::Semicolon, token_span(chars, s, s + 1), s + 1),
        0 <= s < chars.len() && chars[s] == '+'
            ==> lex_step(chars, cur) == LexStep::Token(TokenModel::Plus, token_span(chars, s, s + 1), s + 1),
        0 <= s < chars.len() && chars[s] == '-'
            ==> lex_step(chars, cur) == LexStep::Token(TokenModel::Minus, token_span(chars, s, s + 1), s + 1),
        0 <= s < chars.len() && chars[s] == '*'
            ==> lex_step(chars, cur) == LexStep::Token(TokenModel::Star, token_span(chars, s, s + 1), s + 1),
        0 <= s < chars.len() && chars[s] == '/'
            ==> lex_step(chars, cur) == LexStep::Token(TokenModel::Slash, token_span(chars, s, s + 1), s + 1),
        0 <= s < chars.len() && chars[s] == '%'
            ==> lex_step(chars, cur) == LexStep::Token(TokenModel::Percent, token_span(chars, s, s + 1), s + 1),
{
}

/// Inside a string literal each escape stands for one character, fixed by the escape:
/// `\n` a line feed, `\r` a carriage return, `\t` a tab, `\\` a backslash and `\"` a
/// quote; a backslash before any other character keeps both; any other character than
/// `"` and `\` stands for itself. Reading on after it is reading the rest.
pub proof fn law_lex_string_escapes(chars: Seq<char>, i: int, acc: Seq<char>)
    requires
        0 <= i,
    ensures
        i + 1 < chars.len() && chars[i] == '\\' && chars[i + 1] == 'n'
            ==> string_rest(chars, i, acc) == string_rest(chars, i + 2, acc.push('\n')),
        i + 1 < chars.len() && chars[i] == '\\' && chars[i + 1] == 'r'
            ==> string_rest(chars, i, acc) == string_rest(chars, i + 2, acc.push('\r')),
        i + 1 < chars.len() && chars[i] == '\\' && chars[i + 1] == 't'
            ==> string_rest(chars, i, acc) == string_rest(chars, i + 2, acc.push('\t')),
        i + 1 < chars.len() && chars[i] == '\\' && chars[i + 1] == '\\'
            ==> string_rest(chars, i, acc) == string_rest(chars, i + 2, acc.push('\\')),
        i + 1 < chars.len() && chars[i] == '\\' && chars[i + 1] == '"'
            ==> string_rest(chars, i, acc) == string_rest(chars, i + 2, acc.push('"')),
        i + 1 < chars.len() && chars[i] == '\\' && !(chars[i + 1] == 'n' || chars[i + 1] == 'r'
            || chars[i + 1] == 't' || chars[i + 1] == '\\' || chars[i + 1] == '"')
            ==> string_rest(chars, i, acc) == string_rest(chars, i + 2, acc.push('\\').push(chars[i + 1])),
        i < chars.len() && chars[i] != '\\' && chars[i] != '"'
            ==> string_rest(chars, i, acc) == string_rest(chars, i + 1, acc.push(chars[i])),
        i < chars.len() && chars[i] == '"' ==> string_rest(chars, i, acc) == Some((acc, i + 1)),
{
}

/// A `"` starts a string literal whose content is what the string reads up to the
/// closing quote, and the token covers the literal up to and including that quote.
pub proof fn law_lex_string_token(chars: Seq<char>, cur: int, s: int)
    requires
        s == skip_space(chars, cur),
        0 <= s < chars.len(),
        chars[s] == '"',
    ensures
        string_rest(chars, s + 1, Seq::empty()) matches Some((content, e)) ==> lex_step(chars, cur)
            == LexStep::Token(TokenModel::StringLiteral(content), token_span(chars, s, e), e),
{
}

/// Digits have their decimal value: no digits are 0, and one more digit `d` after
/// digits `t` is ten times the value of `t` plus the value of `d`.
pub proof fn law_digits_value(t: Seq<char>, d: char)
    requires
        '0' <= d <= '9',
    ensures
        digits_value(Seq::empty()) == 0,
        digits_value(t.push(d)) == digits_value(t) * 10 + (d as u32 - 48),
{
    assert(t.push(d).drop_last() =~= t);
}

/// A number without a dot is an integer token of the decimal value of its digits (when
/// that fits an `i64`), covering the digits; with a dot it is a float token of its text.
pub proof fn law_lex_numbers(chars: Seq<char>, cur: int, s: int)
    requires
        s == skip_space(chars, cur),
        0 <= s < chars.len(),
        '0' <= chars[s] <= '9',
    ensures
        ({
            let (e, dot) = number_end(chars, s + 1, false);
            let text = chars.subrange(s, e);
            &&& !dot && digits_value(text) <= i64::MAX ==> lex_step(chars, cur)
                == LexStep::Token(TokenModel::IntLiteral(digits_value(text) as i64), token_span(chars, s, e), e)
            &&& dot ==> lex_step(chars, cur) == LexStep::Token(TokenModel::FloatLiteral(text), token_span(chars, s, e), e)
        }),
{
}

/// Words are read by their letters: a word that starts with a letter or `_` runs to the
/// first character that cannot continue an identifier, and it is the keyword `let`,
/// `fn`, `if`, `else`, `true`, `false` or `return` when it is spelled so, and an
/// identifier with its text otherwise.
pub proof fn law_lex_words(chars: Seq<char>, cur: int, s: int, e: int)
    requires
        s == skip_space(chars, cur),
        0 <= s < chars.len(),
        alphabetic_char(chars[s]) || chars[s] == '_',
        e == ident_end(chars, s + 1),
    ensures
        ({
            let w = chars.subrange(s, e);
            let step = |t: TokenModel| LexStep::Token(t, token_span(chars, s, e), e);
            &&& w == seq!['l', 'e', 't'] ==> lex_step(chars, cur) == step(TokenModel::Let)
            &&& w == seq!['f', 'n'] ==> lex_step(chars, cur) == step(TokenModel::Fn)
            &&& w == seq!['i', 'f'] ==> lex_step(chars, cur) == step(TokenModel::If)
            &&& w == seq!['e', 'l', 's', 'e'] ==> lex_step(chars, cur) == step(TokenModel::Else)
            &&& w == seq!['t', 'r', 'u', 'e'] ==> lex_step(chars, cur) == step(TokenModel::True)
            &&& w == seq!['f', 'a', 'l', 's', 'e'] ==> lex_step(chars, cur) == step(TokenModel::False)
            &&& w == seq!['r', 'e', 't', 'u', 'r', 'n'] ==> lex_step(chars, cur) == step(TokenModel::Return)
            &&& !(w == seq!['l', 'e', 't'] || w == seq!['f', 'n'] || w == seq!['i', 'f']
                || w == seq!['e', 'l', 's', 'e'] || w == seq!['t', 'r', 'u', 'e']
                || w == seq!['f', 'a', 'l', 's', 'e'] || w == seq!['r', 'e', 't', 'u', 'r', 'n'])
                ==> lex_step(chars, cur) == step(TokenModel::Identifier(w))
        }),
{
    reveal_strlit("let");
    reveal_strlit("fn");
    reveal_strlit("if");
    reveal_strlit("else");
    reveal_strlit("true");
    reveal_strlit("false");
    reveal_strlit("return");
    assert("let"@ =~= seq!['l', 'e', 't']);
    assert("fn"@ =~= seq!['f', 'n']);
    assert("if"@ =~= seq!['i', 'f']);
    assert("else"@ =~= seq!['e', 'l', 's', 'e']);
    assert("true"@ =~= seq!['t', 'r', 'u', 'e']);
    assert("false"@ =~= seq!['f', 'a', 'l', 's', 'e']);
    assert("return"@ =~= seq!['r', 'e', 't', 'u', 'r', 'n']);
}

/// A successful lexing of the rest of the text yields at least one token; the last one
/// is the end of input, and no token before it is.
pub proof fn law_lex_ends_with_eof(chars: Seq<char>, cur: int)
    requires
        0 <= cur <= chars.len(),
    ensures
        lex_all(chars, cur) matches Ok(ts) ==> ts.len() >= 1 && ts.last().0 == TokenModel::Eof
            && forall|i: int| 0 <= i < ts.len() - 1 ==> (#[trigger] ts[i]).0 != TokenModel::Eof,
    decreases chars.len() - cur,
{
    match lex_step(chars, cur) {
        LexStep::Failure(_, _, _) => {},
        LexStep::Token(TokenModel::Eof, _, _) => {},
        LexStep::Token(t, sp, e) => {
            lemma_step_progress(chars, cur);
            law_lex_ends_with_eof(chars, e);
            match lex_all(chars, e) {
                Ok(rest) => {
                    let ts = seq![(t, sp)] + rest;
                    assert forall|i: int| 0 <= i < ts.len() - 1 implies (#[trigger] ts[i]).0 != TokenModel::Eof by {
                        if i > 0 {
                            assert(ts[i] == rest[i - 1]);
                        }
                    }
                },
                Err(_) => {},
            }
        },
    }
}

} // verus!
