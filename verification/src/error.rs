//! Errors of the Protorun front end.
use vstd::prelude::*;
use crate::ast::Span;

verus! {

/// The kind of an error.
#[derive(Debug, Clone, PartialEq)]
pub enum ErrorKind {
    /// A syntax error.
    Syntax(String),
    /// Any other error.
    Other(String),
}

/// An error with its position and file.
#[derive(Debug, Clone, PartialEq)]
pub struct Error {
    pub kind: ErrorKind,
    pub span: Option<Span>,
    pub filename: Option<String>,
}

/// The result type of the front end.
pub type Result<T> = std::result::Result<T, Error>;

/// The character of a decimal digit.
pub open spec fn digit_char(d: nat) -> char {
    if d == 0 { '0' }
    else if d == 1 { '1' }
    else if d == 2 { '2' }
    else if d == 3 { '3' }
    else if d == 4 { '4' }
    else if d == 5 { '5' }
    else if d == 6 { '6' }
    else if d == 7 { '7' }
    else if d == 8 { '8' }
    else { '9' }
}

/// The decimal notation of a natural number, without leading zeros.
pub open spec fn decimal(n: nat) -> Seq<char>
    decreases n,
{
    if n < 10 {
        seq![digit_char(n)]
    } else {
        decimal(n / 10) + seq![digit_char(n % 10)]
    }
}

/// The text of the message part of an error of the given kind.
pub open spec fn kind_text(kind: ErrorKind) -> Seq<char> {
    match kind {
        ErrorKind::Syntax(msg) => "構文解析エラー: "@ + msg@,
        ErrorKind::Other(msg) => "エラー: "@ + msg@,
    }
}

/// The text of the position part of an error.
pub open spec fn position_text(span: Option<Span>, filename: Option<String>) -> Seq<char> {
    match (span, filename) {
        (Some(s), Some(f)) => " ("@ + f@ + ":"@ + decimal(s.line as nat) + ":"@ + decimal(
            s.column as nat,
        ) + ")"@,
        (Some(s), None) => " (行 "@ + decimal(s.line as nat) + "、列 "@ + decimal(s.column as nat)
            + ")"@,
        _ => Seq::empty(),
    }
}

/// The text shown for an error.
pub open spec fn error_text(e: Error) -> Seq<char> {
    kind_text(e.kind) + position_text(e.span, e.filename)
}

fn digit_str(d: usize) -> (s: &'static str)
    requires
        d < 10,
    ensures
        s@ == seq![digit_char(d as nat)],
{
    proof {
        reveal_strlit("0");
        reveal_strlit("1");
        reveal_strlit("2");
        reveal_strlit("3");
        reveal_strlit("4");
        reveal_strlit("5");
        reveal_strlit("6");
        reveal_strlit("7");
        reveal_strlit("8");
        reveal_strlit("9");
    }
    if d == 0 { "0" }
    else if d == 1 { "1" }
    else if d == 2 { "2" }
    else if d == 3 { "3" }
    else if d == 4 { "4" }
    else if d == 5 { "5" }
    else if d == 6 { "6" }
    else if d == 7 { "7" }
    else if d == 8 { "8" }
    else { "9" }
}

/// Appends the decimal notation of `n` to `out`.
pub fn push_decimal(out: &mut String, n: usize)
    ensures
        final(out)@ == old(out)@ + decimal(n as nat),
    decreases n,
{
    if n < 10 {
        out.append(digit_str(n));
    } else {
        push_decimal(out, n / 10);
        out.append(digit_str(n % 10));
        assert(final(out)@ =~= old(out)@ + decimal(n as nat));
    }
}

impl Error {
    /// A syntax error with the given message, position and file.
    pub fn syntax(message: &str, span: Option<Span>, filename: Option<String>) -> (e: Error)
        ensures
            e.kind matches ErrorKind::Syntax(m) && m@ == message@,
            e.span == span,
            e.filename == filename,
    {
        Error { kind: ErrorKind::Syntax(String::from_str(message)), span, filename }
    }

    /// Any other error with the given message, position and file.
    pub fn other(message: &str, span: Option<Span>, filename: Option<String>) -> (e: Error)
        ensures
            e.kind matches ErrorKind::Other(m) && m@ == message@,
            e.span == span,
            e.filename == filename,
    {
        Error { kind: ErrorKind::Other(String::from_str(message)), span, filename }
    }

    /// The text shown for this error: the kind and message, then the file, line and
    /// column where they are known.
    pub fn to_string(&self) -> (s: String)
        ensures
            s@ == error_text(*self),
    {
        let mut out = String::new();
        match &self.kind {
            ErrorKind::Syntax(msg) => {
                out.append("構文解析エラー: ");
                out.append(msg.as_str());
            },
            ErrorKind::Other(msg) => {
                out.append("エラー: ");
                out.append(msg.as_str());
            },
        }
        let ghost head = out@;
        assert(head =~= kind_text(self.kind));
        match (&self.span, &self.filename) {
            (Some(span), Some(filename)) => {
                out.append(" (");
                out.append(filename.as_str());
                out.append(":");
                push_decimal(&mut out, span.line);
                out.append(":");
                push_decimal(&mut out, span.column);
                out.append(")");
                assert(out@ =~= head + position_text(self.span, self.filename));
            },
            (Some(span), None) => {
                out.append(" (行 ");
                push_decimal(&mut out, span.line);
                out.append("、列 ");
                push_decimal(&mut out, span.column);
                out.append(")");
                assert(out@ =~= head + position_text(self.span, self.filename));
            },
            _ => {
                assert(out@ =~= head + position_text(self.span, self.filename));
            },
        }
        out
    }
}

} // verus!
