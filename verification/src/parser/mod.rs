//! The Protorun parser.
pub mod common;
pub mod keywords;
pub mod types;
pub mod literals;
pub mod patterns;
pub mod expressions;
pub mod statements;
pub mod declarations;
pub mod modules;
pub mod reread;

use vstd::prelude::*;
use vstd::string::StringSliceAdditionalSpecFns;
use crate::ast::{Type, Expr, Program};
use crate::error::{Error, Result};
use crate::parser::common::{Parsed, is_syntax_error, to_syntax_error};
use crate::parser::types::type_at;
use crate::parser::expressions::{expression_at, expr_kind};
use crate::parser::statements::{program_at, program_matches};

verus! {

/// A parser; it names the file in the errors it reports.
pub struct Parser {
    filename: Option<String>,
}

impl Parser {
    /// The name of the file in the errors this parser reports.
    pub closed spec fn file(self) -> Option<String> {
        self.filename
    }

    /// A parser for the given file.
    pub fn new(filename: Option<String>) -> (p: Parser)
        ensures
            p.file() == filename,
    {
        Parser { filename }
    }

    /// Parses a type at the start of `input`; what follows it is ignored. A failure is
    /// reported as a syntax error.
    pub fn parse_type(&mut self, input: &str) -> (r: Result<Type>)
        requires
            input.spec_bytes().len() < usize::MAX,
        ensures
            final(self).file() == old(self).file(),
            match type_at(input.spec_bytes(), 0) {
                Parsed::Done(_, t) => r matches Ok(ty) && ty.model() == t,
                Parsed::Failed(_, pos, k) => r matches Err(e) && is_syntax_error(e, input, pos, k, old(self).file()),
            },
    {
        let bytes = input.as_bytes();
        match types::parse_type(bytes, 0) {
            Ok((_, t)) => Ok(t),
            Err(f) => Err(to_syntax_error(input, f, self.filename.clone())),
        }
    }

    /// Parses an expression at the start of `input`; what follows it is ignored. A
    /// failure is reported as a syntax error.
    pub fn parse_expression(&mut self, input: &str) -> (r: Result<Expr>)
        requires
            input.spec_bytes().len() < usize::MAX,
        ensures
            final(self).file() == old(self).file(),
            match expression_at(input.spec_bytes(), 0) {
                Parsed::Done(_, k) => r matches Ok(x) && expr_kind(x) == k,
                Parsed::Failed(_, pos, k) => r matches Err(e) && is_syntax_error(e, input, pos, k, old(self).file()),
            },
    {
        let bytes = input.as_bytes();
        match expressions::expression(bytes, 0) {
            Ok((_, x)) => Ok(x),
            Err(f) => Err(to_syntax_error(input, f, self.filename.clone())),
        }
    }

    /// Parses a program: its top-level items, sorted by kind, each list in input order.
    /// A failure, and input left unread after the last item, is reported as a syntax
    /// error.
    pub fn parse_program(&mut self, input: &str) -> (r: Result<Program>)
        requires
            input.spec_bytes().len() < usize::MAX,
        ensures
            final(self).file() == old(self).file(),
            match program_at(input.spec_bytes(), 0) {
                Parsed::Done(_, ks) => r matches Ok(p) && program_matches(p, ks),
                Parsed::Failed(_, pos, k) => r matches Err(e) && is_syntax_error(e, input, pos, k, old(self).file()),
            },
    {
        let bytes = input.as_bytes();
        match statements::program(bytes, 0) {
            Ok((_, p)) => Ok(p),
            Err(f) => Err(to_syntax_error(input, f, self.filename.clone())),
        }
    }
}

} // verus!
