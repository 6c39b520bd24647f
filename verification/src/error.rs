//! The error taxonomy of the pipeline. Every stage fails fast: the
//! first error is propagated to the caller unmodified, with no
//! recovery and no multi-error aggregation.

use vstd::prelude::*;

use crate::ast::Binop;
use crate::pos::Pos;
use crate::token::{Token, TokenType, TokenV};
use crate::types::Type;

verus! {

/// An error from one of the three stages.
///
/// Lexical: `IllegalCharacter`. Syntactic: `UnexpectedToken` (the
/// offending token together with the nonempty set of kinds that would
/// have been acceptable), `InvalidIntLiteral` and `InvalidFloatLiteral`
/// (plausible lexeme, invalid value). Semantic: `DuplicateVariable`,
/// `UndeclaredVariable`, `UnexpectedType` and `IllTypedBinop`.
#[derive(Debug, PartialEq)]
pub enum Error {
    IllegalCharacter(Pos, char),
    UnexpectedToken(Token, Vec<TokenType>),
    InvalidIntLiteral(Pos, String),
    InvalidFloatLiteral(Pos, String),
    UnexpectedType { pos: Pos, expected: Type, actual: Type },
    IllTypedBinop { pos: Pos, op: Binop, lhs: Type, rhs: Type },
    DuplicateVariable(Pos, String),
    UndeclaredVariable(Pos, String),
}

/// The mathematical value of an [`Error`].
pub ghost enum ErrorV {
    IllegalCharacter(Pos, char),
    UnexpectedToken(TokenV, Seq<TokenType>),
    InvalidIntLiteral(Pos, Seq<char>),
    InvalidFloatLiteral(Pos, Seq<char>),
    UnexpectedType { pos: Pos, expected: Type, actual: Type },
    IllTypedBinop { pos: Pos, op: Binop, lhs: Type, rhs: Type },
    DuplicateVariable(Pos, Seq<char>),
    UndeclaredVariable(Pos, Seq<char>),
}

impl View for Error {
    type V = ErrorV;

    open spec fn view(&self) -> ErrorV {
        match self {
            Error::IllegalCharacter(p, c) => ErrorV::IllegalCharacter(*p, *c),
            Error::UnexpectedToken(t, ks) => ErrorV::UnexpectedToken(t@, ks@),
            Error::InvalidIntLiteral(p, s) => ErrorV::InvalidIntLiteral(*p, s@),
            Error::InvalidFloatLiteral(p, s) => ErrorV::InvalidFloatLiteral(*p, s@),
            Error::UnexpectedType { pos, expected, actual } => ErrorV::UnexpectedType {
                pos: *pos,
                expected: *expected,
                actual: *actual,
            },
            Error::IllTypedBinop { pos, op, lhs, rhs } => ErrorV::IllTypedBinop {
                pos: *pos,
                op: *op,
                lhs: *lhs,
                rhs: *rhs,
            },
            Error::DuplicateVariable(p, s) => ErrorV::DuplicateVariable(*p, s@),
            Error::UndeclaredVariable(p, s) => ErrorV::UndeclaredVariable(*p, s@),
        }
    }
}

} // verus!
