//! The error taxonomy of the compilation pipeline.
//!
//! Every stage fails fast: the first error anywhere aborts the whole
//! compilation, and the caller receives exactly one structured error
//! describing the earliest failure.
use vstd::prelude::*;
use crate::tokens::Token;
use crate::tokens::TokenV;

verus! {

/// The construct a parse step was looking for when it failed.
#[derive(Debug, Clone, Copy, PartialEq, Eq)]
pub enum Expected {
    OpenParen,
    CloseParen,
    OpenBrace,
    CloseBrace,
    Semicolon,
    Colon,
    Identifier,
    FreshIdentifier,
    IntKeyword,
    PrimitiveKeyword,
    Expression,
    Statement,
}

/// One structured error describing the earliest failure of a run.
#[derive(Debug, Clone, PartialEq, Eq)]
pub enum CompileError {
    /// A character that starts no token, with its character position.
    Lexical { found: char, position: usize },
    /// An expected-versus-found mismatch, with the token position.
    Syntax { expected: Expected, found: Option<Token>, position: usize },
    /// The left operand of an assignment is not a plain identifier.
    InvalidAssignmentTarget { position: usize },
    /// A name is used that no reachable declaration introduces.
    UnresolvedSymbol { name: String },
    /// A recognized syntax-tree shape with no translation yet.
    UnsupportedConstruct,
}

/// Mathematical image of a `CompileError`.
pub enum ErrV {
    Lexical { found: char, position: usize },
    Syntax { expected: Expected, found: Option<TokenV>, position: usize },
    InvalidAssignmentTarget { position: usize },
    UnresolvedSymbol { name: Seq<char> },
    UnsupportedConstruct,
}

impl DeepView for CompileError {
    type V = ErrV;

    open spec fn deep_view(&self) -> ErrV {
        match self {
            CompileError::Lexical { found, position } => ErrV::Lexical {
                found: *found,
                position: *position,
            },
            CompileError::Syntax { expected, found, position } => ErrV::Syntax {
                expected: *expected,
                found: found.deep_view(),
                position: *position,
            },
            CompileError::InvalidAssignmentTarget { position } => ErrV::InvalidAssignmentTarget {
                position: *position,
            },
            CompileError::UnresolvedSymbol { name } => ErrV::UnresolvedSymbol { name: name@ },
            CompileError::UnsupportedConstruct => ErrV::UnsupportedConstruct,
        }
    }
}

} // verus!
