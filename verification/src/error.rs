//! Structured diagnostics. A parse returns a non-empty, source-ordered
//! sequence of these on failure.
use vstd::prelude::*;

verus! {

use vstd::string::StringExecFns;
use crate::token::{SourceMetadata, TokenValue};

/// What the parser would have accepted at the point of an unexpected
/// token.
#[derive(Debug, PartialEq)]
pub enum ExpectedToken {
    Token(TokenValue),
    TypeName,
    Identifier,
    IntLiteral,
    Eof,
}

/// The closed set of diagnostic kinds. Preprocessor errors are relayed
/// verbatim, carrying the outside preprocessor's own error value.
#[derive(Debug, PartialEq)]
pub enum ErrorKind {
    InvalidVersion(u64),
    InvalidProfile(String),
    PreprocessorError(pp_rs::token::PreprocessorError),
    InvalidToken(TokenValue, Vec<ExpectedToken>),
    SemanticError(String),
}

/// A diagnostic: its kind and the byte range it points at.
#[derive(Debug, PartialEq)]
pub struct Error {
    pub kind: ErrorKind,
    pub meta: SourceMetadata,
}

/// Message reported when no overload of a called name is applicable.
pub open spec fn unknown_function_msg(name: Seq<char>) -> Seq<char> {
    "Unknown function '"@ + name + "'"@
}

/// Message reported when two or more overloads tie at minimum cost.
pub open spec fn ambiguous_function_msg(name: Seq<char>) -> Seq<char> {
    "Ambiguous best function for '"@ + name + "'"@
}

/// Message reported when a definition repeats an existing definition's
/// parameter-type signature.
pub open spec fn already_defined_msg() -> Seq<char> {
    "Function already defined"@
}

pub fn unknown_function_error(name: &str, meta: SourceMetadata) -> (r: Error)
    ensures
        r.kind matches ErrorKind::SemanticError(m) && m@ == unknown_function_msg(name@),
        r.meta == meta,
{
    let mut s = String::from_str("Unknown function '");
    s.append(name);
    s.append("'");
    Error { kind: ErrorKind::SemanticError(s), meta }
}

pub fn ambiguous_function_error(name: &str, meta: SourceMetadata) -> (r: Error)
    ensures
        r.kind matches ErrorKind::SemanticError(m) && m@ == ambiguous_function_msg(name@),
        r.meta == meta,
{
    let mut s = String::from_str("Ambiguous best function for '");
    s.append(name);
    s.append("'");
    Error { kind: ErrorKind::SemanticError(s), meta }
}

pub fn already_defined_error(meta: SourceMetadata) -> (r: Error)
    ensures
        r.kind matches ErrorKind::SemanticError(m) && m@ == already_defined_msg(),
        r.meta == meta,
{
    Error { kind: ErrorKind::SemanticError(String::from_str("Function already defined")), meta }
}

/// A semantic diagnostic with an arbitrary message.
pub fn semantic_error(message: &str, meta: SourceMetadata) -> (r: Error)
    ensures
        r.kind matches ErrorKind::SemanticError(m) && m@ == message@,
        r.meta == meta,
{
    Error { kind: ErrorKind::SemanticError(String::from_str(message)), meta }
}

} // verus!
