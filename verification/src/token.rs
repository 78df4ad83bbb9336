//! Lexical tokens as the parser sees them, after the token bridge has
//! adapted the outside preprocessor's stream.
use vstd::prelude::*;

verus! {

/// Byte range into the original source text; attached to every token and
/// every diagnostic.
#[derive(Clone, Copy, Debug, PartialEq, Eq, Structural)]
pub struct SourceMetadata {
    pub start: usize,
    pub end: usize,
}

/// One lexical token, bridged from the outside preprocessor.
/// Punctuation is carried as the preprocessor's own punctuation enum.
#[derive(Clone, Debug, PartialEq)]
pub enum TokenValue {
    Identifier(String),
    IntConstant(i64),
    UintConstant(u64),
    /// Bit pattern of the binary32 literal.
    FloatConstant(u32),
    BoolConstant(bool),
    Punct(pp_rs::token::Punct),
    TypeName(crate::types::Type),
    Struct,
    Const,
    In,
    Out,
    InOut,
    Uniform,
    Layout,
    Precision,
    If,
    Else,
    Switch,
    Case,
    Default,
    Break,
    Continue,
    While,
    Do,
    For,
    Return,
}

/// A token with its source range.
#[derive(Clone, Debug, PartialEq)]
pub struct LexToken {
    pub value: TokenValue,
    pub meta: SourceMetadata,
}

#[verifier::external_type_specification]
pub struct ExPunct(pp_rs::token::Punct);

/// Relies on the derived `Clone` of the preprocessor's `Punct`, a `Copy`
/// enum: the clone is the value itself.
pub assume_specification[ <pp_rs::token::Punct as Clone>::clone ](p: &pp_rs::token::Punct) -> (r:
    pp_rs::token::Punct)
    ensures
        r == *p,
;

#[verifier::external_type_specification]
#[verifier::external_body]
pub struct ExLocation(pp_rs::token::Location);

#[verifier::external_type_specification]
#[verifier::external_body]
pub struct ExPreprocessorError(pp_rs::token::PreprocessorError);

#[verifier::external_type_specification]
#[verifier::external_body]
pub struct ExPpToken(pp_rs::token::Token);

#[verifier::external_type_specification]
#[verifier::external_body]
pub struct ExPreprocessor<'a>(pp_rs::pp::Preprocessor<'a>);

} // verus!
