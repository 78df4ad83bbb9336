//! The token bridge: adapts the outside preprocessor's token stream into
//! the front end's lexical items, relaying preprocessor errors unchanged
//! with their byte ranges.
use vstd::prelude::*;

verus! {

use vstd::string::StringExecFns;
use crate::token::{LexToken, SourceMetadata, TokenValue};
use crate::types::{PlainType, ScalarKind, Type};

/// An intermediate item as handed back by the trusted bridge, before
/// keyword classification.
pub(crate) enum RawValue {
    Ident(String),
    Integer { value: u64, signed: bool },
    /// Bit pattern of the binary32 literal.
    Float { bits: u32 },
    Punct(pp_rs::token::Punct),
    /// A `#version` directive with its trailing tokens, still unconverted.
    Version { tokens: Vec<pp_rs::token::Token>, is_first: bool },
    Extension,
    Pragma,
}

pub(crate) struct RawToken {
    pub value: RawValue,
    pub start: u32,
    pub end: u32,
}

/// One item of the bridged stream, as the parser consumes it.
#[derive(Debug, PartialEq)]
pub enum LexItem {
    Token(LexToken),
    /// The version directive with its classified trailing tokens.
    VersionDirective { tokens: Vec<LexToken>, is_first: bool, meta: SourceMetadata },
    /// An error of the outside preprocessor, relayed verbatim.
    PreprocessorError(pp_rs::token::PreprocessorError, SourceMetadata),
}

/// Relies on `pp_rs::pp::Preprocessor::new`: builds a preprocessor over
/// the source text.
#[verifier::external_body]
fn pp_new<'a>(source: &'a str) -> pp_rs::pp::Preprocessor<'a> {
    pp_rs::pp::Preprocessor::new(source)
}

/// Relies on `pp_rs::pp::Preprocessor::add_define`: registers one macro
/// definition; a malformed definition comes back as the preprocessor's
/// own error with its byte range.
#[verifier::external_body]
fn pp_add_define(
    pp: &mut pp_rs::pp::Preprocessor,
    name: &str,
    content: &str,
) -> Option<(pp_rs::token::PreprocessorError, u32, u32)> {
    match pp.add_define(name, content) {
        Ok(()) => None,
        Err((e, l)) => Some((e, l.start, l.end)),
    }
}

/// Relies on the `Iterator` impl of `pp_rs::pp::Preprocessor`: yields the
/// next preprocessed token, or a preprocessor error with its byte range,
/// or nothing at the end of the input.
#[verifier::external_body]
fn pp_next(pp: &mut pp_rs::pp::Preprocessor) -> Option<
    Result<pp_rs::token::Token, (pp_rs::token::PreprocessorError, u32, u32)>,
> {
    match pp.next() {
        None => None,
        Some(Ok(t)) => Some(Ok(t)),
        Some(Err((e, l))) => Some(Err((e, l.start, l.end))),
    }
}

/// Relies on the public fields of `pp_rs::token::Token`: splits one token
/// into its value and byte range, keeping a float literal as its bit
/// pattern and a punctuation value as the preprocessor's own enum.
#[verifier::external_body]
fn convert_token(t: &pp_rs::token::Token) -> RawToken {
    let value = match t.value.clone() {
        pp_rs::token::TokenValue::Ident(s) => RawValue::Ident(s),
        pp_rs::token::TokenValue::Integer(i) => RawValue::Integer { value: i.value, signed: i.signed },
        pp_rs::token::TokenValue::Float(f) => RawValue::Float { bits: f.value.to_bits() },
        pp_rs::token::TokenValue::Punct(p) => RawValue::Punct(p),
        pp_rs::token::TokenValue::Version(v) => RawValue::Version { tokens: v.tokens, is_first: v.is_first_directive },
        pp_rs::token::TokenValue::Extension(_) => RawValue::Extension,
        pp_rs::token::TokenValue::Pragma(_) => RawValue::Pragma,
    };
    RawToken { value, start: t.location.start, end: t.location.end }
}

/// Relies on `str`'s `PartialEq`: slices compare equal exactly when their
/// character sequences are equal.
#[verifier::external_body]
pub(crate) fn str_eq(a: &str, b: &str) -> (r: bool)
    ensures
        r == (a@ == b@),
{
    a == b
}

/// Recognizes the name of a built-in type.
fn type_for_name(s: &str) -> Option<Type> {
    let k = if str_eq(s, "float") {
        Some(PlainType::Scalar(ScalarKind::Float))
    } else if str_eq(s, "int") {
        Some(PlainType::Scalar(ScalarKind::Sint))
    } else if str_eq(s, "uint") {
        Some(PlainType::Scalar(ScalarKind::Uint))
    } else if str_eq(s, "bool") {
        Some(PlainType::Scalar(ScalarKind::Bool))
    } else if str_eq(s, "void") {
        Some(PlainType::Void)
    } else if str_eq(s, "vec2") {
        Some(PlainType::Vector(ScalarKind::Float, 2))
    } else if str_eq(s, "vec3") {
        Some(PlainType::Vector(ScalarKind::Float, 3))
    } else if str_eq(s, "vec4") {
        Some(PlainType::Vector(ScalarKind::Float, 4))
    } else if str_eq(s, "ivec2") {
        Some(PlainType::Vector(ScalarKind::Sint, 2))
    } else if str_eq(s, "ivec3") {
        Some(PlainType::Vector(ScalarKind::Sint, 3))
    } else if str_eq(s, "ivec4") {
        Some(PlainType::Vector(ScalarKind::Sint, 4))
    } else if str_eq(s, "uvec2") {
        Some(PlainType::Vector(ScalarKind::Uint, 2))
    } else if str_eq(s, "uvec3") {
        Some(PlainType::Vector(ScalarKind::Uint, 3))
    } else if str_eq(s, "uvec4") {
        Some(PlainType::Vector(ScalarKind::Uint, 4))
    } else if str_eq(s, "bvec2") {
        Some(PlainType::Vector(ScalarKind::Bool, 2))
    } else if str_eq(s, "bvec3") {
        Some(PlainType::Vector(ScalarKind::Bool, 3))
    } else if str_eq(s, "bvec4") {
        Some(PlainType::Vector(ScalarKind::Bool, 4))
    } else if str_eq(s, "mat2") {
        Some(PlainType::Matrix(2, 2))
    } else if str_eq(s, "mat3") {
        Some(PlainType::Matrix(3, 3))
    } else if str_eq(s, "mat4") {
        Some(PlainType::Matrix(4, 4))
    } else if str_eq(s, "texture2D") {
        Some(PlainType::Image2D)
    } else if str_eq(s, "sampler") {
        Some(PlainType::Sampler)
    } else if str_eq(s, "sampler2D") {
        Some(PlainType::CombinedImageSampler)
    } else {
        None
    };
    match k {
        Some(p) => Some(Type::Plain(p)),
        None => None,
    }
}

/// Classifies an identifier into a keyword, a built-in type name, a bool
/// literal, or a plain identifier.
fn classify_ident(s: String) -> TokenValue {
    if str_eq(s.as_str(), "struct") {
        TokenValue::Struct
    } else if str_eq(s.as_str(), "const") {
        TokenValue::Const
    } else if str_eq(s.as_str(), "in") {
        TokenValue::In
    } else if str_eq(s.as_str(), "out") {
        TokenValue::Out
    } else if str_eq(s.as_str(), "inout") {
        TokenValue::InOut
    } else if str_eq(s.as_str(), "uniform") {
        TokenValue::Uniform
    } else if str_eq(s.as_str(), "layout") {
        TokenValue::Layout
    } else if str_eq(s.as_str(), "precision") {
        TokenValue::Precision
    } else if str_eq(s.as_str(), "if") {
        TokenValue::If
    } else if str_eq(s.as_str(), "else") {
        TokenValue::Else
    } else if str_eq(s.as_str(), "switch") {
        TokenValue::Switch
    } else if str_eq(s.as_str(), "case") {
        TokenValue::Case
    } else if str_eq(s.as_str(), "default") {
        TokenValue::Default
    } else if str_eq(s.as_str(), "break") {
        TokenValue::Break
    } else if str_eq(s.as_str(), "continue") {
        TokenValue::Continue
    } else if str_eq(s.as_str(), "while") {
        TokenValue::While
    } else if str_eq(s.as_str(), "do") {
        TokenValue::Do
    } else if str_eq(s.as_str(), "for") {
        TokenValue::For
    } else if str_eq(s.as_str(), "return") {
        TokenValue::Return
    } else if str_eq(s.as_str(), "true") {
        TokenValue::BoolConstant(true)
    } else if str_eq(s.as_str(), "false") {
        TokenValue::BoolConstant(false)
    } else {
        match type_for_name(s.as_str()) {
            Some(t) => TokenValue::TypeName(t),
            None => TokenValue::Identifier(s),
        }
    }
}

/// Classifies one bridged token.
fn classify_raw(raw: RawToken) -> Option<LexToken> {
    let meta = SourceMetadata { start: raw.start as usize, end: raw.end as usize };
    let value = match raw.value {
        RawValue::Ident(s) => classify_ident(s),
        RawValue::Integer { value, signed } => {
            if signed {
                TokenValue::IntConstant(#[verifier::truncate] (value as i64))
            } else {
                TokenValue::UintConstant(value)
            }
        },
        RawValue::Float { bits } => TokenValue::FloatConstant(bits),
        RawValue::Punct(p) => TokenValue::Punct(p),
        RawValue::Version { .. } => {
            return None;
        },
        RawValue::Extension => {
            return None;
        },
        RawValue::Pragma => {
            return None;
        },
    };
    Some(LexToken { value, meta })
}

/// Runs the outside preprocessor over the source and bridges its whole
/// output into lexical items, in source order. Extension and pragma
/// directives carry nothing the grammar consumes and are dropped.
/// The stream is inherited from the preprocessor, which this library
/// does not axiomatize, so the bridge carries no contract; the parsing
/// guarantees are stated over the bridged items at `Parser::parse_items`.
pub fn lex(source: &str, defines: &Vec<(String, String)>) -> Vec<LexItem> {
    let mut items: Vec<LexItem> = Vec::new();
    let mut pp = pp_new(source);
    let mut d: usize = 0;
    while d < defines.len()
        decreases defines.len() - d,
    {
        match pp_add_define(&mut pp, defines[d].0.as_str(), defines[d].1.as_str()) {
            None => {},
            Some((e, s, en)) => {
                let meta = SourceMetadata { start: s as usize, end: en as usize };
                items.push(LexItem::PreprocessorError(e, meta));
            },
        }
        d = d + 1;
    }
    let mut fuel: u64 = 0xffff_ffff_ffff_ffffu64;
    while fuel > 0
        decreases fuel,
    {
        fuel = fuel - 1;
        match pp_next(&mut pp) {
            None => {
                break ;
            },
            Some(Err((e, s, en))) => {
                let meta = SourceMetadata { start: s as usize, end: en as usize };
                items.push(LexItem::PreprocessorError(e, meta));
            },
            Some(Ok(t)) => {
                let raw = convert_token(&t);
                match raw.value {
                    RawValue::Version { tokens, is_first } => {
                        let meta = SourceMetadata {
                            start: raw.start as usize,
                            end: raw.end as usize,
                        };
                        let mut inner: Vec<LexToken> = Vec::new();
                        let mut i: usize = 0;
                        while i < tokens.len()
                            decreases tokens.len() - i,
                        {
                            let r = convert_token(&tokens[i]);
                            match classify_raw(r) {
                                Some(tok) => inner.push(tok),
                                None => {},
                            }
                            i = i + 1;
                        }
                        items.push(LexItem::VersionDirective { tokens: inner, is_first, meta });
                    },
                    other => {
                        match classify_raw(RawToken { value: other, start: raw.start, end: raw.end }) {
                            Some(tok) => items.push(LexItem::Token(tok)),
                            None => {},
                        }
                    },
                }
            },
        }
    }
    items
}

} // verus!
