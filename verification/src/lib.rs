//! A GLSL front end: translates shader source text into a validated,
//! strongly typed module, collecting multiple diagnostics per parse.
pub mod ast;
pub mod error;
pub mod lex;
pub mod parser;
pub mod resource;
pub mod token;
pub mod types;

pub use ast::{Constant, ConstantInner, Metadata, Module, Profile, ScalarValue};
pub use error::{Error, ErrorKind, ExpectedToken};
pub use parser::Parser;
pub use resource::{BufferMapAsyncStatus, BufferMapOperation};
pub use token::{SourceMetadata, TokenValue};

use vstd::prelude::*;

verus! {

/// The pipeline stage a shader is compiled for.
#[derive(Clone, Copy, Debug, PartialEq, Eq, Structural)]
pub enum ShaderStage {
    Vertex,
    Fragment,
    Compute,
}

/// Per-parse configuration: the target stage and the preprocessor defines.
#[derive(Clone, Debug)]
pub struct Options {
    pub stage: ShaderStage,
    pub defines: Vec<(String, String)>,
}

impl From<ShaderStage> for Options {
    fn from(stage: ShaderStage) -> (r: Options)
        ensures
            r.stage == stage,
            r.defines@.len() == 0,
    {
        Options { stage, defines: Vec::new() }
    }
}

impl vstd::std_specs::convert::FromSpecImpl<ShaderStage> for Options {
    open spec fn obeys_from_spec() -> bool {
        false
    }

    open spec fn from_spec(stage: ShaderStage) -> Options {
        arbitrary()
    }
}

} // verus!
