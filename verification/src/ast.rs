//! The output artifact: constants, globals, structs and functions
//! assembled in declaration order, plus the resolved version metadata.
use vstd::prelude::*;

verus! {

use crate::token::SourceMetadata;
use crate::types::Type;

/// Language mode following the version number; only the core profile is
/// recognized.
#[derive(Clone, Copy, Debug, PartialEq, Eq, Structural)]
pub enum Profile {
    Core,
}

/// A scalar literal value. A floating value carries the bit pattern of
/// its binary32 literal, so that the module itself stays free of
/// floating-point arithmetic.
#[derive(Clone, Copy, Debug, PartialEq, Eq, Structural)]
pub enum ScalarValue {
    Sint(i64),
    Uint(u64),
    Float(u32),
    Bool(bool),
}

/// The payload of a constant: a scalar with its byte width, or a
/// composite of scalar components.
#[derive(Debug, PartialEq)]
pub enum ConstantInner {
    Scalar { width: u8, value: ScalarValue },
    Composite(Vec<ScalarValue>),
}

/// A compile-time constant created by folding a constant initializer.
#[derive(Debug, PartialEq)]
pub struct Constant {
    pub name: Option<String>,
    pub specialization: Option<u32>,
    pub inner: ConstantInner,
}

/// Parameter passing direction.
#[derive(Clone, Copy, Debug, PartialEq, Eq, Structural)]
pub enum ParameterQualifier {
    In,
    Out,
    InOut,
}

/// One function parameter.
#[derive(Debug, PartialEq)]
pub struct Parameter {
    pub ty: Type,
    pub qualifier: ParameterQualifier,
    pub name: Option<String>,
}

/// Binary operators of the expression grammar.
#[derive(Clone, Copy, Debug, PartialEq, Eq, Structural)]
pub enum BinaryOp {
    Add,
    Sub,
    Mul,
    Div,
    Less,
    Greater,
    LessEqual,
    GreaterEqual,
    Equal,
    NotEqual,
}

/// A typed expression node.
#[derive(Debug, PartialEq)]
pub struct Expression {
    pub kind: ExpressionKind,
    pub ty: Type,
    pub meta: SourceMetadata,
}

#[derive(Debug, PartialEq)]
pub enum ExpressionKind {
    Literal(ScalarValue),
    /// A variable or constant read, by name.
    Variable(String),
    Binary(BinaryOp, Box<Expression>, Box<Expression>),
    /// A resolved call: callee name, index of the chosen overload in the
    /// module's functions, arguments.
    Call(String, usize, Vec<Expression>),
    /// Construction of a value of a type from components.
    Construct(Type, Vec<Expression>),
    /// Component selection on a vector; indices within the source.
    Swizzle(Box<Expression>, Vec<u8>),
    /// Member access on a struct value.
    Member(Box<Expression>, String),
    Index(Box<Expression>, Box<Expression>),
}

/// One declarator of a local declaration statement.
#[derive(Debug, PartialEq)]
pub struct LocalDeclarator {
    pub name: String,
    pub init: Option<Expression>,
}

/// One `case` label of a `switch` with its body; fallthrough is C-style.
#[derive(Debug, PartialEq)]
pub struct SwitchCase {
    pub value: i64,
    pub body: Vec<Statement>,
}

/// A statement node.
#[derive(Debug, PartialEq)]
pub enum Statement {
    Block(Vec<Statement>),
    If { condition: Expression, accept: Vec<Statement>, reject: Vec<Statement> },
    Switch { selector: Expression, cases: Vec<SwitchCase>, default: Vec<Statement> },
    While { condition: Expression, body: Vec<Statement> },
    DoWhile { body: Vec<Statement>, condition: Expression },
    For {
        init: Option<Box<Statement>>,
        condition: Option<Expression>,
        step: Option<Expression>,
        body: Vec<Statement>,
    },
    Return(Option<Expression>),
    Break,
    Continue,
    /// A local declaration statement: the declared type and its
    /// declarators, each an optional initializer behind a name.
    Local { ty: Type, declarators: Vec<LocalDeclarator> },
    Expr(Expression),
    /// An assignment through a validated target.
    Store { target: Expression, value: Expression },
    Empty,
}

/// A function prototype or definition. Functions sharing a name form an
/// overload set; members of a set have pairwise-distinct parameter-type
/// signatures.
#[derive(Debug, PartialEq)]
pub struct Function {
    pub name: String,
    pub parameters: Vec<Parameter>,
    pub return_type: Type,
    pub body: Option<Vec<Statement>>,
    pub meta: SourceMetadata,
}

/// One struct member.
#[derive(Debug, PartialEq)]
pub struct StructMember {
    pub ty: Type,
    pub name: String,
}

/// A declared struct type; it always has at least one member.
#[derive(Debug, PartialEq)]
pub struct StructType {
    pub name: String,
    pub members: Vec<StructMember>,
}

/// Storage class of a global declaration.
#[derive(Clone, Copy, Debug, PartialEq, Eq, Structural)]
pub enum StorageQualifier {
    Input,
    Output,
    Uniform,
    Const,
    Private,
}

/// Layout qualifiers attached to a declaration.
#[derive(Clone, Copy, Debug, PartialEq, Eq, Structural)]
pub struct LayoutQualifiers {
    pub location: Option<u64>,
    pub set: Option<u64>,
    pub binding: Option<u64>,
    /// 140 or 430 when an `std140`/`std430` qualifier appears.
    pub std_layout: Option<u64>,
    pub push_constant: bool,
    pub early_fragment_tests: bool,
}

/// A global variable declaration.
#[derive(Debug, PartialEq)]
pub struct GlobalVariable {
    pub name: Option<String>,
    pub ty: Type,
    pub storage: StorageQualifier,
    pub layout: LayoutQualifiers,
    pub init: Option<Expression>,
}

/// The resolved directive metadata of the most recent parse.
#[derive(Clone, Copy, Debug, PartialEq, Eq, Structural)]
pub struct Metadata {
    pub version: u64,
    pub profile: Profile,
}

/// The output module: ordered-by-declaration collections of constants,
/// globals, structs and functions, plus the resolved version metadata.
#[derive(Debug, PartialEq)]
pub struct Module {
    pub version: u64,
    pub profile: Profile,
    pub constants: Vec<Constant>,
    pub globals: Vec<GlobalVariable>,
    pub structs: Vec<StructType>,
    pub functions: Vec<Function>,
}

} // verus!
