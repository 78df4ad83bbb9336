//! The recursive-descent parser: directive handling, declarations,
//! statements and expressions, scope and symbol resolution, overload
//! resolution, and diagnostic accumulation.
use vstd::prelude::*;

verus! {

use vstd::string::StringExecFns;
use crate::ast::{
    BinaryOp,
    Constant,
    ConstantInner,
    Expression,
    ExpressionKind,
    Function,
    GlobalVariable,
    LayoutQualifiers,
    Metadata,
    Module,
    Parameter,
    ParameterQualifier,
    Profile,
    ScalarValue,
    Statement,
    StorageQualifier,
    StructMember,
    StructType,
    SwitchCase,
};
use crate::error::{
    ErrorKind,
    Error,
    ExpectedToken,
    already_defined_error,
    ambiguous_function_error,
    semantic_error,
    unknown_function_error,
};
use crate::lex::{LexItem, lex, str_eq};
use crate::token::{LexToken, SourceMetadata, TokenValue};
use crate::types::{PlainType, ScalarKind, Type, check_swizzle, conv_cost, spec_conv_cost};

/// Relies on the derived `PartialEq` of the preprocessor's `Punct`, a
/// fieldless enum: two values compare equal exactly when they are the
/// same variant.
pub assume_specification[ <pp_rs::token::Punct as PartialEq>::eq ](
    a: &pp_rs::token::Punct,
    b: &pp_rs::token::Punct,
) -> (r: bool)
    ensures
        r == (a == b),
;

/// The set of version numbers the front end accepts.
pub open spec fn supported_version(v: u64) -> bool {
    v == 440 || v == 450 || v == 460
}

/// The profile names valid for a declared version: the core profile is
/// the only profile of the supported versions, and no profile is valid
/// for an unsupported version.
pub open spec fn valid_profile(v: u64, name: Seq<char>) -> bool {
    supported_version(v) && name == "core"@
}

/// Diagnostics only accumulate: everything reported before stands
/// unchanged, in place, in every later state.
pub open spec fn errors_grow(pre: Seq<Error>, post: Seq<Error>) -> bool {
    &&& pre.len() <= post.len()
    &&& forall|i: int| 0 <= i < pre.len() ==> post[i] == pre[i]
}

/// The metadata a version directive resolves to: the declared version
/// when the directive is first and the number is supported, the default
/// of 450 otherwise. The profile is always the core profile.
pub open spec fn spec_version_meta(tokens: Seq<LexToken>, is_first: bool) -> Metadata {
    if is_first && tokens.len() > 0 && (tokens[0].value matches TokenValue::IntConstant(v) && v
        >= 0 && supported_version(v as u64)) {
        Metadata { version: tokens[0].value->IntConstant_0 as u64, profile: Profile::Core }
    } else {
        Metadata { version: 450u64, profile: Profile::Core }
    }
}

/// Executable version check.
fn is_supported_version(v: u64) -> (r: bool)
    ensures
        r == supported_version(v),
{
    v == 440 || v == 450 || v == 460
}

/// Validates the tokens of the version directive and reports its
/// diagnostics: an unsupported number yields exactly `InvalidVersion`
/// over the number's span, a wrong profile name exactly `InvalidProfile`
/// over the profile token's span, a malformed or misplaced directive
/// exactly one diagnostic naming what stood there, and a well-formed
/// directive yields nothing. Returns the resolved metadata.
pub fn parse_version(
    tokens: &Vec<LexToken>,
    is_first: bool,
    dir_meta: SourceMetadata,
    errors: &mut Vec<Error>,
) -> (r: Metadata)
    ensures
        r == spec_version_meta(tokens@, is_first),
        errors_grow(old(errors)@, final(errors)@),
        // an unsupported version number is rejected with exactly one
        // InvalidVersion diagnostic spanning the numeric token
        (is_first && tokens@.len() > 0 && (tokens@[0].value matches TokenValue::IntConstant(v)
            && v >= 0 && !supported_version(v as u64))) ==> {
            &&& final(errors)@.len() == old(errors)@.len() + 1
            &&& final(errors)@.last().kind == ErrorKind::InvalidVersion(
                tokens@[0].value->IntConstant_0 as u64,
            )
            &&& final(errors)@.last().meta == tokens@[0].meta
        },
        // a supported version with a profile name not valid for it is
        // rejected with exactly one InvalidProfile diagnostic spanning
        // the profile token
        (is_first && tokens@.len() > 1 && (tokens@[0].value matches TokenValue::IntConstant(v)
            && v >= 0 && supported_version(v as u64)) && (tokens@[1].value matches TokenValue::Identifier(
        name) && !valid_profile(tokens@[0].value->IntConstant_0 as u64, name@))) ==> {
            &&& final(errors)@.len() == old(errors)@.len() + 1
            &&& final(errors)@.last().kind matches ErrorKind::InvalidProfile(n) && n@
                == tokens@[1].value->Identifier_0@
            &&& final(errors)@.last().meta == tokens@[1].meta
        },
        // a supported version whose profile, if present, is valid is
        // accepted without any diagnostic
        (is_first && tokens@.len() > 0 && (tokens@[0].value matches TokenValue::IntConstant(v)
            && v >= 0 && supported_version(v as u64)) && (tokens@.len() == 1 || (
        tokens@[1].value matches TokenValue::Identifier(name) && valid_profile(
            tokens@[0].value->IntConstant_0 as u64,
            name@,
        ))))
            ==> final(errors)@ == old(errors)@,
        // a directive that is not the first is rejected with exactly one
        // semantic diagnostic over the directive itself
        !is_first ==> {
            &&& final(errors)@.len() == old(errors)@.len() + 1
            &&& final(errors)@.last().kind is SemanticError
            &&& final(errors)@.last().meta == dir_meta
        },
        // a directive with no version number at all is likewise rejected
        // over the directive itself
        (is_first && tokens@.len() == 0) ==> {
            &&& final(errors)@.len() == old(errors)@.len() + 1
            &&& final(errors)@.last().kind is SemanticError
            &&& final(errors)@.last().meta == dir_meta
        },
        // a leading token that is not a version number is rejected with
        // exactly one InvalidToken naming it and expecting a number
        (is_first && tokens@.len() > 0 && !(tokens@[0].value matches TokenValue::IntConstant(v)
            && v >= 0)) ==> {
            &&& final(errors)@.len() == old(errors)@.len() + 1
            &&& final(errors)@.last().kind matches ErrorKind::InvalidToken(f, ex) && f
                == tokens@[0].value && ex@ == seq![ExpectedToken::IntLiteral]
            &&& final(errors)@.last().meta == tokens@[0].meta
        },
        // after a supported version, a profile position held by anything
        // but an identifier is rejected with exactly one InvalidToken
        (is_first && tokens@.len() > 1 && (tokens@[0].value matches TokenValue::IntConstant(v)
            && v >= 0 && supported_version(v as u64)) && !(
        tokens@[1].value matches TokenValue::Identifier(nm))) ==> {
            &&& final(errors)@.len() == old(errors)@.len() + 1
            &&& final(errors)@.last().kind matches ErrorKind::InvalidToken(f, ex) && f
                == tokens@[1].value && ex@ == seq![ExpectedToken::Identifier]
            &&& final(errors)@.last().meta == tokens@[1].meta
        },
{
    if !is_first {
        errors.push(
            semantic_error("#version must occur first in shader", dir_meta),
        );
        return Metadata { version: 450, profile: Profile::Core };
    }
    if tokens.len() == 0 {
        errors.push(semantic_error("Missing version number in directive", dir_meta));
        return Metadata { version: 450, profile: Profile::Core };
    }
    let version: u64 = match &tokens[0].value {
        TokenValue::IntConstant(v) if *v >= 0 => *v as u64,
        _ => {
            errors.push(
                Error {
                    kind: ErrorKind::InvalidToken(
                        clone_token_value(&tokens[0].value),
                        vec![ExpectedToken::IntLiteral],
                    ),
                    meta: tokens[0].meta,
                },
            );
            return Metadata { version: 450, profile: Profile::Core };
        },
    };
    if !is_supported_version(version) {
        errors.push(Error { kind: ErrorKind::InvalidVersion(version), meta: tokens[0].meta });
        return Metadata { version: 450, profile: Profile::Core };
    }
    if tokens.len() > 1 {
        match &tokens[1].value {
            TokenValue::Identifier(name) => {
                if !str_eq(name.as_str(), "core") {
                    let owned = name.clone();
                    errors.push(
                        Error { kind: ErrorKind::InvalidProfile(owned), meta: tokens[1].meta },
                    );
                    return Metadata { version, profile: Profile::Core };
                }
            },
            _ => {
                errors.push(
                    Error {
                        kind: ErrorKind::InvalidToken(
                            clone_token_value(&tokens[1].value),
                            vec![ExpectedToken::Identifier],
                        ),
                        meta: tokens[1].meta,
                    },
                );
                return Metadata { version, profile: Profile::Core };
            },
        }
    }
    Metadata { version, profile: Profile::Core }
}

/// Rebuilds a token value; the copy equals the original.
pub fn clone_token_value(v: &TokenValue) -> (r: TokenValue)
    ensures
        r == *v,
{
    match v {
        TokenValue::Identifier(s) => TokenValue::Identifier(s.clone()),
        TokenValue::IntConstant(x) => TokenValue::IntConstant(*x),
        TokenValue::UintConstant(x) => TokenValue::UintConstant(*x),
        TokenValue::FloatConstant(x) => TokenValue::FloatConstant(*x),
        TokenValue::BoolConstant(x) => TokenValue::BoolConstant(*x),
        TokenValue::Punct(p) => TokenValue::Punct(p.clone()),
        TokenValue::TypeName(t) => TokenValue::TypeName(*t),
        TokenValue::Struct => TokenValue::Struct,
        TokenValue::Const => TokenValue::Const,
        TokenValue::In => TokenValue::In,
        TokenValue::Out => TokenValue::Out,
        TokenValue::InOut => TokenValue::InOut,
        TokenValue::Uniform => TokenValue::Uniform,
        TokenValue::Layout => TokenValue::Layout,
        TokenValue::Precision => TokenValue::Precision,
        TokenValue::If => TokenValue::If,
        TokenValue::Else => TokenValue::Else,
        TokenValue::Switch => TokenValue::Switch,
        TokenValue::Case => TokenValue::Case,
        TokenValue::Default => TokenValue::Default,
        TokenValue::Break => TokenValue::Break,
        TokenValue::Continue => TokenValue::Continue,
        TokenValue::While => TokenValue::While,
        TokenValue::Do => TokenValue::Do,
        TokenValue::For => TokenValue::For,
        TokenValue::Return => TokenValue::Return,
    }
}

/// Sum of the conversion costs of the first `n` argument/parameter
/// pairs; nothing if any pair has no conversion.
pub open spec fn sum_costs(params: Seq<Type>, args: Seq<Type>, n: int) -> Option<nat>
    decreases n,
{
    if n <= 0 {
        Some(0nat)
    } else {
        match (sum_costs(params, args, n - 1), spec_conv_cost(args[n - 1], params[n - 1])) {
            (Some(s), Some(c)) => Some((s + c) as nat),
            _ => None,
        }
    }
}

/// Total cost of calling a candidate with the argument types: the sum of
/// per-parameter conversion ranks, or nothing when the arity differs or
/// some parameter has no conversion path.
pub open spec fn spec_call_cost(params: Seq<Type>, args: Seq<Type>) -> Option<nat> {
    if params.len() == args.len() {
        sum_costs(params, args, args.len() as int)
    } else {
        None
    }
}

/// A candidate is applicable when every argument converts to its
/// parameter.
pub open spec fn applicable(params: Seq<Type>, args: Seq<Type>) -> bool {
    spec_call_cost(params, args) is Some
}

/// Outcome of overload resolution over a candidate list.
#[derive(Clone, Copy, Debug, PartialEq, Eq, Structural)]
pub enum Resolution {
    /// Index of the single candidate of strictly lowest total cost.
    Found(usize),
    /// No candidate was applicable.
    Unknown,
    /// Two or more applicable candidates tie at the minimum cost.
    Ambiguous,
}

/// What overload resolution promises: a found candidate is applicable
/// and strictly cheaper than every other applicable one; unknown means
/// no candidate applies; ambiguous means the minimum is shared.
pub open spec fn resolve_post(cands: Seq<Vec<Type>>, args: Seq<Type>, r: Resolution) -> bool {
    match r {
        Resolution::Found(i) => {
            &&& 0 <= i < cands.len()
            &&& applicable(cands[i as int]@, args)
            &&& forall|j: int|
                0 <= j < cands.len() && j != i && applicable(#[trigger] cands[j]@, args)
                    ==> spec_call_cost(cands[j]@, args)->Some_0 > spec_call_cost(
                    cands[i as int]@,
                    args,
                )->Some_0
        },
        Resolution::Unknown => forall|j: int|
            0 <= j < cands.len() ==> !applicable(#[trigger] cands[j]@, args),
        Resolution::Ambiguous => exists|i: int, j: int|
            {
                &&& 0 <= i < j < cands.len()
                &&& applicable(#[trigger] cands[i]@, args)
                &&& applicable(#[trigger] cands[j]@, args)
                &&& spec_call_cost(cands[i]@, args) == spec_call_cost(cands[j]@, args)
                &&& forall|k: int|
                    0 <= k < cands.len() && applicable(#[trigger] cands[k]@, args)
                        ==> spec_call_cost(cands[k]@, args)->Some_0 >= spec_call_cost(
                        cands[i]@,
                        args,
                    )->Some_0
            },
    }
}

/// Cost of one candidate against the argument types; agrees exactly with
/// `spec_call_cost`.
#[verifier::loop_isolation(false)]
fn call_cost(params: &Vec<Type>, args: &Vec<Type>) -> (r: Option<u64>)
    ensures
        match r {
            Some(c) => spec_call_cost(params@, args@) == Some(c as nat),
            None => spec_call_cost(params@, args@) is None,
        },
{
    if params.len() != args.len() {
        return None;
    }
    let n = args.len();
    let mut sum: u64 = 0;
    let mut i: usize = 0;
    while i < n
        invariant
            i <= n,
            sum <= i,
            sum_costs(params@, args@, i as int) == Some(sum as nat),
        decreases n - i,
    {
        match conv_cost(args[i], params[i]) {
            Some(c) => {
                proof {
                    assert(spec_conv_cost(args@[i as int], params@[i as int]) matches Some(cc)
                        && cc <= 1);
                }
                sum = sum + (c as u64);
            },
            None => {
                proof {
                    lemma_sum_costs_none(params@, args@, i as int, n as int);
                }
                return None;
            },
        }
        i = i + 1;
    }
    Some(sum)
}

/// A failing pair keeps every longer prefix sum failing.
proof fn lemma_sum_costs_none(params: Seq<Type>, args: Seq<Type>, i: int, n: int)
    requires
        0 <= i < n,
        spec_conv_cost(args[i], params[i]) is None,
    ensures
        sum_costs(params, args, n) is None,
    decreases n,
{
    if n - 1 > i {
        lemma_sum_costs_none(params, args, i, n - 1);
    }
}

/// Resolves a call against the candidate parameter lists: the single
/// cheapest applicable candidate wins; no applicable candidate or a
/// shared minimum fail, each in its own way.
#[verifier::loop_isolation(false)]
pub fn resolve_overload(cands: &Vec<Vec<Type>>, args: &Vec<Type>) -> (r: Resolution)
    ensures
        resolve_post(cands@, args@, r),
{
    let mut best: usize = 0;
    let mut best_cost: u64 = 0;
    let mut have: bool = false;
    let mut tie: Option<usize> = None;
    let n = cands.len();
    let mut j: usize = 0;
    while j < n
        invariant
            j <= n,
            have ==> {
                &&& best < j
                &&& spec_call_cost(cands@[best as int]@, args@) == Some(best_cost as nat)
                &&& forall|k: int|
                    0 <= k < j && applicable(#[trigger] cands@[k]@, args@) ==> spec_call_cost(
                        cands@[k]@,
                        args@,
                    )->Some_0 >= best_cost as nat
            },
            !have ==> forall|k: int| 0 <= k < j ==> !applicable(#[trigger] cands@[k]@, args@),
            !have ==> tie is None,
            tie matches Some(t) ==> {
                &&& have
                &&& best < t < j
                &&& spec_call_cost(cands@[t as int]@, args@) == Some(best_cost as nat)
            },
            tie is None && have ==> forall|k: int|
                0 <= k < j && k != best && applicable(#[trigger] cands@[k]@, args@)
                    ==> spec_call_cost(cands@[k]@, args@)->Some_0 > best_cost as nat,
        decreases n - j,
    {
        match call_cost(&cands[j], args) {
            Some(c) => {
                if !have {
                    have = true;
                    best = j;
                    best_cost = c;
                    tie = None;
                } else if c < best_cost {
                    best = j;
                    best_cost = c;
                    tie = None;
                } else if c == best_cost {
                    tie = Some(j);
                }
            },
            None => {},
        }
        j = j + 1;
    }
    if !have {
        Resolution::Unknown
    } else {
        match tie {
            Some(t) => {
                proof {
                    assert(resolve_post(cands@, args@, Resolution::Ambiguous)) by {
                        assert(0 <= best < t < cands@.len() && applicable(cands@[best as int]@, args@)
                            && applicable(cands@[t as int]@, args@) && spec_call_cost(
                            cands@[best as int]@,
                            args@,
                        ) == spec_call_cost(cands@[t as int]@, args@) && forall|k: int|
                            0 <= k < cands@.len() && applicable(#[trigger] cands@[k]@, args@)
                                ==> spec_call_cost(cands@[k]@, args@)->Some_0 >= spec_call_cost(
                                cands@[best as int]@,
                                args@,
                            )->Some_0);
                    }
                }
                Resolution::Ambiguous
            },
            None => Resolution::Found(best),
        }
    }
}

/// Law: when no candidate is applicable, resolution reports the unknown
/// function outcome and nothing else.
pub proof fn lemma_no_applicable_is_unknown(cands: Seq<Vec<Type>>, args: Seq<Type>, r: Resolution)
    requires
        resolve_post(cands, args, r),
        forall|j: int| 0 <= j < cands.len() ==> !applicable(#[trigger] cands[j]@, args),
    ensures
        r is Unknown,
{
    match r {
        Resolution::Found(i) => {
            assert(applicable(cands[i as int]@, args));
        },
        Resolution::Unknown => {},
        Resolution::Ambiguous => {
            let (i, j) = choose|i: int, j: int|
                0 <= i < j < cands.len() && applicable(cands[i]@, args) && applicable(
                    cands[j]@,
                    args,
                ) && spec_call_cost(cands[i]@, args) == spec_call_cost(cands[j]@, args);
        },
    }
}

/// Law: when exactly two applicable candidates share the minimum cost,
/// resolution reports the ambiguity and no winner.
pub proof fn lemma_tied_minimum_is_ambiguous(
    cands: Seq<Vec<Type>>,
    args: Seq<Type>,
    r: Resolution,
    i: int,
    j: int,
)
    requires
        resolve_post(cands, args, r),
        0 <= i < j < cands.len(),
        applicable(cands[i]@, args),
        applicable(cands[j]@, args),
        spec_call_cost(cands[i]@, args) == spec_call_cost(cands[j]@, args),
        forall|k: int|
            0 <= k < cands.len() && applicable(#[trigger] cands[k]@, args) ==> spec_call_cost(
                cands[k]@,
                args,
            )->Some_0 >= spec_call_cost(cands[i]@, args)->Some_0,
    ensures
        r is Ambiguous,
{
    match r {
        Resolution::Found(w) => {
            if w as int != i {
                assert(spec_call_cost(cands[i]@, args)->Some_0 > spec_call_cost(
                    cands[w as int]@,
                    args,
                )->Some_0);
            } else {
                assert(spec_call_cost(cands[j]@, args)->Some_0 > spec_call_cost(
                    cands[i]@,
                    args,
                )->Some_0);
            }
        },
        Resolution::Unknown => {
            assert(!applicable(cands[i]@, args));
        },
        Resolution::Ambiguous => {},
    }
}

/// Deep equality of constant payloads.
pub open spec fn inner_eq(a: ConstantInner, b: ConstantInner) -> bool {
    match (a, b) {
        (
            ConstantInner::Scalar { width: w1, value: v1 },
            ConstantInner::Scalar { width: w2, value: v2 },
        ) => w1 == w2 && v1 == v2,
        (ConstantInner::Composite(x), ConstantInner::Composite(y)) => x@ == y@,
        _ => false,
    }
}

/// Deep equality of constants: equal names, specializations and
/// payloads.
pub open spec fn constant_eq_spec(a: Constant, b: Constant) -> bool {
    &&& match (a.name, b.name) {
        (Option::None, Option::None) => true,
        (Option::Some(x), Option::Some(y)) => x@ == y@,
        _ => false,
    }
    &&& a.specialization == b.specialization
    &&& inner_eq(a.inner, b.inner)
}

/// Executable deep equality of constants.
#[verifier::loop_isolation(false)]
fn constant_eq(a: &Constant, b: &Constant) -> (r: bool)
    ensures
        r == constant_eq_spec(*a, *b),
{
    let names_eq = match (&a.name, &b.name) {
        (Option::None, Option::None) => true,
        (Option::Some(x), Option::Some(y)) => str_eq(x.as_str(), y.as_str()),
        _ => false,
    };
    if !names_eq {
        return false;
    }
    let spec_eq = match (&a.specialization, &b.specialization) {
        (Option::None, Option::None) => true,
        (Option::Some(x), Option::Some(y)) => *x == *y,
        _ => false,
    };
    if !spec_eq {
        return false;
    }
    match (&a.inner, &b.inner) {
        (
            ConstantInner::Scalar { width: w1, value: v1 },
            ConstantInner::Scalar { width: w2, value: v2 },
        ) => *w1 == *w2 && *v1 == *v2,
        (ConstantInner::Composite(x), ConstantInner::Composite(y)) => {
            if x.len() != y.len() {
                return false;
            }
            let mut i: usize = 0;
            while i < x.len()
                invariant
                    i <= x@.len(),
                    forall|k: int| 0 <= k < i ==> x@[k] == y@[k],
                decreases x@.len() - i,
            {
                if x[i] != y[i] {
                    return false;
                }
                i = i + 1;
            }
            proof {
                assert(x@ =~= y@);
            }
            true
        },
        _ => false,
    }
}

/// The module's constants hold no duplicates under deep equality.
pub open spec fn constants_unique(constants: Seq<Constant>) -> bool {
    forall|i: int, j: int|
        #![trigger constants[i], constants[j]]
        0 <= i < j < constants.len() ==> !constant_eq_spec(constants[i], constants[j])
}

/// Returns the index of a constant deep-equal to the given one,
/// appending it only when no such entry exists; folding equal
/// initializers therefore reuses one entry, and the list stays free of
/// duplicates.
#[verifier::loop_isolation(false)]
pub fn fetch_or_append_constant(constants: &mut Vec<Constant>, c: Constant) -> (idx: usize)
    requires
        constants_unique(old(constants)@),
    ensures
        constants_unique(final(constants)@),
        idx < final(constants)@.len(),
        constant_eq_spec(final(constants)@[idx as int], c),
        old(constants)@.is_prefix_of(final(constants)@),
        (forall|j: int|
            0 <= j < old(constants)@.len() ==> !constant_eq_spec(
                #[trigger] old(constants)@[j],
                c,
            )) ==> final(constants)@ == old(constants)@.push(c),
        (exists|j: int|
            0 <= j < old(constants)@.len() && constant_eq_spec(#[trigger] old(constants)@[j], c))
            ==> final(constants)@ == old(constants)@,
{
    let n = constants.len();
    let mut i: usize = 0;
    while i < n
        invariant
            i <= n,
            forall|k: int| 0 <= k < i ==> !constant_eq_spec(#[trigger] constants@[k], c),
        decreases n - i,
    {
        if constant_eq(&constants[i], &c) {
            return i;
        }
        i = i + 1;
    }
    constants.push(c);
    constants.len() - 1
}

/// A symbol visible in some scope frame.
#[derive(Clone, Copy, Debug)]
pub enum SymDecl {
    Variable(Type),
    /// A declared struct type name.
    TypeDecl(Type),
    /// A folded compile-time constant with its value and type.
    ConstVal(ScalarValue, Type),
}

/// One member of an overload set.
#[derive(Debug)]
pub struct OverloadEntry {
    pub params: Vec<Type>,
    pub ret: Type,
    pub defined: bool,
    /// Built-in functions live outside the module.
    pub builtin: bool,
    /// Index into the module's functions; meaningless for a built-in.
    pub fn_index: usize,
}

/// All functions sharing one name.
#[derive(Debug)]
pub struct OverloadSet {
    pub name: String,
    pub entries: Vec<OverloadEntry>,
}

/// Some overload set already holds a defined entry with these parameter
/// types.
pub open spec fn has_defined_match(entries: Seq<OverloadEntry>, ptypes: Seq<Type>) -> bool {
    exists|i: int|
        0 <= i < entries.len() && (#[trigger] entries[i]).params@ == ptypes && entries[i].defined
}

/// Every declared struct type has at least one member.
pub open spec fn structs_have_members(structs: Seq<StructType>) -> bool {
    forall|k: int| 0 <= k < structs.len() ==> (#[trigger] structs[k]).members@.len() >= 1
}

/// Within one overload set the parameter-type signatures are pairwise
/// distinct.
pub open spec fn set_wf(s: OverloadSet) -> bool {
    forall|i: int, j: int|
        #![trigger s.entries@[i], s.entries@[j]]
        0 <= i < j < s.entries@.len() ==> s.entries@[i].params@ != s.entries@[j].params@
}

/// What a name resolves to within one scope frame: the latest
/// declaration of that name, or nothing.
pub open spec fn spec_lookup_frame(frame: Seq<(String, SymDecl)>, name: Seq<char>) -> Option<
    SymDecl,
>
    decreases frame.len(),
{
    if frame.len() == 0 {
        None
    } else if frame.last().0@ == name {
        Some(frame.last().1)
    } else {
        spec_lookup_frame(frame.drop_last(), name)
    }
}

/// What a name resolves to through the scope stack: the innermost frame
/// holding it wins, and within a frame the latest declaration shadows.
pub open spec fn spec_lookup(scopes: Seq<Vec<(String, SymDecl)>>, name: Seq<char>) -> Option<
    SymDecl,
>
    decreases scopes.len(),
{
    if scopes.len() == 0 {
        None
    } else {
        match spec_lookup_frame(scopes.last()@, name) {
            Some(d) => Some(d),
            None => spec_lookup(scopes.drop_last(), name),
        }
    }
}

/// The overload set a call site consults: the entries of the first set
/// carrying the name.
pub open spec fn spec_overloads_of(sets: Seq<OverloadSet>, name: Seq<char>) -> Option<
    Seq<OverloadEntry>,
>
    decreases sets.len(),
{
    if sets.len() == 0 {
        None
    } else if sets[0].name@ == name {
        Some(sets[0].entries@)
    } else {
        spec_overloads_of(sets.skip(1), name)
    }
}

/// The candidate parameter lists of an overload set's entries.
pub open spec fn spec_candidates(entries: Seq<OverloadEntry>) -> Seq<Vec<Type>> {
    entries.map_values(|e: OverloadEntry| e.params)
}

/// The argument types of a call site.
pub open spec fn spec_arg_types(args: Seq<Expression>) -> Seq<Type> {
    args.map_values(|a: Expression| a.ty)
}

/// Resolution reads candidates only through their views, so lists whose
/// elements agree elementwise resolve alike.
pub proof fn lemma_resolve_post_view(
    c1: Seq<Vec<Type>>,
    c2: Seq<Vec<Type>>,
    args: Seq<Type>,
    r: Resolution,
)
    requires
        c1.len() == c2.len(),
        forall|i: int| 0 <= i < c1.len() ==> (#[trigger] c1[i])@ == c2[i]@,
        resolve_post(c1, args, r),
    ensures
        resolve_post(c2, args, r),
{
    match r {
        Resolution::Found(i) => {
            assert(c1[i as int]@ == c2[i as int]@);
            assert forall|j: int|
                0 <= j < c2.len() && j != i && applicable(#[trigger] c2[j]@, args) implies (
            spec_call_cost(c2[j]@, args)->Some_0 > spec_call_cost(c2[i as int]@, args)->Some_0) by {
                assert(c1[j]@ == c2[j]@);
            }
        },
        Resolution::Unknown => {
            assert forall|j: int| 0 <= j < c2.len() implies !applicable(#[trigger] c2[j]@, args) by {
                assert(c1[j]@ == c2[j]@);
            }
        },
        Resolution::Ambiguous => {
            let (i, j) = choose|i: int, j: int|
                {
                    &&& 0 <= i < j < c1.len()
                    &&& applicable(#[trigger] c1[i]@, args)
                    &&& applicable(#[trigger] c1[j]@, args)
                    &&& spec_call_cost(c1[i]@, args) == spec_call_cost(c1[j]@, args)
                    &&& forall|k: int|
                        0 <= k < c1.len() && applicable(#[trigger] c1[k]@, args) ==> spec_call_cost(
                            c1[k]@,
                            args,
                        )->Some_0 >= spec_call_cost(c1[i]@, args)->Some_0
                };
            assert(c1[i]@ == c2[i]@);
            assert(c1[j]@ == c2[j]@);
            assert forall|k: int|
                0 <= k < c2.len() && applicable(#[trigger] c2[k]@, args) implies spec_call_cost(
                c2[k]@,
                args,
            )->Some_0 >= spec_call_cost(c2[i]@, args)->Some_0 by {
                assert(c1[k]@ == c2[k]@);
            }
            assert({
                &&& 0 <= i < j < c2.len()
                &&& applicable(c2[i]@, args)
                &&& applicable(c2[j]@, args)
                &&& spec_call_cost(c2[i]@, args) == spec_call_cost(c2[j]@, args)
                &&& forall|k: int|
                    0 <= k < c2.len() && applicable(#[trigger] c2[k]@, args) ==> spec_call_cost(
                        c2[k]@,
                        args,
                    )->Some_0 >= spec_call_cost(c2[i]@, args)->Some_0
            });
        },
    }
}

/// Law: a resolved winner rules out the no-applicable-candidate reading
/// of the same candidates and arguments.
pub proof fn lemma_found_not_unknown(c: Seq<Vec<Type>>, a: Seq<Type>, w: usize)
    requires
        resolve_post(c, a, Resolution::Found(w)),
    ensures
        !resolve_post(c, a, Resolution::Unknown),
{
    assert(applicable(c[w as int]@, a));
}

/// Law: a resolved winner rules out a shared minimum among the same
/// candidates and arguments.
pub proof fn lemma_found_not_ambiguous(c: Seq<Vec<Type>>, a: Seq<Type>, w: usize)
    requires
        resolve_post(c, a, Resolution::Found(w)),
    ensures
        !resolve_post(c, a, Resolution::Ambiguous),
{
    if resolve_post(c, a, Resolution::Ambiguous) {
        let (i2, j2) = choose|i2: int, j2: int|
            {
                &&& 0 <= i2 < j2 < c.len()
                &&& applicable(#[trigger] c[i2]@, a)
                &&& applicable(#[trigger] c[j2]@, a)
                &&& spec_call_cost(c[i2]@, a) == spec_call_cost(c[j2]@, a)
                &&& forall|k: int|
                    0 <= k < c.len() && applicable(#[trigger] c[k]@, a) ==> spec_call_cost(
                        c[k]@,
                        a,
                    )->Some_0 >= spec_call_cost(c[i2]@, a)->Some_0
            };
        if i2 == w as int {
            assert(spec_call_cost(c[j2]@, a)->Some_0 > spec_call_cost(c[w as int]@, a)->Some_0);
        } else {
            assert(spec_call_cost(c[i2]@, a)->Some_0 > spec_call_cost(c[w as int]@, a)->Some_0);
            assert(spec_call_cost(c[w as int]@, a)->Some_0 >= spec_call_cost(c[i2]@, a)->Some_0);
        }
    }
}

/// Law: when no candidate applies there is no shared minimum either.
pub proof fn lemma_unknown_not_ambiguous(c: Seq<Vec<Type>>, a: Seq<Type>)
    requires
        resolve_post(c, a, Resolution::Unknown),
    ensures
        !resolve_post(c, a, Resolution::Ambiguous),
{
    if resolve_post(c, a, Resolution::Ambiguous) {
        let (i2, j2) = choose|i2: int, j2: int|
            {
                &&& 0 <= i2 < j2 < c.len()
                &&& applicable(#[trigger] c[i2]@, a)
                &&& applicable(#[trigger] c[j2]@, a)
                &&& spec_call_cost(c[i2]@, a) == spec_call_cost(c[j2]@, a)
                &&& forall|k: int|
                    0 <= k < c.len() && applicable(#[trigger] c[k]@, a) ==> spec_call_cost(
                        c[k]@,
                        a,
                    )->Some_0 >= spec_call_cost(c[i2]@, a)->Some_0
            };
        assert(!applicable(c[i2]@, a));
    }
}

/// Per-parse working state threaded through the recursive descent.
pub struct Ctx {
    pub items: Vec<LexItem>,
    pub pos: usize,
    pub errors: Vec<Error>,
    pub scopes: Vec<Vec<(String, SymDecl)>>,
    pub overloads: Vec<OverloadSet>,
    pub module: Module,
}

impl Ctx {
    /// The parser's working-state invariant: the cursor stays within the
    /// item stream, at least the global scope frame is open, and the
    /// module's constants stay free of duplicates.
    pub open spec fn wf(self) -> bool {
        &&& self.pos <= self.items@.len()
        &&& self.scopes@.len() >= 1
        &&& constants_unique(self.module.constants@)
        &&& forall|k: int| 0 <= k < self.overloads@.len() ==> set_wf(#[trigger] self.overloads@[k])
        &&& structs_have_members(self.module.structs@)
    }

    /// Relays pending preprocessor errors at the cursor, and rejects a
    /// version directive that is not the leading one; stops at a plain
    /// token or the end. A preprocessor error at the cursor is relayed
    /// verbatim, as the next diagnostic, spanning what the preprocessor
    /// reported.
    pub fn skip_noise(&mut self)
        requires
            old(self).wf(),
        ensures
            final(self).wf(),
            final(self).items == old(self).items,
            final(self).pos >= old(self).pos,
            errors_grow(old(self).errors@, final(self).errors@),
            final(self).pos == final(self).items@.len() || final(self).items@[final(self).pos as int] is Token,
            (old(self).pos < old(self).items@.len() && old(self).items@[old(self).pos as int]
                matches LexItem::PreprocessorError(e, m)) ==> {
                &&& final(self).errors@.len() > old(self).errors@.len()
                &&& final(self).errors@[old(self).errors@.len() as int] == (Error {
                    kind: ErrorKind::PreprocessorError(
                        old(self).items@[old(self).pos as int]->PreprocessorError_0,
                    ),
                    meta: old(self).items@[old(self).pos as int]->PreprocessorError_1,
                })
            },
    {
        loop
            invariant
                self.wf(),
                self.items == old(self).items,
                self.pos >= old(self).pos,
                errors_grow(old(self).errors@, self.errors@),
                self.pos == old(self).pos ==> self.errors == old(self).errors,
                (old(self).pos < old(self).items@.len() && old(self).items@[old(self).pos as int]
                    matches LexItem::PreprocessorError(e, m)) ==> (self.pos == old(self).pos || {
                    &&& self.errors@.len() > old(self).errors@.len()
                    &&& self.errors@[old(self).errors@.len() as int] == (Error {
                        kind: ErrorKind::PreprocessorError(
                            old(self).items@[old(self).pos as int]->PreprocessorError_0,
                        ),
                        meta: old(self).items@[old(self).pos as int]->PreprocessorError_1,
                    })
                }),
            decreases self.items@.len() - self.pos,
        {
            if self.pos >= self.items.len() {
                return ;
            }
            match &self.items[self.pos] {
                LexItem::Token(_) => {
                    return ;
                },
                LexItem::PreprocessorError(e, meta) => {
                    let m = *meta;
                    let err = relay_pp_error(e);
                    self.errors.push(Error { kind: err, meta: m });
                    self.pos = self.pos + 1;
                },
                LexItem::VersionDirective { meta, .. } => {
                    let m = *meta;
                    self.errors.push(
                        semantic_error("#version must occur first in shader", m),
                    );
                    self.pos = self.pos + 1;
                },
            }
        }
    }

    /// A copy of the token at the cursor, without consuming it.
    fn peek(&mut self) -> (r: Option<LexToken>)
        requires
            old(self).wf(),
        ensures
            final(self).wf(),
            final(self).items == old(self).items,
            final(self).pos >= old(self).pos,
            errors_grow(old(self).errors@, final(self).errors@),
    {
        self.skip_noise();
        if self.pos < self.items.len() {
            match &self.items[self.pos] {
                LexItem::Token(t) => Some(
                    LexToken { value: clone_token_value(&t.value), meta: t.meta },
                ),
                _ => None,
            }
        } else {
            None
        }
    }

    /// Consumes and returns the token at the cursor.
    fn next(&mut self) -> (r: Option<LexToken>)
        requires
            old(self).wf(),
        ensures
            final(self).wf(),
            final(self).items == old(self).items,
            final(self).pos >= old(self).pos,
            errors_grow(old(self).errors@, final(self).errors@),
            r is Some ==> final(self).pos > old(self).pos,
    {
        self.skip_noise();
        if self.pos < self.items.len() {
            match &self.items[self.pos] {
                LexItem::Token(t) => {
                    let tok = LexToken { value: clone_token_value(&t.value), meta: t.meta };
                    self.pos = self.pos + 1;
                    Some(tok)
                },
                _ => None,
            }
        } else {
            None
        }
    }

    /// Reports an unexpected token (or end of input) with what was
    /// acceptable in its place.
    fn unexpected(&mut self, found: Option<LexToken>, expected: Vec<ExpectedToken>)
        requires
            old(self).wf(),
        ensures
            final(self).wf(),
            final(self).items == old(self).items,
            final(self).pos == old(self).pos,
            errors_grow(old(self).errors@, final(self).errors@),
            final(self).errors@.len() > old(self).errors@.len(),
    {
        match found {
            Some(t) => {
                self.errors.push(
                    Error { kind: ErrorKind::InvalidToken(t.value, expected), meta: t.meta },
                );
            },
            None => {
                let meta = SourceMetadata { start: 0, end: 0 };
                self.errors.push(semantic_error("Unexpected end of input", meta));
            },
        }
    }

    /// Consumes the expected punctuation, or reports what stood in its
    /// place.
    fn expect_punct(&mut self, p: pp_rs::token::Punct) -> (r: Option<SourceMetadata>)
        requires
            old(self).wf(),
        ensures
            final(self).wf(),
            final(self).items == old(self).items,
            final(self).pos >= old(self).pos,
            errors_grow(old(self).errors@, final(self).errors@),
            r is Some ==> final(self).pos > old(self).pos,
    {
        let tok = self.next();
        match tok {
            Some(t) => {
                let matched = match &t.value {
                    TokenValue::Punct(q) => *q == p,
                    _ => false,
                };
                if matched {
                    Some(t.meta)
                } else {
                    let m = t.meta;
                    self.errors.push(
                        Error {
                            kind: ErrorKind::InvalidToken(
                                t.value,
                                vec![ExpectedToken::Token(TokenValue::Punct(p))],
                            ),
                            meta: m,
                        },
                    );
                    None
                }
            },
            None => {
                self.unexpected(None, vec![ExpectedToken::Token(TokenValue::Punct(p))]);
                None
            },
        }
    }

    /// Consumes an identifier, or reports what stood in its place.
    fn expect_ident(&mut self) -> (r: Option<(String, SourceMetadata)>)
        requires
            old(self).wf(),
        ensures
            final(self).wf(),
            final(self).items == old(self).items,
            final(self).pos >= old(self).pos,
            errors_grow(old(self).errors@, final(self).errors@),
            r is Some ==> final(self).pos > old(self).pos,
    {
        let tok = self.next();
        match tok {
            Some(t) => {
                match t.value {
                    TokenValue::Identifier(s) => Some((s, t.meta)),
                    other => {
                        self.errors.push(
                            Error {
                                kind: ErrorKind::InvalidToken(
                                    other,
                                    vec![ExpectedToken::Identifier],
                                ),
                                meta: t.meta,
                            },
                        );
                        None
                    },
                }
            },
            None => {
                self.unexpected(None, vec![ExpectedToken::Identifier]);
                None
            },
        }
    }

    /// True when the token at the cursor is the given punctuation.
    fn peek_punct(&mut self, p: pp_rs::token::Punct) -> (r: bool)
        requires
            old(self).wf(),
        ensures
            final(self).wf(),
            final(self).items == old(self).items,
            final(self).pos >= old(self).pos,
            errors_grow(old(self).errors@, final(self).errors@),
    {
        let tok = self.peek();
        match tok {
            Some(t) => match &t.value {
                TokenValue::Punct(q) => *q == p,
                _ => false,
            },
            None => false,
        }
    }

    /// Consumes the given punctuation when it is next; says whether it
    /// did.
    fn eat_punct(&mut self, p: pp_rs::token::Punct) -> (r: bool)
        requires
            old(self).wf(),
        ensures
            final(self).wf(),
            final(self).items == old(self).items,
            final(self).pos >= old(self).pos,
            errors_grow(old(self).errors@, final(self).errors@),
            r ==> final(self).pos > old(self).pos,
    {
        self.skip_noise();
        if self.pos < self.items.len() {
            let matched = match &self.items[self.pos] {
                LexItem::Token(t) => match &t.value {
                    TokenValue::Punct(q) => *q == p,
                    _ => false,
                },
                _ => false,
            };
            if matched {
                self.pos = self.pos + 1;
                return true;
            }
        }
        false
    }

    /// Opens a scope frame on block entry.
    fn push_scope(&mut self)
        requires
            old(self).wf(),
        ensures
            final(self).wf(),
            final(self).items == old(self).items,
            final(self).pos == old(self).pos,
            errors_grow(old(self).errors@, final(self).errors@),
    {
        self.scopes.push(Vec::new());
    }

    /// Closes and discards the innermost scope frame; the global frame
    /// stays.
    fn pop_scope(&mut self)
        requires
            old(self).wf(),
        ensures
            final(self).wf(),
            final(self).items == old(self).items,
            final(self).pos == old(self).pos,
            errors_grow(old(self).errors@, final(self).errors@),
    {
        if self.scopes.len() > 1 {
            let _ = self.scopes.pop();
        }
    }

    /// Declares a symbol in the innermost scope frame, shadowing outer
    /// declarations of the same name.
    fn declare(&mut self, name: String, decl: SymDecl)
        requires
            old(self).wf(),
        ensures
            final(self).wf(),
            final(self).items == old(self).items,
            final(self).pos == old(self).pos,
            errors_grow(old(self).errors@, final(self).errors@),
    {
        let last = self.scopes.len() - 1;
        let frame = &mut self.scopes[last];
        frame.push((name, decl));
    }

    /// Looks a name up through the scope stack, innermost frame first and
    /// latest declaration first within a frame.
    #[verifier::loop_isolation(false)]
    fn lookup(&self, name: &str) -> (r: Option<SymDecl>)
        requires
            self.wf(),
        ensures
            r == spec_lookup(self.scopes@, name@),
    {
        let mut f: usize = self.scopes.len();
        proof {
            assert(self.scopes@.take(f as int) =~= self.scopes@);
        }
        while f > 0
            invariant
                f <= self.scopes@.len(),
                spec_lookup(self.scopes@.take(f as int), name@) == spec_lookup(
                    self.scopes@,
                    name@,
                ),
            decreases f,
        {
            f = f - 1;
            proof {
                assert(self.scopes@.take(f as int + 1).last() == self.scopes@[f as int]);
                assert(self.scopes@.take(f as int + 1).drop_last() =~= self.scopes@.take(f as int));
            }
            let frame = &self.scopes[f];
            let mut e: usize = frame.len();
            proof {
                assert(frame@.take(e as int) =~= frame@);
            }
            while e > 0
                invariant
                    e <= frame@.len(),
                    spec_lookup_frame(frame@.take(e as int), name@) == spec_lookup_frame(
                        frame@,
                        name@,
                    ),
                decreases e,
            {
                e = e - 1;
                proof {
                    assert(frame@.take(e as int + 1).last() == frame@[e as int]);
                    assert(frame@.take(e as int + 1).drop_last() =~= frame@.take(e as int));
                }
                if str_eq(frame[e].0.as_str(), name) {
                    return Some(frame[e].1);
                }
            }
            proof {
                assert(frame@.take(0) =~= Seq::empty());
            }
        }
        proof {
            assert(self.scopes@.take(0) =~= Seq::<Vec<(String, SymDecl)>>::empty());
        }
        None
    }

    /// Finds the overload set of a name, creating an empty one if the
    /// name is new.
    fn find_set(&mut self, name: &str) -> (si: usize)
        requires
            old(self).wf(),
        ensures
            final(self).wf(),
            final(self).items == old(self).items,
            final(self).pos == old(self).pos,
            errors_grow(old(self).errors@, final(self).errors@),
            final(self).module == old(self).module,
            final(self).errors == old(self).errors,
            si < final(self).overloads@.len(),
    {
        let mut i: usize = 0;
        let n = self.overloads.len();
        while i < n
            invariant
                i <= n,
                n == self.overloads@.len(),
                self.wf(),
                self.items == old(self).items,
                self.pos == old(self).pos,
                errors_grow(old(self).errors@, self.errors@),
                self.module == old(self).module,
                self.errors == old(self).errors,
                self.overloads == old(self).overloads,
            decreases n - i,
        {
            if str_eq(self.overloads[i].name.as_str(), name) {
                return i;
            }
            i = i + 1;
        }
        self.overloads.push(OverloadSet { name: String::from_str(name), entries: Vec::new() });
        self.overloads.len() - 1
    }

    /// Compares two parameter-type lists.
    fn params_eq(a: &Vec<Type>, b: &Vec<Type>) -> (r: bool)
        ensures
            r == (a@ == b@),
    {
        if a.len() != b.len() {
            proof {
                assert(a@.len() != b@.len());
            }
            return false;
        }
        let mut i: usize = 0;
        while i < a.len()
            invariant
                i <= a@.len(),
                a@.len() == b@.len(),
                forall|k: int| 0 <= k < i ==> a@[k] == b@[k],
            decreases a@.len() - i,
        {
            if a[i] != b[i] {
                return false;
            }
            i = i + 1;
        }
        proof {
            assert(a@ =~= b@);
        }
        true
    }

    /// Enters a prototype or definition into an overload set and the
    /// module. A definition whose parameter-type signature repeats an
    /// already defined member of the set is rejected with exactly one
    /// "Function already defined" diagnostic spanning the new
    /// definition; the return type plays no part in that comparison.
    #[verifier::loop_isolation(false)]
    pub fn add_signature(
        &mut self,
        si: usize,
        name: String,
        parameters: Vec<Parameter>,
        ptypes: Vec<Type>,
        ret: Type,
        body: Option<Vec<Statement>>,
        meta: SourceMetadata,
    )
        requires
            old(self).wf(),
            si < old(self).overloads@.len(),
        ensures
            final(self).wf(),
            final(self).items == old(self).items,
            final(self).pos == old(self).pos,
            errors_grow(old(self).errors@, final(self).errors@),
            (body is Some && has_defined_match(
                old(self).overloads@[si as int].entries@,
                ptypes@,
            )) ==> {
                &&& final(self).errors@.len() == old(self).errors@.len() + 1
                &&& final(self).errors@.last().kind matches ErrorKind::SemanticError(m) && m@
                    == crate::error::already_defined_msg()
                &&& final(self).errors@.last().meta == meta
            },
            !(body is Some && has_defined_match(old(self).overloads@[si as int].entries@, ptypes@))
                ==> final(self).errors@ == old(self).errors@,
            // a definition that is no duplicate always lands: afterwards
            // the set holds a defined entry with these parameter types
            (body is Some && !has_defined_match(
                old(self).overloads@[si as int].entries@,
                ptypes@,
            )) ==> has_defined_match(final(self).overloads@[si as int].entries@, ptypes@),
            // a signature new to the set extends it and the module
            (forall|k: int|
                0 <= k < old(self).overloads@[si as int].entries@.len() ==> (#[trigger] old(
                    self,
                ).overloads@[si as int].entries@[k]).params@ != ptypes@) ==> {
                &&& final(self).overloads@[si as int].entries@.len() == old(
                    self,
                ).overloads@[si as int].entries@.len() + 1
                &&& final(self).overloads@[si as int].entries@.last().params@ == ptypes@
                &&& final(self).overloads@[si as int].entries@.last().ret == ret
                &&& final(self).overloads@[si as int].entries@.last().defined == (body is Some)
                &&& final(self).module.functions@ == old(self).module.functions@.push(
                    Function { name, parameters, return_type: ret, body, meta },
                )
            },
            // a repeated prototype changes nothing
            (body is None && (exists|k: int|
                0 <= k < old(self).overloads@[si as int].entries@.len() && (#[trigger] old(
                    self,
                ).overloads@[si as int].entries@[k]).params@ == ptypes@)) ==> *final(self)
                == *old(self),
    {
        let is_def = body.is_some();
        let n = self.overloads[si].entries.len();
        let mut i: usize = 0;
        let mut found: Option<usize> = None;
        while i < n
            invariant
                i <= n,
                self == old(self),
                n == self.overloads@[si as int].entries@.len(),
                found matches Some(fi) ==> fi < n && (#[trigger] self.overloads@[si as int].entries@[fi as int]).params@ == ptypes@,
                found is None ==> forall|k: int|
                    0 <= k < i ==> (#[trigger] self.overloads@[si as int].entries@[k]).params@
                        != ptypes@,
            decreases n - i,
        {
            if Self::params_eq(&self.overloads[si].entries[i].params, &ptypes) {
                found = Some(i);
                break ;
            }
            i = i + 1;
        }
        match found {
            Some(fi) => {
                let entry_defined = self.overloads[si].entries[fi].defined;
                if is_def {
                    if entry_defined {
                        self.errors.push(already_defined_error(meta));
                        proof {
                            assert(has_defined_match(
                                old(self).overloads@[si as int].entries@,
                                ptypes@,
                            ));
                        }
                    } else {
                        // a prototype gains its body
                        let fn_index = self.overloads[si].entries[fi].fn_index;
                        let builtin = self.overloads[si].entries[fi].builtin;
                        self.overloads[si].entries[fi].defined = true;
                        if !builtin && fn_index < self.module.functions.len() {
                            self.module.functions[fn_index].body = body;
                            self.module.functions[fn_index].meta = meta;
                        }
                        proof {
                            assert(set_wf(old(self).overloads@[si as int]));
                            assert forall|k: int|
                                0 <= k < old(self).overloads@[si as int].entries@.len() && (
                                #[trigger] old(self).overloads@[si as int].entries@[k]).params@
                                    == ptypes@ implies k == fi as int by {
                                if k < fi as int {
                                    assert(old(self).overloads@[si as int].entries@[k].params@
                                        != old(self).overloads@[si as int].entries@[fi as int].params@);
                                } else if k > fi as int {
                                    assert(old(self).overloads@[si as int].entries@[fi as int].params@
                                        != old(self).overloads@[si as int].entries@[k].params@);
                                }
                            }
                            assert(!has_defined_match(
                                old(self).overloads@[si as int].entries@,
                                ptypes@,
                            ));
                        }
                    }
                } else {
                    // a repeated prototype is ignored
                }
            },
            None => {
                let fn_index = self.module.functions.len();
                self.module.functions.push(
                    Function { name, parameters, return_type: ret, body, meta },
                );
                self.overloads[si].entries.push(
                    OverloadEntry { params: ptypes, ret, defined: is_def, builtin: false, fn_index },
                );
                proof {
                    assert(!has_defined_match(old(self).overloads@[si as int].entries@, ptypes@));
                }
            },
        }
    }
}

/// Relays one preprocessor error verbatim.
fn relay_pp_error(e: &pp_rs::token::PreprocessorError) -> (r: ErrorKind)
    ensures
        r matches ErrorKind::PreprocessorError(inner) && inner == *e,
{
    ErrorKind::PreprocessorError(clone_pp_error(e))
}

/// Relies on the derived `Clone` of the preprocessor's error enum: a
/// deep copy equal to the original.
#[verifier::external_body]
fn clone_pp_error(e: &pp_rs::token::PreprocessorError) -> (r: pp_rs::token::PreprocessorError)
    ensures
        r == *e,
{
    e.clone()
}

/// The scalar kind carried by a scalar or vector type.
fn scalar_kind_of(t: Type) -> Option<ScalarKind> {
    match t {
        Type::Plain(PlainType::Scalar(k)) => Some(k),
        Type::Plain(PlainType::Vector(k, _)) => Some(k),
        _ => None,
    }
}

/// The type of a binary expression: comparisons yield bool, arithmetic
/// unifies the operand kinds along the implicit-conversion order and
/// keeps the wider shape (a scalar combined with a vector broadcasts).
fn binary_type(op: BinaryOp, l: Type, r: Type) -> Type {
    match op {
        BinaryOp::Less | BinaryOp::Greater | BinaryOp::LessEqual | BinaryOp::GreaterEqual
            | BinaryOp::Equal | BinaryOp::NotEqual => {
            return Type::Plain(PlainType::Scalar(ScalarKind::Bool));
        },
        _ => {},
    }
    let lk = scalar_kind_of(l);
    let rk = scalar_kind_of(r);
    let kind = match (lk, rk) {
        (Some(a), Some(b)) => {
            if a == b {
                a
            } else if conv_cost(
                Type::Plain(PlainType::Scalar(a)),
                Type::Plain(PlainType::Scalar(b)),
            ).is_some() {
                b
            } else {
                a
            }
        },
        _ => {
            return l;
        },
    };
    match (l, r) {
        (Type::Plain(PlainType::Scalar(_)), Type::Plain(PlainType::Scalar(_))) => Type::Plain(
            PlainType::Scalar(kind),
        ),
        (Type::Plain(PlainType::Vector(_, n)), Type::Plain(PlainType::Scalar(_))) => Type::Plain(
            PlainType::Vector(kind, n),
        ),
        (Type::Plain(PlainType::Scalar(_)), Type::Plain(PlainType::Vector(_, n))) => Type::Plain(
            PlainType::Vector(kind, n),
        ),
        (Type::Plain(PlainType::Vector(_, n)), Type::Plain(PlainType::Vector(_, m))) => {
            if n == m {
                Type::Plain(PlainType::Vector(kind, n))
            } else {
                l
            }
        },
        _ => l,
    }
}

/// Byte width of a scalar literal: 4 for the numeric kinds, 1 for bool.
pub open spec fn spec_width_of(v: ScalarValue) -> u8 {
    match v {
        ScalarValue::Bool(_) => 1u8,
        _ => 4u8,
    }
}

fn width_of(v: ScalarValue) -> (r: u8)
    ensures
        r == spec_width_of(v),
{
    match v {
        ScalarValue::Bool(_) => 1,
        _ => 4,
    }
}

/// Copies a parameter-type list.
fn copy_types(v: &Vec<Type>) -> (r: Vec<Type>)
    ensures
        r@ == v@,
{
    let mut out: Vec<Type> = Vec::new();
    let mut i: usize = 0;
    while i < v.len()
        invariant
            i <= v@.len(),
            out@ =~= v@.subrange(0, i as int),
        decreases v@.len() - i,
    {
        out.push(v[i]);
        i = i + 1;
    }
    proof {
        assert(out@ =~= v@);
    }
    out
}

impl Ctx {
    /// Skips ahead past the next top-level `;` (tracking braces) so that
    /// scanning can resume at the next declaration after an error.
    #[verifier::loop_isolation(false)]
    fn resync_top(&mut self)
        requires
            old(self).wf(),
        ensures
            final(self).wf(),
            final(self).items == old(self).items,
            final(self).pos >= old(self).pos,
            errors_grow(old(self).errors@, final(self).errors@),
    {
        let mut depth: u64 = 0;
        loop
            invariant
                self.wf(),
                self.items == old(self).items,
                self.pos >= old(self).pos,
                errors_grow(old(self).errors@, self.errors@),
            decreases self.items@.len() - self.pos,
        {
            let before = self.pos;
            let tok = self.next();
            match tok {
                None => {
                    return ;
                },
                Some(t) => {
                    match &t.value {
                        TokenValue::Punct(p) => {
                            if *p == pp_rs::token::Punct::LeftBrace {
                                if depth < 0xffff_ffff_ffff_ffffu64 {
                                    depth = depth + 1;
                                }
                            } else if *p == pp_rs::token::Punct::RightBrace {
                                if depth > 0 {
                                    depth = depth - 1;
                                }
                            } else if *p == pp_rs::token::Punct::Semicolon {
                                if depth == 0 {
                                    return ;
                                }
                            }
                        },
                        _ => {},
                    }
                },
            }
            if self.pos <= before {
                return ;
            }
        }
    }

    /// Skips to the end of the current statement after an error inside a
    /// block: past the next `;`, or up to (not past) the block's `}`.
    #[verifier::loop_isolation(false)]
    fn recover_in_block(&mut self)
        requires
            old(self).wf(),
        ensures
            final(self).wf(),
            final(self).items == old(self).items,
            final(self).pos >= old(self).pos,
            errors_grow(old(self).errors@, final(self).errors@),
    {
        let mut depth: u64 = 0;
        loop
            invariant
                self.wf(),
                self.items == old(self).items,
                self.pos >= old(self).pos,
                errors_grow(old(self).errors@, self.errors@),
            decreases self.items@.len() - self.pos,
        {
            let before = self.pos;
            if depth == 0 && self.peek_punct(pp_rs::token::Punct::RightBrace) {
                return ;
            }
            let tok = self.next();
            match tok {
                None => {
                    return ;
                },
                Some(t) => {
                    match &t.value {
                        TokenValue::Punct(p) => {
                            if *p == pp_rs::token::Punct::LeftBrace {
                                if depth < 0xffff_ffff_ffff_ffffu64 {
                                    depth = depth + 1;
                                }
                            } else if *p == pp_rs::token::Punct::RightBrace {
                                if depth > 0 {
                                    depth = depth - 1;
                                }
                            } else if *p == pp_rs::token::Punct::Semicolon {
                                if depth == 0 {
                                    return ;
                                }
                            }
                        },
                        _ => {},
                    }
                },
            }
            if self.pos <= before {
                return ;
            }
        }
    }

    /// Scans the overload sets for the first one carrying the name.
    #[verifier::loop_isolation(false)]
    fn find_set_index(&self, name: &str) -> (r: Option<usize>)
        ensures
            match r {
                Some(si) => si < self.overloads@.len() && spec_overloads_of(
                    self.overloads@,
                    name@,
                ) == Some(self.overloads@[si as int].entries@),
                None => spec_overloads_of(self.overloads@, name@) is None,
            },
    {
        proof {
            assert(self.overloads@.skip(0) =~= self.overloads@);
        }
        let n = self.overloads.len();
        let mut scan: usize = 0;
        while scan < n
            invariant
                scan <= n,
                n == self.overloads@.len(),
                spec_overloads_of(self.overloads@.skip(scan as int), name@) == spec_overloads_of(
                    self.overloads@,
                    name@,
                ),
            decreases n - scan,
        {
            proof {
                assert(self.overloads@.skip(scan as int)[0] == self.overloads@[scan as int]);
            }
            if str_eq(self.overloads[scan].name.as_str(), name) {
                return Some(scan);
            }
            proof {
                assert(self.overloads@.skip(scan as int).skip(1) =~= self.overloads@.skip(
                    scan as int + 1,
                ));
            }
            scan = scan + 1;
        }
        proof {
            assert(self.overloads@.skip(scan as int).len() == 0);
        }
        None
    }

    /// Resolves a call site against the name's overload set, ranking the
    /// candidates by conversion cost: a single cheapest applicable
    /// candidate is owed and returned; no applicable candidate or a
    /// shared minimum each push their own diagnostic at the call's span.
    #[verifier::rlimit(100)]
    #[verifier::spinoff_prover]
    #[verifier::loop_isolation(false)]
    pub fn resolve_call(
        &mut self,
        name: String,
        args: Vec<Expression>,
        meta: SourceMetadata,
    ) -> (r: Option<Expression>)
        requires
            old(self).wf(),
        ensures
            final(self).wf(),
            final(self).items == old(self).items,
            final(self).pos == old(self).pos,
            errors_grow(old(self).errors@, final(self).errors@),
            // a name with no overload set at all is an unknown function
            spec_overloads_of(old(self).overloads@, name@) is None ==> (r is None
                && final(self).errors@.len() == old(self).errors@.len() + 1
                && (final(self).errors@.last().kind matches ErrorKind::SemanticError(m) && m@
                == crate::error::unknown_function_msg(name@)) && final(self).errors@.last().meta
                == meta),
            // over the name's overload set, the outcome follows the cost
            // model exactly: no applicable candidate reports the unknown
            // function, a shared minimum reports the ambiguity, and a
            // returned call is the resolved single cheapest candidate
            spec_overloads_of(old(self).overloads@, name@) matches Some(entries) ==> {
                &&& (resolve_post(
                    spec_candidates(entries),
                    spec_arg_types(args@),
                    Resolution::Unknown,
                ) ==> (r is None && final(self).errors@.len() == old(self).errors@.len() + 1 && (
                final(self).errors@.last().kind matches ErrorKind::SemanticError(m) && m@
                    == crate::error::unknown_function_msg(name@)) && final(self).errors@.last().meta
                    == meta))
                &&& (resolve_post(
                    spec_candidates(entries),
                    spec_arg_types(args@),
                    Resolution::Ambiguous,
                ) ==> (r is None && final(self).errors@.len() == old(self).errors@.len() + 1 && (
                final(self).errors@.last().kind matches ErrorKind::SemanticError(m) && m@
                    == crate::error::ambiguous_function_msg(name@))
                    && final(self).errors@.last().meta == meta))
                &&& ((exists|w: usize|
                    #[trigger] resolve_post(
                        spec_candidates(entries),
                        spec_arg_types(args@),
                        Resolution::Found(w),
                    )) ==> (r is Some && final(self).errors@ == old(self).errors@))
                &&& (r matches Some(e) ==> exists|w: usize|
                    {
                        &&& #[trigger] resolve_post(
                            spec_candidates(entries),
                            spec_arg_types(args@),
                            Resolution::Found(w),
                        )
                        &&& w < entries.len()
                        &&& e.ty == entries[w as int].ret
                        &&& e.meta == meta
                        &&& (e.kind matches ExpressionKind::Call(n2, fi, aa) && n2@ == name@ && fi
                            == entries[w as int].fn_index)
                        &&& final(self).errors@ == old(self).errors@
                    })
            },
    {
        let si = match self.find_set_index(name.as_str()) {
            Some(x) => x,
            None => {
                let e = unknown_function_error(name.as_str(), meta);
                self.errors.push(e);
                return None;
            },
        };
        let ghost entries = self.overloads@[si as int].entries@;
        let mut cands: Vec<Vec<Type>> = Vec::new();
        let nc = self.overloads[si].entries.len();
        let mut i: usize = 0;
        while i < nc
            invariant
                i <= nc,
                si < self.overloads@.len(),
                nc == entries.len(),
                entries == self.overloads@[si as int].entries@,
                cands@.len() == i,
                self == old(self),
                forall|k: int| 0 <= k < i ==> (#[trigger] cands@[k])@ == entries[k].params@,
            decreases nc - i,
        {
            cands.push(copy_types(&self.overloads[si].entries[i].params));
            i = i + 1;
        }
        let mut argtypes: Vec<Type> = Vec::new();
        let mut j: usize = 0;
        while j < args.len()
            invariant
                j <= args@.len(),
                argtypes@.len() == j,
                self == old(self),
                forall|k: int| 0 <= k < j ==> argtypes@[k] == args@[k].ty,
            decreases args@.len() - j,
        {
            argtypes.push(args[j].ty);
            j = j + 1;
        }
        proof {
            assert(argtypes@ =~= spec_arg_types(args@));
        }
        let res = resolve_overload(&cands, &argtypes);
        proof {
            assert(cands@.len() == spec_candidates(entries).len());
            assert forall|k: int| 0 <= k < cands@.len() implies (#[trigger] cands@[k])@
                == spec_candidates(entries)[k]@ by {
                assert(spec_candidates(entries)[k] == entries[k].params);
            }
            lemma_resolve_post_view(cands@, spec_candidates(entries), argtypes@, res);
        }
        proof {
            assert(argtypes@ == spec_arg_types(args@));
        }
        let ghost c = spec_candidates(entries);
        let ghost a = spec_arg_types(args@);
        match res {
            Resolution::Found(w) => {
                proof {
                    assert(spec_overloads_of(old(self).overloads@, name@) == Some(entries));
                    assert(c == spec_candidates(entries));
                    assert(a == spec_arg_types(args@));
                    assert(resolve_post(c, a, Resolution::Found(w)));
                    assert(w < entries.len());
                    lemma_found_not_unknown(c, a, w);
                    lemma_found_not_ambiguous(c, a, w);
                    assert(resolve_post(
                        spec_candidates(entries),
                        spec_arg_types(args@),
                        Resolution::Found(w),
                    ));
                    assert(!resolve_post(
                        spec_candidates(entries),
                        spec_arg_types(args@),
                        Resolution::Unknown,
                    ));
                    assert(!resolve_post(
                        spec_candidates(entries),
                        spec_arg_types(args@),
                        Resolution::Ambiguous,
                    ));
                }
                let ret = self.overloads[si].entries[w].ret;
                let fn_index = self.overloads[si].entries[w].fn_index;
                let ghost namesnap = name@;
                let ghost argsnap = args@;
                let result = Expression {
                    kind: ExpressionKind::Call(name, fn_index, args),
                    ty: ret,
                    meta,
                };
                proof {
                    assert(exists|w2: usize|
                        {
                            &&& #[trigger] resolve_post(
                                spec_candidates(entries),
                                spec_arg_types(argsnap),
                                Resolution::Found(w2),
                            )
                            &&& w2 < entries.len()
                            &&& result.ty == entries[w2 as int].ret
                            &&& result.meta == meta
                            &&& (result.kind matches ExpressionKind::Call(n2, fi, aa) && n2@
                                == namesnap && fi == entries[w2 as int].fn_index)
                            &&& self.errors@ == old(self).errors@
                        }) by {
                        assert(resolve_post(
                            spec_candidates(entries),
                            spec_arg_types(argsnap),
                            Resolution::Found(w),
                        ));
                        assert(result.ty == entries[w as int].ret);
                        assert(result.kind matches ExpressionKind::Call(n2, fi, aa) && n2@
                            == namesnap && fi == entries[w as int].fn_index);
                    }
                }
                Some(result)
            },
            Resolution::Unknown => {
                proof {
                    assert(spec_overloads_of(old(self).overloads@, name@) == Some(entries));
                    lemma_unknown_not_ambiguous(c, a);
                    if exists|w: usize| #[trigger] resolve_post(c, a, Resolution::Found(w)) {
                        let w = choose|w: usize| #[trigger] resolve_post(
                            c,
                            a,
                            Resolution::Found(w),
                        );
                        lemma_found_not_unknown(c, a, w);
                    }
                }
                let e = unknown_function_error(name.as_str(), meta);
                self.errors.push(e);
                None
            },
            Resolution::Ambiguous => {
                proof {
                    assert(spec_overloads_of(old(self).overloads@, name@) == Some(entries));
                    if resolve_post(c, a, Resolution::Unknown) {
                        lemma_unknown_not_ambiguous(c, a);
                    }
                    if exists|w: usize| #[trigger] resolve_post(c, a, Resolution::Found(w)) {
                        let w = choose|w: usize| #[trigger] resolve_post(
                            c,
                            a,
                            Resolution::Found(w),
                        );
                        lemma_found_not_ambiguous(c, a, w);
                    }
                }
                let e = ambiguous_function_error(name.as_str(), meta);
                self.errors.push(e);
                None
            },
        }
    }

    /// Parses a comma-separated argument list after the opening
    /// parenthesis, through the closing one; returns the arguments and
    /// the closing parenthesis's end offset.
    #[verifier::loop_isolation(false)]
    fn parse_args(&mut self, depth: u32) -> (r: Option<(Vec<Expression>, usize)>)
        requires
            old(self).wf(),
        ensures
            final(self).wf(),
            final(self).items == old(self).items,
            final(self).pos >= old(self).pos,
            errors_grow(old(self).errors@, final(self).errors@),
        decreases depth, 9int,
    {
        let mut args: Vec<Expression> = Vec::new();
        if self.peek_punct(pp_rs::token::Punct::RightParen) {
            let m = self.expect_punct(pp_rs::token::Punct::RightParen);
            return match m {
                Some(meta) => Some((args, meta.end)),
                None => None,
            };
        }
        if depth == 0 {
            return None;
        }
        loop
            invariant
                self.wf(),
                self.items == old(self).items,
                self.pos >= old(self).pos,
                errors_grow(old(self).errors@, self.errors@),
                depth > 0,
            decreases self.items@.len() - self.pos,
        {
            let before = self.pos;
            match self.parse_expression((depth - 1) as u32) {
                Some(e) => args.push(e),
                None => {
                    return None;
                },
            }
            if self.eat_punct(pp_rs::token::Punct::Comma) {
                if self.pos <= before {
                    return None;
                }
                continue ;
            }
            let m = self.expect_punct(pp_rs::token::Punct::RightParen);
            return match m {
                Some(meta) => Some((args, meta.end)),
                None => None,
            };
        }
    }

    /// Parses a primary expression: a literal, a variable read, a
    /// parenthesized expression, a type-constructor call, or a function
    /// call.
    #[verifier::loop_isolation(false)]
    fn parse_primary(&mut self, depth: u32) -> (r: Option<Expression>)
        requires
            old(self).wf(),
        ensures
            final(self).wf(),
            final(self).items == old(self).items,
            final(self).pos >= old(self).pos,
            errors_grow(old(self).errors@, final(self).errors@),
        decreases depth, 10int,
    {
        if depth == 0 {
            let meta = SourceMetadata { start: 0, end: 0 };
            self.errors.push(semantic_error("Expression is nested too deeply", meta));
            return None;
        }
        let tok = match self.next() {
            Some(t) => t,
            None => {
                self.unexpected(None, vec![ExpectedToken::Eof]);
                return None;
            },
        };
        match tok.value {
            TokenValue::IntConstant(v) => Some(
                Expression {
                    kind: ExpressionKind::Literal(ScalarValue::Sint(v)),
                    ty: Type::Plain(PlainType::Scalar(ScalarKind::Sint)),
                    meta: tok.meta,
                },
            ),
            TokenValue::UintConstant(v) => Some(
                Expression {
                    kind: ExpressionKind::Literal(ScalarValue::Uint(v)),
                    ty: Type::Plain(PlainType::Scalar(ScalarKind::Uint)),
                    meta: tok.meta,
                },
            ),
            TokenValue::FloatConstant(bits) => Some(
                Expression {
                    kind: ExpressionKind::Literal(ScalarValue::Float(bits)),
                    ty: Type::Plain(PlainType::Scalar(ScalarKind::Float)),
                    meta: tok.meta,
                },
            ),
            TokenValue::BoolConstant(b) => Some(
                Expression {
                    kind: ExpressionKind::Literal(ScalarValue::Bool(b)),
                    ty: Type::Plain(PlainType::Scalar(ScalarKind::Bool)),
                    meta: tok.meta,
                },
            ),
            TokenValue::TypeName(t) => {
                if self.expect_punct(pp_rs::token::Punct::LeftParen).is_none() {
                    return None;
                }
                match self.parse_args((depth - 1) as u32) {
                    Some((args, end)) => Some(
                        Expression {
                            kind: ExpressionKind::Construct(t, args),
                            ty: t,
                            meta: SourceMetadata { start: tok.meta.start, end },
                        },
                    ),
                    None => None,
                }
            },
            TokenValue::Identifier(name) => {
                if self.peek_punct(pp_rs::token::Punct::LeftParen) {
                    let _ = self.next();
                    let looked = self.lookup(name.as_str());
                    match looked {
                        Some(SymDecl::TypeDecl(t)) => {
                            match self.parse_args((depth - 1) as u32) {
                                Some((args, end)) => Some(
                                    Expression {
                                        kind: ExpressionKind::Construct(t, args),
                                        ty: t,
                                        meta: SourceMetadata { start: tok.meta.start, end },
                                    },
                                ),
                                None => None,
                            }
                        },
                        _ => {
                            match self.parse_args((depth - 1) as u32) {
                                Some((args, end)) => self.resolve_call(
                                    name,
                                    args,
                                    SourceMetadata { start: tok.meta.start, end },
                                ),
                                None => None,
                            }
                        },
                    }
                } else {
                    let looked = self.lookup(name.as_str());
                    match looked {
                        Some(SymDecl::Variable(t)) => Some(
                            Expression {
                                kind: ExpressionKind::Variable(name),
                                ty: t,
                                meta: tok.meta,
                            },
                        ),
                        Some(SymDecl::ConstVal(_, t)) => Some(
                            Expression {
                                kind: ExpressionKind::Variable(name),
                                ty: t,
                                meta: tok.meta,
                            },
                        ),
                        _ => {
                            self.errors.push(semantic_error("Unknown identifier", tok.meta));
                            None
                        },
                    }
                }
            },
            TokenValue::Punct(p) => {
                if p == pp_rs::token::Punct::LeftParen {
                    let inner = self.parse_expression((depth - 1) as u32);
                    match inner {
                        Some(e) => {
                            if self.expect_punct(pp_rs::token::Punct::RightParen).is_none() {
                                return None;
                            }
                            Some(e)
                        },
                        None => None,
                    }
                } else {
                    self.unexpected(
                        Some(LexToken { value: TokenValue::Punct(p), meta: tok.meta }),
                        Vec::new(),
                    );
                    None
                }
            },
            other => {
                self.unexpected(Some(LexToken { value: other, meta: tok.meta }), Vec::new());
                None
            },
        }
    }

    /// Parses postfix operators: swizzle and member access, and
    /// indexing.
    #[verifier::loop_isolation(false)]
    fn parse_postfix(&mut self, depth: u32) -> (r: Option<Expression>)
        requires
            old(self).wf(),
        ensures
            final(self).wf(),
            final(self).items == old(self).items,
            final(self).pos >= old(self).pos,
            errors_grow(old(self).errors@, final(self).errors@),
        decreases depth, 11int,
    {
        if depth == 0 {
            return None;
        }
        let mut e = match self.parse_primary((depth - 1) as u32) {
            Some(e) => e,
            None => {
                return None;
            },
        };
        loop
            invariant
                self.wf(),
                self.items == old(self).items,
                self.pos >= old(self).pos,
                errors_grow(old(self).errors@, self.errors@),
                depth > 0,
            decreases self.items@.len() - self.pos,
        {
            let before = self.pos;
            if self.eat_punct(pp_rs::token::Punct::Dot) {
                let (field, fmeta) = match self.expect_ident() {
                    Some(x) => x,
                    None => {
                        return None;
                    },
                };
                match e.ty {
                    Type::Plain(PlainType::Vector(k, n)) => {
                        match check_swizzle(field.as_str(), n, false) {
                            Some(comps) => {
                                let ty = if comps.len() == 1 {
                                    Type::Plain(PlainType::Scalar(k))
                                } else {
                                    Type::Plain(PlainType::Vector(k, comps.len() as u8))
                                };
                                let meta = SourceMetadata { start: e.meta.start, end: fmeta.end };
                                e = Expression {
                                    kind: ExpressionKind::Swizzle(Box::new(e), comps),
                                    ty,
                                    meta,
                                };
                            },
                            None => {
                                self.errors.push(semantic_error("Invalid swizzle", fmeta));
                                return None;
                            },
                        }
                    },
                    Type::Plain(PlainType::Struct(idx)) => {
                        let mut mty: Option<Type> = None;
                        if idx < self.module.structs.len() {
                            let nm = self.module.structs[idx].members.len();
                            let mut mi: usize = 0;
                            while mi < nm
                                invariant
                                    mi <= nm,
                                    idx < self.module.structs@.len(),
                                    nm == self.module.structs@[idx as int].members@.len(),
                                    self.wf(),
                                    self.items == old(self).items,
                                decreases nm - mi,
                            {
                                if str_eq(
                                    self.module.structs[idx].members[mi].name.as_str(),
                                    field.as_str(),
                                ) {
                                    mty = Some(self.module.structs[idx].members[mi].ty);
                                    break ;
                                }
                                mi = mi + 1;
                            }
                        }
                        match mty {
                            Some(t) => {
                                let meta = SourceMetadata { start: e.meta.start, end: fmeta.end };
                                e = Expression {
                                    kind: ExpressionKind::Member(Box::new(e), field),
                                    ty: t,
                                    meta,
                                };
                            },
                            None => {
                                self.errors.push(semantic_error("Unknown field", fmeta));
                                return None;
                            },
                        }
                    },
                    _ => {
                        self.errors.push(
                            semantic_error("Field access on a value with no fields", fmeta),
                        );
                        return None;
                    },
                }
            } else if self.eat_punct(pp_rs::token::Punct::LeftBracket) {
                let index = match self.parse_expression((depth - 1) as u32) {
                    Some(x) => x,
                    None => {
                        return None;
                    },
                };
                let endm = match self.expect_punct(pp_rs::token::Punct::RightBracket) {
                    Some(m) => m,
                    None => {
                        return None;
                    },
                };
                let elem = match e.ty {
                    Type::Plain(PlainType::Vector(k, _)) => Type::Plain(PlainType::Scalar(k)),
                    Type::Plain(PlainType::Matrix(_, rows)) => Type::Plain(
                        PlainType::Vector(ScalarKind::Float, rows),
                    ),
                    Type::Array(p, _) => Type::Plain(p),
                    other => other,
                };
                let meta = SourceMetadata { start: e.meta.start, end: endm.end };
                e = Expression {
                    kind: ExpressionKind::Index(Box::new(e), Box::new(index)),
                    ty: elem,
                    meta,
                };
            } else {
                return Some(e);
            }
            if self.pos <= before {
                return Some(e);
            }
        }
    }

    /// Parses multiplicative operators.
    #[verifier::loop_isolation(false)]
    fn parse_multiplicative(&mut self, depth: u32) -> (r: Option<Expression>)
        requires
            old(self).wf(),
        ensures
            final(self).wf(),
            final(self).items == old(self).items,
            final(self).pos >= old(self).pos,
            errors_grow(old(self).errors@, final(self).errors@),
        decreases depth, 12int,
    {
        if depth == 0 {
            return None;
        }
        let mut e = match self.parse_postfix((depth - 1) as u32) {
            Some(e) => e,
            None => {
                return None;
            },
        };
        loop
            invariant
                self.wf(),
                self.items == old(self).items,
                self.pos >= old(self).pos,
                errors_grow(old(self).errors@, self.errors@),
                depth > 0,
            decreases self.items@.len() - self.pos,
        {
            let before = self.pos;
            let op = if self.eat_punct(pp_rs::token::Punct::Star) {
                BinaryOp::Mul
            } else if self.eat_punct(pp_rs::token::Punct::Slash) {
                BinaryOp::Div
            } else {
                return Some(e);
            };
            let rhs = match self.parse_postfix((depth - 1) as u32) {
                Some(r) => r,
                None => {
                    return None;
                },
            };
            let ty = binary_type(op, e.ty, rhs.ty);
            let meta = SourceMetadata { start: e.meta.start, end: rhs.meta.end };
            e = Expression { kind: ExpressionKind::Binary(op, Box::new(e), Box::new(rhs)), ty, meta };
            if self.pos <= before {
                return Some(e);
            }
        }
    }

    /// Parses additive operators.
    #[verifier::loop_isolation(false)]
    fn parse_additive(&mut self, depth: u32) -> (r: Option<Expression>)
        requires
            old(self).wf(),
        ensures
            final(self).wf(),
            final(self).items == old(self).items,
            final(self).pos >= old(self).pos,
            errors_grow(old(self).errors@, final(self).errors@),
        decreases depth, 13int,
    {
        if depth == 0 {
            return None;
        }
        let mut e = match self.parse_multiplicative((depth - 1) as u32) {
            Some(e) => e,
            None => {
                return None;
            },
        };
        loop
            invariant
                self.wf(),
                self.items == old(self).items,
                self.pos >= old(self).pos,
                errors_grow(old(self).errors@, self.errors@),
                depth > 0,
            decreases self.items@.len() - self.pos,
        {
            let before = self.pos;
            let op = if self.eat_punct(pp_rs::token::Punct::Plus) {
                BinaryOp::Add
            } else if self.eat_punct(pp_rs::token::Punct::Minus) {
                BinaryOp::Sub
            } else {
                return Some(e);
            };
            let rhs = match self.parse_multiplicative((depth - 1) as u32) {
                Some(r) => r,
                None => {
                    return None;
                },
            };
            let ty = binary_type(op, e.ty, rhs.ty);
            let meta = SourceMetadata { start: e.meta.start, end: rhs.meta.end };
            e = Expression { kind: ExpressionKind::Binary(op, Box::new(e), Box::new(rhs)), ty, meta };
            if self.pos <= before {
                return Some(e);
            }
        }
    }

    /// Parses an expression: relational operators over additive ones.
    #[verifier::loop_isolation(false)]
    fn parse_expression(&mut self, depth: u32) -> (r: Option<Expression>)
        requires
            old(self).wf(),
        ensures
            final(self).wf(),
            final(self).items == old(self).items,
            final(self).pos >= old(self).pos,
            errors_grow(old(self).errors@, final(self).errors@),
        decreases depth, 14int,
    {
        if depth == 0 {
            return None;
        }
        let mut e = match self.parse_additive((depth - 1) as u32) {
            Some(e) => e,
            None => {
                return None;
            },
        };
        loop
            invariant
                self.wf(),
                self.items == old(self).items,
                self.pos >= old(self).pos,
                errors_grow(old(self).errors@, self.errors@),
                depth > 0,
            decreases self.items@.len() - self.pos,
        {
            let before = self.pos;
            let op = if self.eat_punct(pp_rs::token::Punct::LeftAngle) {
                BinaryOp::Less
            } else if self.eat_punct(pp_rs::token::Punct::RightAngle) {
                BinaryOp::Greater
            } else if self.eat_punct(pp_rs::token::Punct::LessEqual) {
                BinaryOp::LessEqual
            } else if self.eat_punct(pp_rs::token::Punct::GreaterEqual) {
                BinaryOp::GreaterEqual
            } else if self.eat_punct(pp_rs::token::Punct::EqualEqual) {
                BinaryOp::Equal
            } else if self.eat_punct(pp_rs::token::Punct::NotEqual) {
                BinaryOp::NotEqual
            } else {
                return Some(e);
            };
            let rhs = match self.parse_additive((depth - 1) as u32) {
                Some(r) => r,
                None => {
                    return None;
                },
            };
            let ty = binary_type(op, e.ty, rhs.ty);
            let meta = SourceMetadata { start: e.meta.start, end: rhs.meta.end };
            e = Expression { kind: ExpressionKind::Binary(op, Box::new(e), Box::new(rhs)), ty, meta };
            if self.pos <= before {
                return Some(e);
            }
        }
    }

    /// Checks an assignment target: a variable, possibly behind member
    /// access, indexing, and swizzles whose components do not repeat.
    fn swizzle_target_ok(&mut self, e: &Expression) -> (r: bool)
        requires
            old(self).wf(),
        ensures
            final(self).wf(),
            final(self).items == old(self).items,
            final(self).pos == old(self).pos,
            errors_grow(old(self).errors@, final(self).errors@),
            r == spec_assign_target_ok(*e),
            r ==> final(self).errors@ == old(self).errors@,
        decreases *e,
    {
        match &e.kind {
            ExpressionKind::Variable(_) => true,
            ExpressionKind::Swizzle(inner, comps) => {
                let n = comps.len();
                let mut a: usize = 0;
                let mut distinct = true;
                while a < n
                    invariant
                        a <= n,
                        n == comps@.len(),
                        self == old(self),
                        distinct <==> (forall|p: int, q: int|
                            #![trigger comps@[p], comps@[q]]
                            0 <= p < q < n && p < a ==> comps@[p] != comps@[q]),
                    decreases n - a,
                {
                    let mut b: usize = a + 1;
                    while b < n
                        invariant
                            a < b <= n || b == a + 1,
                            n == comps@.len(),
                            a < n,
                            self == old(self),
                            distinct <==> ((forall|p: int, q: int|
                                #![trigger comps@[p], comps@[q]]
                                0 <= p < q < n && p < a ==> comps@[p] != comps@[q]) && (forall|
                                q: int,
                            |
                                a < q < b ==> comps@[a as int] != #[trigger] comps@[q])),
                        decreases n - b,
                    {
                        if comps[a] == comps[b] {
                            distinct = false;
                        }
                        b = b + 1;
                    }
                    a = a + 1;
                }
                proof {
                    if distinct {
                        assert(comps_distinct(comps@));
                    } else {
                        assert(!comps_distinct(comps@));
                    }
                }
                if !distinct {
                    let m = e.meta;
                    self.errors.push(
                        semantic_error("Repeated component in an assignment target", m),
                    );
                    return false;
                }
                self.swizzle_target_ok(inner)
            },
            ExpressionKind::Member(inner, _) => self.swizzle_target_ok(inner),
            ExpressionKind::Index(inner, _) => self.swizzle_target_ok(inner),
            _ => {
                let m = e.meta;
                self.errors.push(semantic_error("Invalid left-hand side of assignment", m));
                false
            },
        }
    }
}

/// The components of a swizzle stage are pairwise distinct, the extra
/// rule a write imposes over a read.
pub open spec fn comps_distinct(comps: Seq<u8>) -> bool {
    forall|p: int, q: int|
        #![trigger comps[p], comps[q]]
        0 <= p < q < comps.len() ==> comps[p] != comps[q]
}

/// A legal assignment target: a variable, reached through member access,
/// indexing, and swizzle stages whose components do not repeat. The
/// arity and naming-set rules of each stage were already enforced when
/// the expression was read (`valid_swizzle` in read mode); writing adds
/// the distinctness that write mode demands.
pub open spec fn spec_assign_target_ok(e: Expression) -> bool
    decreases e,
{
    match e.kind {
        ExpressionKind::Variable(_) => true,
        ExpressionKind::Swizzle(inner, comps) => comps_distinct(comps@) && spec_assign_target_ok(
            *inner,
        ),
        ExpressionKind::Member(inner, _) => spec_assign_target_ok(*inner),
        ExpressionKind::Index(inner, _) => spec_assign_target_ok(*inner),
        _ => false,
    }
}

/// Wraps a parsed statement as a statement list, flattening a block.
fn stmts_of(st: Statement) -> Vec<Statement> {
    match st {
        Statement::Block(v) => v,
        other => {
            let mut v: Vec<Statement> = Vec::new();
            v.push(other);
            v
        },
    }
}

impl Ctx {
    /// Consumes a type: a built-in type name or an identifier declared
    /// as a struct type. Returns the type with the type token's span.
    fn parse_type(&mut self) -> (r: Option<(Type, SourceMetadata)>)
        requires
            old(self).wf(),
        ensures
            final(self).wf(),
            final(self).items == old(self).items,
            final(self).pos >= old(self).pos,
            errors_grow(old(self).errors@, final(self).errors@),
    {
        let tok = match self.next() {
            Some(t) => t,
            None => {
                self.unexpected(None, vec![ExpectedToken::TypeName]);
                return None;
            },
        };
        match tok.value {
            TokenValue::TypeName(t) => Some((t, tok.meta)),
            TokenValue::Identifier(name) => {
                let looked = self.lookup(name.as_str());
                match looked {
                    Some(SymDecl::TypeDecl(t)) => Some((t, tok.meta)),
                    _ => {
                        self.errors.push(
                            Error {
                                kind: ErrorKind::InvalidToken(
                                    TokenValue::Identifier(name),
                                    vec![ExpectedToken::TypeName],
                                ),
                                meta: tok.meta,
                            },
                        );
                        None
                    },
                }
            },
            other => {
                self.errors.push(
                    Error {
                        kind: ErrorKind::InvalidToken(other, vec![ExpectedToken::TypeName]),
                        meta: tok.meta,
                    },
                );
                None
            },
        }
    }

    /// Folds an initializer that is a compile-time constant: exactly a
    /// literal (with its byte width), or a name bound in scope to a
    /// folded constant value; everything else stays unfolded.
    fn fold_expr(&self, e: &Expression) -> (r: Option<(u8, ScalarValue)>)
        requires
            self.wf(),
        ensures
            r == (match e.kind {
                ExpressionKind::Literal(sv) => Some((spec_width_of(sv), sv)),
                ExpressionKind::Variable(nm) => match spec_lookup(self.scopes@, nm@) {
                    Some(SymDecl::ConstVal(sv, _)) => Some((spec_width_of(sv), sv)),
                    _ => None::<(u8, ScalarValue)>,
                },
                _ => None::<(u8, ScalarValue)>,
            }),
    {
        match &e.kind {
            ExpressionKind::Literal(sv) => Some((width_of(*sv), *sv)),
            ExpressionKind::Variable(name) => {
                match self.lookup(name.as_str()) {
                    Some(SymDecl::ConstVal(sv, _)) => Some((width_of(sv), sv)),
                    _ => None,
                }
            },
            _ => None,
        }
    }

    /// Parses the declarators of a local declaration statement,
    /// declaring each name in the innermost scope; consumes the closing
    /// `;`.
    #[verifier::loop_isolation(false)]
    fn parse_local_declarators(&mut self, ty: Type, depth: u32) -> (r: Option<Vec<
        crate::ast::LocalDeclarator,
    >>)
        requires
            old(self).wf(),
        ensures
            final(self).wf(),
            final(self).items == old(self).items,
            final(self).pos >= old(self).pos,
            errors_grow(old(self).errors@, final(self).errors@),
        decreases depth, 20int,
    {
        if depth == 0 {
            return None;
        }
        let mut out: Vec<crate::ast::LocalDeclarator> = Vec::new();
        loop
            invariant
                self.wf(),
                self.items == old(self).items,
                self.pos >= old(self).pos,
                errors_grow(old(self).errors@, self.errors@),
                depth > 0,
            decreases self.items@.len() - self.pos,
        {
            let before = self.pos;
            let (name, _nmeta) = match self.expect_ident() {
                Some(x) => x,
                None => {
                    return None;
                },
            };
            let init = if self.eat_punct(pp_rs::token::Punct::Equal) {
                match self.parse_expression((depth - 1) as u32) {
                    Some(e) => Some(e),
                    None => {
                        return None;
                    },
                }
            } else {
                None
            };
            self.declare(name.clone(), SymDecl::Variable(ty));
            out.push(crate::ast::LocalDeclarator { name, init });
            if self.eat_punct(pp_rs::token::Punct::Comma) {
                if self.pos <= before {
                    return None;
                }
                continue ;
            }
            if self.expect_punct(pp_rs::token::Punct::Semicolon).is_none() {
                return None;
            }
            return Some(out);
        }
    }

    /// Parses the statements of a block after its `{`, through the
    /// matching `}`; recovers at statement boundaries so that one bad
    /// statement does not hide the rest.
    #[verifier::loop_isolation(false)]
    fn parse_block_body(&mut self, depth: u32) -> (r: Vec<Statement>)
        requires
            old(self).wf(),
        ensures
            final(self).wf(),
            final(self).items == old(self).items,
            final(self).pos >= old(self).pos,
            errors_grow(old(self).errors@, final(self).errors@),
        decreases depth, 30int,
    {
        let mut out: Vec<Statement> = Vec::new();
        if depth == 0 {
            return out;
        }
        loop
            invariant
                self.wf(),
                self.items == old(self).items,
                self.pos >= old(self).pos,
                errors_grow(old(self).errors@, self.errors@),
                depth > 0,
            decreases self.items@.len() - self.pos,
        {
            let before = self.pos;
            if self.eat_punct(pp_rs::token::Punct::RightBrace) {
                return out;
            }
            let peeked = self.peek();
            if peeked.is_none() {
                self.unexpected(
                    None,
                    vec![ExpectedToken::Token(TokenValue::Punct(pp_rs::token::Punct::RightBrace))],
                );
                return out;
            }
            match self.parse_statement((depth - 1) as u32) {
                Some(st) => out.push(st),
                None => {
                    self.recover_in_block();
                },
            }
            if self.pos <= before {
                return out;
            }
        }
    }

    /// Parses the statements of one `case` or `default` arm, up to the
    /// next label or the switch's `}`.
    #[verifier::loop_isolation(false)]
    fn parse_case_body(&mut self, depth: u32) -> (r: Vec<Statement>)
        requires
            old(self).wf(),
        ensures
            final(self).wf(),
            final(self).items == old(self).items,
            final(self).pos >= old(self).pos,
            errors_grow(old(self).errors@, final(self).errors@),
        decreases depth, 29int,
    {
        let mut out: Vec<Statement> = Vec::new();
        if depth == 0 {
            return out;
        }
        loop
            invariant
                self.wf(),
                self.items == old(self).items,
                self.pos >= old(self).pos,
                errors_grow(old(self).errors@, self.errors@),
                depth > 0,
            decreases self.items@.len() - self.pos,
        {
            let before = self.pos;
            let stop = match self.peek() {
                None => true,
                Some(t) => match &t.value {
                    TokenValue::Case => true,
                    TokenValue::Default => true,
                    TokenValue::Punct(p) => *p == pp_rs::token::Punct::RightBrace,
                    _ => false,
                },
            };
            if stop {
                return out;
            }
            match self.parse_statement((depth - 1) as u32) {
                Some(st) => out.push(st),
                None => {
                    self.recover_in_block();
                },
            }
            if self.pos <= before {
                return out;
            }
        }
    }

    /// Parses one statement. On an error, the diagnostic has been
    /// recorded and the caller resynchronizes.
    #[verifier::loop_isolation(false)]
    fn parse_statement(&mut self, depth: u32) -> (r: Option<Statement>)
        requires
            old(self).wf(),
        ensures
            final(self).wf(),
            final(self).items == old(self).items,
            final(self).pos >= old(self).pos,
            errors_grow(old(self).errors@, final(self).errors@),
        decreases depth, 31int,
    {
        if depth == 0 {
            return None;
        }
        let d = (depth - 1) as u32;
        let tok = match self.peek() {
            Some(t) => t,
            None => {
                self.unexpected(None, vec![ExpectedToken::Eof]);
                return None;
            },
        };
        match tok.value {
            TokenValue::Punct(p) => {
                if p == pp_rs::token::Punct::Semicolon {
                    let _ = self.next();
                    return Some(Statement::Empty);
                }
                if p == pp_rs::token::Punct::LeftBrace {
                    let _ = self.next();
                    self.push_scope();
                    let body = self.parse_block_body(d);
                    self.pop_scope();
                    return Some(Statement::Block(body));
                }
                self.parse_simple_statement(d)
            },
            TokenValue::If => {
                let _ = self.next();
                if self.expect_punct(pp_rs::token::Punct::LeftParen).is_none() {
                    return None;
                }
                let condition = match self.parse_expression(d) {
                    Some(e) => e,
                    None => {
                        return None;
                    },
                };
                if self.expect_punct(pp_rs::token::Punct::RightParen).is_none() {
                    return None;
                }
                let accept = match self.parse_statement(d) {
                    Some(st) => stmts_of(st),
                    None => {
                        return None;
                    },
                };
                let reject = if self.eat_keyword_else() {
                    match self.parse_statement(d) {
                        Some(st) => stmts_of(st),
                        None => {
                            return None;
                        },
                    }
                } else {
                    Vec::new()
                };
                Some(Statement::If { condition, accept, reject })
            },
            TokenValue::Switch => {
                let _ = self.next();
                if self.expect_punct(pp_rs::token::Punct::LeftParen).is_none() {
                    return None;
                }
                let selector = match self.parse_expression(d) {
                    Some(e) => e,
                    None => {
                        return None;
                    },
                };
                if self.expect_punct(pp_rs::token::Punct::RightParen).is_none() {
                    return None;
                }
                if self.expect_punct(pp_rs::token::Punct::LeftBrace).is_none() {
                    return None;
                }
                let mut cases: Vec<SwitchCase> = Vec::new();
                let mut default: Vec<Statement> = Vec::new();
                loop
                    invariant
                        self.wf(),
                        self.items == old(self).items,
                        self.pos >= old(self).pos,
                        errors_grow(old(self).errors@, self.errors@),
                        depth > 0,
                    decreases self.items@.len() - self.pos,
                {
                    let before = self.pos;
                    if self.eat_punct(pp_rs::token::Punct::RightBrace) {
                        break ;
                    }
                    let label = match self.next() {
                        Some(t) => t,
                        None => {
                            return None;
                        },
                    };
                    match label.value {
                        TokenValue::Case => {
                            let vtok = match self.next() {
                                Some(t) => t,
                                None => {
                                    return None;
                                },
                            };
                            let value: i64 = match vtok.value {
                                TokenValue::IntConstant(v) => v,
                                TokenValue::UintConstant(u) => #[verifier::truncate] (u as i64),
                                other => {
                                    self.unexpected(
                                        Some(LexToken { value: other, meta: vtok.meta }),
                                        vec![ExpectedToken::IntLiteral],
                                    );
                                    return None;
                                },
                            };
                            if self.expect_punct(pp_rs::token::Punct::Colon).is_none() {
                                return None;
                            }
                            let body = self.parse_case_body(d);
                            cases.push(SwitchCase { value, body });
                        },
                        TokenValue::Default => {
                            if self.expect_punct(pp_rs::token::Punct::Colon).is_none() {
                                return None;
                            }
                            default = self.parse_case_body(d);
                        },
                        other => {
                            self.unexpected(
                                Some(LexToken { value: other, meta: label.meta }),
                                vec![
                                    ExpectedToken::Token(TokenValue::Case),
                                    ExpectedToken::Token(TokenValue::Default),
                                ],
                            );
                            return None;
                        },
                    }
                    if self.pos <= before {
                        break ;
                    }
                }
                Some(Statement::Switch { selector, cases, default })
            },
            TokenValue::While => {
                let _ = self.next();
                if self.expect_punct(pp_rs::token::Punct::LeftParen).is_none() {
                    return None;
                }
                let condition = match self.parse_expression(d) {
                    Some(e) => e,
                    None => {
                        return None;
                    },
                };
                if self.expect_punct(pp_rs::token::Punct::RightParen).is_none() {
                    return None;
                }
                let body = match self.parse_statement(d) {
                    Some(st) => stmts_of(st),
                    None => {
                        return None;
                    },
                };
                Some(Statement::While { condition, body })
            },
            TokenValue::Do => {
                let _ = self.next();
                let body = match self.parse_statement(d) {
                    Some(st) => stmts_of(st),
                    None => {
                        return None;
                    },
                };
                let wtok = match self.next() {
                    Some(t) => t,
                    None => {
                        self.unexpected(None, vec![ExpectedToken::Token(TokenValue::While)]);
                        return None;
                    },
                };
                match wtok.value {
                    TokenValue::While => {},
                    other => {
                        self.unexpected(
                            Some(LexToken { value: other, meta: wtok.meta }),
                            vec![ExpectedToken::Token(TokenValue::While)],
                        );
                        return None;
                    },
                }
                if self.expect_punct(pp_rs::token::Punct::LeftParen).is_none() {
                    return None;
                }
                let condition = match self.parse_expression(d) {
                    Some(e) => e,
                    None => {
                        return None;
                    },
                };
                if self.expect_punct(pp_rs::token::Punct::RightParen).is_none() {
                    return None;
                }
                let _ = self.eat_punct(pp_rs::token::Punct::Semicolon);
                Some(Statement::DoWhile { body, condition })
            },
            TokenValue::For => {
                let _ = self.next();
                self.push_scope();
                if self.expect_punct(pp_rs::token::Punct::LeftParen).is_none() {
                    self.pop_scope();
                    return None;
                }
                let init = if self.eat_punct(pp_rs::token::Punct::Semicolon) {
                    None
                } else {
                    match self.parse_statement(d) {
                        Some(st) => Some(Box::new(st)),
                        None => {
                            self.pop_scope();
                            return None;
                        },
                    }
                };
                let condition = if self.peek_punct(pp_rs::token::Punct::Semicolon) {
                    None
                } else {
                    match self.parse_expression(d) {
                        Some(e) => Some(e),
                        None => {
                            self.pop_scope();
                            return None;
                        },
                    }
                };
                if self.expect_punct(pp_rs::token::Punct::Semicolon).is_none() {
                    self.pop_scope();
                    return None;
                }
                let step = if self.peek_punct(pp_rs::token::Punct::RightParen) {
                    None
                } else {
                    match self.parse_expression(d) {
                        Some(e) => Some(e),
                        None => {
                            self.pop_scope();
                            return None;
                        },
                    }
                };
                if self.expect_punct(pp_rs::token::Punct::RightParen).is_none() {
                    self.pop_scope();
                    return None;
                }
                let body = if self.eat_punct(pp_rs::token::Punct::Semicolon) {
                    Vec::new()
                } else {
                    match self.parse_statement(d) {
                        Some(st) => stmts_of(st),
                        None => {
                            self.pop_scope();
                            return None;
                        },
                    }
                };
                self.pop_scope();
                Some(Statement::For { init, condition, step, body })
            },
            TokenValue::Return => {
                let _ = self.next();
                if self.eat_punct(pp_rs::token::Punct::Semicolon) {
                    return Some(Statement::Return(None));
                }
                let e = match self.parse_expression(d) {
                    Some(e) => e,
                    None => {
                        return None;
                    },
                };
                if self.expect_punct(pp_rs::token::Punct::Semicolon).is_none() {
                    return None;
                }
                Some(Statement::Return(Some(e)))
            },
            TokenValue::Break => {
                let _ = self.next();
                if self.expect_punct(pp_rs::token::Punct::Semicolon).is_none() {
                    return None;
                }
                Some(Statement::Break)
            },
            TokenValue::Continue => {
                let _ = self.next();
                if self.expect_punct(pp_rs::token::Punct::Semicolon).is_none() {
                    return None;
                }
                Some(Statement::Continue)
            },
            TokenValue::TypeName(_) => {
                let ty = match self.parse_type() {
                    Some((t, _)) => t,
                    None => {
                        return None;
                    },
                };
                let declarators = match self.parse_local_declarators(ty, d) {
                    Some(ds) => ds,
                    None => {
                        return None;
                    },
                };
                Some(Statement::Local { ty, declarators })
            },
            TokenValue::Const => {
                let _ = self.next();
                let ty = match self.parse_type() {
                    Some((t, _)) => t,
                    None => {
                        return None;
                    },
                };
                let declarators = match self.parse_local_declarators(ty, d) {
                    Some(ds) => ds,
                    None => {
                        return None;
                    },
                };
                Some(Statement::Local { ty, declarators })
            },
            TokenValue::Identifier(name) => {
                let looked = self.lookup(name.as_str());
                match looked {
                    Some(SymDecl::TypeDecl(t)) => {
                        let _ = self.next();
                        let declarators = match self.parse_local_declarators(t, d) {
                            Some(ds) => ds,
                            None => {
                                return None;
                            },
                        };
                        Some(Statement::Local { ty: t, declarators })
                    },
                    _ => self.parse_simple_statement(d),
                }
            },
            _ => self.parse_simple_statement(d),
        }
    }

    /// True when the next token is the `else` keyword, consuming it.
    fn eat_keyword_else(&mut self) -> (r: bool)
        requires
            old(self).wf(),
        ensures
            final(self).wf(),
            final(self).items == old(self).items,
            final(self).pos >= old(self).pos,
            errors_grow(old(self).errors@, final(self).errors@),
    {
        let is_else = match self.peek() {
            Some(t) => match &t.value {
                TokenValue::Else => true,
                _ => false,
            },
            None => false,
        };
        if is_else {
            let _ = self.next();
        }
        is_else
    }

    /// Parses an expression statement or an assignment through a
    /// validated target; consumes the closing `;`.
    #[verifier::loop_isolation(false)]
    fn parse_simple_statement(&mut self, depth: u32) -> (r: Option<Statement>)
        requires
            old(self).wf(),
        ensures
            final(self).wf(),
            final(self).items == old(self).items,
            final(self).pos >= old(self).pos,
            errors_grow(old(self).errors@, final(self).errors@),
        decreases depth, 32int,
    {
        if depth == 0 {
            return None;
        }
        let e = match self.parse_expression((depth - 1) as u32) {
            Some(e) => e,
            None => {
                return None;
            },
        };
        if self.eat_punct(pp_rs::token::Punct::Equal) {
            let value = match self.parse_expression((depth - 1) as u32) {
                Some(v) => v,
                None => {
                    return None;
                },
            };
            if !self.swizzle_target_ok(&e) {
                return None;
            }
            if self.expect_punct(pp_rs::token::Punct::Semicolon).is_none() {
                return None;
            }
            return Some(Statement::Store { target: e, value });
        }
        if self.expect_punct(pp_rs::token::Punct::Semicolon).is_none() {
            return None;
        }
        Some(Statement::Expr(e))
    }
}

/// Copies a token list; the copy's view equals the original's.
fn clone_lex_tokens(v: &Vec<LexToken>) -> (r: Vec<LexToken>)
    ensures
        r@ == v@,
{
    let mut out: Vec<LexToken> = Vec::new();
    let mut i: usize = 0;
    while i < v.len()
        invariant
            i <= v@.len(),
            out@ =~= v@.subrange(0, i as int),
        decreases v@.len() - i,
    {
        out.push(LexToken { value: clone_token_value(&v[i].value), meta: v[i].meta });
        i = i + 1;
    }
    proof {
        assert(out@ =~= v@);
    }
    out
}

/// The version directive that leads the item stream, past any
/// preprocessor errors reported before it: its trailing tokens and
/// whether the preprocessor saw it as the first directive.
pub open spec fn spec_directive(items: Seq<LexItem>) -> Option<(Seq<LexToken>, bool)>
    decreases items.len(),
{
    if items.len() == 0 {
        None
    } else {
        match items[0] {
            LexItem::PreprocessorError(_, _) => spec_directive(items.skip(1)),
            LexItem::VersionDirective { tokens, is_first, .. } => Some((tokens@, is_first)),
            LexItem::Token(_) => None,
        }
    }
}

/// The diagnostics relayed verbatim for the preprocessor errors that
/// lead the item stream, in order, each spanning what the preprocessor
/// reported.
pub open spec fn spec_relays(items: Seq<LexItem>) -> Seq<Error>
    decreases items.len(),
{
    if items.len() == 0 {
        Seq::empty()
    } else {
        match items[0] {
            LexItem::PreprocessorError(e, m) => Seq::empty().push(
                Error { kind: ErrorKind::PreprocessorError(e), meta: m },
            ) + spec_relays(items.skip(1)),
            _ => Seq::empty(),
        }
    }
}

impl Ctx {
    /// Consumes the leading version directive, relaying any preprocessor
    /// errors reported before it. Yields nothing exactly when the stream
    /// does not lead with a directive.
    #[verifier::loop_isolation(false)]
    fn take_directive(&mut self) -> (r: Option<(Vec<LexToken>, bool, SourceMetadata)>)
        requires
            old(self).wf(),
        ensures
            final(self).wf(),
            final(self).items == old(self).items,
            final(self).pos >= old(self).pos,
            errors_grow(old(self).errors@, final(self).errors@),
            final(self).errors@ == old(self).errors@ + spec_relays(
                old(self).items@.skip(old(self).pos as int),
            ),
            final(self).module == old(self).module,
            final(self).overloads == old(self).overloads,
            final(self).scopes == old(self).scopes,
            r is Some ==> final(self).pos == old(self).pos + spec_relays(
                old(self).items@.skip(old(self).pos as int),
            ).len() + 1,
            match spec_directive(old(self).items@.skip(old(self).pos as int)) {
                Some((toks, fr)) => r matches Some((t2, f2, _)) && t2@ == toks && f2 == fr,
                None => r is None,
            },
    {
        loop
            invariant
                self.wf(),
                self.items == old(self).items,
                self.pos >= old(self).pos,
                errors_grow(old(self).errors@, self.errors@),
                self.module == old(self).module,
                self.overloads == old(self).overloads,
                self.scopes == old(self).scopes,
                self.pos - old(self).pos == self.errors@.len() - old(self).errors@.len(),
                self.errors@ + spec_relays(self.items@.skip(self.pos as int)) == old(self).errors@
                    + spec_relays(old(self).items@.skip(old(self).pos as int)),
                spec_directive(self.items@.skip(self.pos as int)) == spec_directive(
                    old(self).items@.skip(old(self).pos as int),
                ),
            decreases self.items@.len() - self.pos,
        {
            if self.pos >= self.items.len() {
                proof {
                    assert(spec_relays(self.items@.skip(self.pos as int)) =~= Seq::empty());
                    assert(self.errors@ =~= old(self).errors@ + spec_relays(
                        old(self).items@.skip(old(self).pos as int),
                    ));
                }
                return None;
            }
            proof {
                assert(self.items@.skip(self.pos as int)[0] == self.items@[self.pos as int]);
            }
            match &self.items[self.pos] {
                LexItem::Token(_) => {
                    proof {
                        assert(self.errors@ =~= old(self).errors@ + spec_relays(
                            old(self).items@.skip(old(self).pos as int),
                        ));
                    }
                    return None;
                },
                LexItem::PreprocessorError(e, meta) => {
                    let m = *meta;
                    let err = relay_pp_error(e);
                    let ghost pre = self.errors@;
                    let ghost rest = self.items@.skip(self.pos as int);
                    self.errors.push(Error { kind: err, meta: m });
                    proof {
                        assert(rest.skip(1) =~= self.items@.skip(self.pos as int + 1));
                        assert(spec_relays(rest) =~= Seq::empty().push(
                            Error {
                                kind: ErrorKind::PreprocessorError(rest[0]->PreprocessorError_0),
                                meta: rest[0]->PreprocessorError_1,
                            },
                        ) + spec_relays(self.items@.skip(self.pos as int + 1)));
                        assert(self.errors@ + spec_relays(self.items@.skip(self.pos as int + 1))
                            =~= pre + spec_relays(rest));
                    }
                    self.pos = self.pos + 1;
                },
                LexItem::VersionDirective { tokens, is_first, meta } => {
                    let toks = clone_lex_tokens(tokens);
                    let fr = *is_first;
                    let m = *meta;
                    proof {
                        assert(spec_relays(self.items@.skip(self.pos as int)) =~= Seq::empty());
                        assert(self.errors@ =~= old(self).errors@ + spec_relays(
                            old(self).items@.skip(old(self).pos as int),
                        ));
                    }
                    self.pos = self.pos + 1;
                    return Some((toks, fr, m));
                },
            }
        }
    }

    /// Enters one built-in function signature into an overload set.
    #[verifier::loop_isolation(false)]
    fn add_builtin(&mut self, si: usize, ptypes: Vec<Type>, ret: Type)
        requires
            old(self).wf(),
            si < old(self).overloads@.len(),
        ensures
            final(self).wf(),
            final(self).items == old(self).items,
            final(self).pos == old(self).pos,
            errors_grow(old(self).errors@, final(self).errors@),
            final(self).errors == old(self).errors,
            final(self).module == old(self).module,
            final(self).overloads@.len() == old(self).overloads@.len(),
    {
        let n = self.overloads[si].entries.len();
        let mut i: usize = 0;
        while i < n
            invariant
                i <= n,
                self == old(self),
                n == self.overloads@[si as int].entries@.len(),
                forall|k: int|
                    0 <= k < i ==> (#[trigger] self.overloads@[si as int].entries@[k]).params@
                        != ptypes@,
            decreases n - i,
        {
            if Self::params_eq(&self.overloads[si].entries[i].params, &ptypes) {
                return ;
            }
            i = i + 1;
        }
        self.overloads[si].entries.push(
            OverloadEntry {
                params: ptypes,
                ret,
                defined: true,
                builtin: true,
                fn_index: usize::MAX,
            },
        );
    }

    /// Seeds the reusable built-in scope: the clamp overloads and the
    /// texture sampling functions.
    fn seed_builtins(&mut self)
        requires
            old(self).wf(),
        ensures
            final(self).wf(),
            final(self).items == old(self).items,
            final(self).pos == old(self).pos,
            errors_grow(old(self).errors@, final(self).errors@),
            final(self).errors == old(self).errors,
            final(self).module == old(self).module,
    {
        let f = Type::Plain(PlainType::Scalar(ScalarKind::Float));
        let v2 = Type::Plain(PlainType::Vector(ScalarKind::Float, 2));
        let v3 = Type::Plain(PlainType::Vector(ScalarKind::Float, 3));
        let v4 = Type::Plain(PlainType::Vector(ScalarKind::Float, 4));
        let cis = Type::Plain(PlainType::CombinedImageSampler);
        let si = self.find_set("clamp");
        self.add_builtin(si, triple(f), f);
        let si = self.find_set("clamp");
        self.add_builtin(si, triple(v2), v2);
        let si = self.find_set("clamp");
        self.add_builtin(si, triple(v3), v3);
        let si = self.find_set("clamp");
        self.add_builtin(si, triple(v4), v4);
        let si = self.find_set("texture");
        let mut p: Vec<Type> = Vec::new();
        p.push(cis);
        p.push(v2);
        self.add_builtin(si, p, v4);
        let si = self.find_set("texture");
        let mut p: Vec<Type> = Vec::new();
        p.push(cis);
        p.push(v2);
        p.push(f);
        self.add_builtin(si, p, v4);
        let si = self.find_set("textureLod");
        let mut p: Vec<Type> = Vec::new();
        p.push(cis);
        p.push(v2);
        p.push(f);
        self.add_builtin(si, p, v4);
    }

    /// Parses `layout(...)` qualifiers after the `layout` keyword.
    #[verifier::loop_isolation(false)]
    fn parse_layout(&mut self) -> (r: Option<LayoutQualifiers>)
        requires
            old(self).wf(),
        ensures
            final(self).wf(),
            final(self).items == old(self).items,
            final(self).pos >= old(self).pos,
            errors_grow(old(self).errors@, final(self).errors@),
    {
        let mut lq = LayoutQualifiers {
            location: None,
            set: None,
            binding: None,
            std_layout: None,
            push_constant: false,
            early_fragment_tests: false,
        };
        if self.expect_punct(pp_rs::token::Punct::LeftParen).is_none() {
            return None;
        }
        loop
            invariant
                self.wf(),
                self.items == old(self).items,
                self.pos >= old(self).pos,
                errors_grow(old(self).errors@, self.errors@),
            decreases self.items@.len() - self.pos,
        {
            let before = self.pos;
            let (qname, _qmeta) = match self.expect_ident() {
                Some(x) => x,
                None => {
                    return None;
                },
            };
            let value: Option<u64> = if self.eat_punct(pp_rs::token::Punct::Equal) {
                let vtok = match self.next() {
                    Some(t) => t,
                    None => {
                        self.unexpected(None, vec![ExpectedToken::IntLiteral]);
                        return None;
                    },
                };
                match vtok.value {
                    TokenValue::IntConstant(v) => {
                        if v >= 0 {
                            Some(v as u64)
                        } else {
                            self.errors.push(semantic_error("Negative layout value", vtok.meta));
                            return None;
                        }
                    },
                    TokenValue::UintConstant(u) => Some(u),
                    other => {
                        self.unexpected(
                            Some(LexToken { value: other, meta: vtok.meta }),
                            vec![ExpectedToken::IntLiteral],
                        );
                        return None;
                    },
                }
            } else {
                None
            };
            if str_eq(qname.as_str(), "location") {
                lq.location = value;
            } else if str_eq(qname.as_str(), "set") {
                lq.set = value;
            } else if str_eq(qname.as_str(), "binding") {
                lq.binding = value;
            } else if str_eq(qname.as_str(), "std140") {
                lq.std_layout = Some(140);
            } else if str_eq(qname.as_str(), "std430") {
                lq.std_layout = Some(430);
            } else if str_eq(qname.as_str(), "push_constant") {
                lq.push_constant = true;
            } else if str_eq(qname.as_str(), "early_fragment_tests") {
                lq.early_fragment_tests = true;
            }
            if self.eat_punct(pp_rs::token::Punct::Comma) {
                if self.pos <= before {
                    return None;
                }
                continue ;
            }
            if self.expect_punct(pp_rs::token::Punct::RightParen).is_none() {
                return None;
            }
            return Some(lq);
        }
    }

    /// Parses struct or interface-block members after the `{`, through
    /// the `}`; a member may carry a constant-sized array suffix.
    #[verifier::loop_isolation(false)]
    fn parse_struct_members(&mut self, depth: u32) -> (r: Option<Vec<StructMember>>)
        requires
            old(self).wf(),
        ensures
            final(self).wf(),
            final(self).items == old(self).items,
            final(self).pos >= old(self).pos,
            errors_grow(old(self).errors@, final(self).errors@),
        decreases depth, 40int,
    {
        let mut members: Vec<StructMember> = Vec::new();
        if depth == 0 {
            return None;
        }
        loop
            invariant
                self.wf(),
                self.items == old(self).items,
                self.pos >= old(self).pos,
                errors_grow(old(self).errors@, self.errors@),
                depth > 0,
            decreases self.items@.len() - self.pos,
        {
            let before = self.pos;
            if self.eat_punct(pp_rs::token::Punct::RightBrace) {
                return Some(members);
            }
            let (mut ty, _tymeta) = match self.parse_type() {
                Some(x) => x,
                None => {
                    return None;
                },
            };
            let (mname, nmeta) = match self.expect_ident() {
                Some(x) => x,
                None => {
                    return None;
                },
            };
            if self.eat_punct(pp_rs::token::Punct::LeftBracket) {
                let vtok = match self.next() {
                    Some(t) => t,
                    None => {
                        self.unexpected(None, vec![ExpectedToken::IntLiteral]);
                        return None;
                    },
                };
                let size: u64 = match vtok.value {
                    TokenValue::IntConstant(v) => {
                        if v >= 0 {
                            v as u64
                        } else {
                            self.errors.push(semantic_error("Negative array size", vtok.meta));
                            return None;
                        }
                    },
                    TokenValue::UintConstant(u) => u,
                    TokenValue::Identifier(cname) => {
                        match self.lookup(cname.as_str()) {
                            Some(SymDecl::ConstVal(ScalarValue::Sint(v), _)) => {
                                if v >= 0 {
                                    v as u64
                                } else {
                                    self.errors.push(
                                        semantic_error("Negative array size", vtok.meta),
                                    );
                                    return None;
                                }
                            },
                            Some(SymDecl::ConstVal(ScalarValue::Uint(u), _)) => u,
                            _ => {
                                self.errors.push(
                                    semantic_error(
                                        "Array size must be a compile-time integer constant",
                                        vtok.meta,
                                    ),
                                );
                                return None;
                            },
                        }
                    },
                    other => {
                        self.unexpected(
                            Some(LexToken { value: other, meta: vtok.meta }),
                            vec![ExpectedToken::IntLiteral],
                        );
                        return None;
                    },
                };
                if self.expect_punct(pp_rs::token::Punct::RightBracket).is_none() {
                    return None;
                }
                ty = match ty {
                    Type::Plain(p) => Type::Array(p, size),
                    Type::Array(_, _) => {
                        self.errors.push(
                            semantic_error("Arrays of arrays are not supported", nmeta),
                        );
                        return None;
                    },
                };
            }
            if self.expect_punct(pp_rs::token::Punct::Semicolon).is_none() {
                return None;
            }
            members.push(StructMember { ty, name: mname });
            if self.pos <= before {
                return None;
            }
        }
    }

    /// Parses a function's parameter list, prototype-or-body tail, and
    /// enters it into its overload set. The declaration's span runs from
    /// the return type through the closing parenthesis.
    #[verifier::loop_isolation(false)]
    fn parse_function_rest(&mut self, name: String, ret: Type, start: usize, depth: u32) -> (r:
        Option<()>)
        requires
            old(self).wf(),
        ensures
            final(self).wf(),
            final(self).items == old(self).items,
            final(self).pos >= old(self).pos,
            errors_grow(old(self).errors@, final(self).errors@),
        decreases depth, 41int,
    {
        if depth == 0 {
            return None;
        }
        let d = (depth - 1) as u32;
        if self.expect_punct(pp_rs::token::Punct::LeftParen).is_none() {
            return None;
        }
        let mut parameters: Vec<Parameter> = Vec::new();
        let mut ptypes: Vec<Type> = Vec::new();
        let mut rp_end: usize = 0;
        if self.peek_punct(pp_rs::token::Punct::RightParen) {
            match self.expect_punct(pp_rs::token::Punct::RightParen) {
                Some(m) => {
                    rp_end = m.end;
                },
                None => {
                    return None;
                },
            }
        } else {
            loop
                invariant
                    self.wf(),
                    self.items == old(self).items,
                    self.pos >= old(self).pos,
                    errors_grow(old(self).errors@, self.errors@),
                    depth > 0,
                decreases self.items@.len() - self.pos,
            {
                let before = self.pos;
                let qualifier = {
                    let q = match self.peek() {
                        Some(t) => match &t.value {
                            TokenValue::In => Some(ParameterQualifier::In),
                            TokenValue::Out => Some(ParameterQualifier::Out),
                            TokenValue::InOut => Some(ParameterQualifier::InOut),
                            _ => None,
                        },
                        None => None,
                    };
                    match q {
                        Some(q) => {
                            let _ = self.next();
                            q
                        },
                        None => ParameterQualifier::In,
                    }
                };
                let (ty, _tymeta) = match self.parse_type() {
                    Some(x) => x,
                    None => {
                        return None;
                    },
                };
                let pname: Option<String> = {
                    let is_ident = match self.peek() {
                        Some(t) => t.value matches TokenValue::Identifier(_),
                        None => false,
                    };
                    if is_ident {
                        match self.expect_ident() {
                            Some((n, _)) => Some(n),
                            None => None,
                        }
                    } else {
                        None
                    }
                };
                parameters.push(Parameter { ty, qualifier, name: pname });
                ptypes.push(ty);
                if self.eat_punct(pp_rs::token::Punct::Comma) {
                    if self.pos <= before {
                        return None;
                    }
                    continue ;
                }
                match self.expect_punct(pp_rs::token::Punct::RightParen) {
                    Some(m) => {
                        rp_end = m.end;
                    },
                    None => {
                        return None;
                    },
                }
                break ;
            }
        }
        let meta = SourceMetadata { start, end: rp_end };
        if self.eat_punct(pp_rs::token::Punct::Semicolon) {
            let si = self.find_set(name.as_str());
            self.add_signature(si, name, parameters, ptypes, ret, None, meta);
            return Some(());
        }
        if self.expect_punct(pp_rs::token::Punct::LeftBrace).is_none() {
            return None;
        }
        self.push_scope();
        let mut pi: usize = 0;
        while pi < parameters.len()
            invariant
                pi <= parameters@.len(),
                self.wf(),
                self.items == old(self).items,
                self.pos >= old(self).pos,
                errors_grow(old(self).errors@, self.errors@),
            decreases parameters@.len() - pi,
        {
            let pty = parameters[pi].ty;
            match &parameters[pi].name {
                Some(n) => {
                    let owned = n.clone();
                    self.declare(owned, SymDecl::Variable(pty));
                },
                None => {},
            }
            pi = pi + 1;
        }
        let body = self.parse_block_body(d);
        self.pop_scope();
        let si = self.find_set(name.as_str());
        self.add_signature(si, name, parameters, ptypes, ret, Some(body), meta);
        Some(())
    }

    /// Parses the declarators of a global declaration and records each
    /// as a module global; consumes the closing `;`.
    #[verifier::loop_isolation(false)]
    fn parse_global_declarators(
        &mut self,
        ty: Type,
        storage: StorageQualifier,
        layout: LayoutQualifiers,
        depth: u32,
    ) -> (r: Option<()>)
        requires
            old(self).wf(),
        ensures
            final(self).wf(),
            final(self).items == old(self).items,
            final(self).pos >= old(self).pos,
            errors_grow(old(self).errors@, final(self).errors@),
        decreases depth, 42int,
    {
        if depth == 0 {
            return None;
        }
        loop
            invariant
                self.wf(),
                self.items == old(self).items,
                self.pos >= old(self).pos,
                errors_grow(old(self).errors@, self.errors@),
                depth > 0,
            decreases self.items@.len() - self.pos,
        {
            let before = self.pos;
            let (name, _nmeta) = match self.expect_ident() {
                Some(x) => x,
                None => {
                    return None;
                },
            };
            let init = if self.eat_punct(pp_rs::token::Punct::Equal) {
                match self.parse_expression((depth - 1) as u32) {
                    Some(e) => Some(e),
                    None => {
                        return None;
                    },
                }
            } else {
                None
            };
            self.declare(name.clone(), SymDecl::Variable(ty));
            self.module.globals.push(
                GlobalVariable { name: Some(name), ty, storage, layout, init },
            );
            if self.eat_punct(pp_rs::token::Punct::Comma) {
                if self.pos <= before {
                    return None;
                }
                continue ;
            }
            if self.expect_punct(pp_rs::token::Punct::Semicolon).is_none() {
                return None;
            }
            return Some(());
        }
    }

    /// Parses a `const` global: the initializer must fold to a
    /// compile-time constant, which enters the module's constant list
    /// (reusing an equal entry) and binds the name.
    #[verifier::loop_isolation(false)]
    fn parse_const_decl(&mut self, depth: u32) -> (r: Option<()>)
        requires
            old(self).wf(),
        ensures
            final(self).wf(),
            final(self).items == old(self).items,
            final(self).pos >= old(self).pos,
            errors_grow(old(self).errors@, final(self).errors@),
        decreases depth, 42int,
    {
        if depth == 0 {
            return None;
        }
        let (ty, _tymeta) = match self.parse_type() {
            Some(x) => x,
            None => {
                return None;
            },
        };
        let (name, _nmeta) = match self.expect_ident() {
            Some(x) => x,
            None => {
                return None;
            },
        };
        if self.expect_punct(pp_rs::token::Punct::Equal).is_none() {
            return None;
        }
        let e = match self.parse_expression((depth - 1) as u32) {
            Some(e) => e,
            None => {
                return None;
            },
        };
        if self.expect_punct(pp_rs::token::Punct::Semicolon).is_none() {
            return None;
        }
        match self.fold_expr(&e) {
            Some((width, value)) => {
                let c = Constant {
                    name: None,
                    specialization: None,
                    inner: ConstantInner::Scalar { width, value },
                };
                let _ = fetch_or_append_constant(&mut self.module.constants, c);
                self.declare(name, SymDecl::ConstVal(value, ty));
            },
            None => {
                self.declare(name.clone(), SymDecl::Variable(ty));
                self.module.globals.push(
                    GlobalVariable {
                        name: Some(name),
                        ty,
                        storage: StorageQualifier::Const,
                        layout: LayoutQualifiers {
                            location: None,
                            set: None,
                            binding: None,
                            std_layout: None,
                            push_constant: false,
                            early_fragment_tests: false,
                        },
                        init: Some(e),
                    },
                );
            },
        }
        Some(())
    }

    /// Parses a struct declaration after the `struct` keyword: the named
    /// member list (which must not be empty), then either `;`, a trailing
    /// instance variable, or a function definition returning the struct.
    #[verifier::loop_isolation(false)]
    fn parse_struct_decl(&mut self, start: usize, depth: u32) -> (r: Option<()>)
        requires
            old(self).wf(),
        ensures
            final(self).wf(),
            final(self).items == old(self).items,
            final(self).pos >= old(self).pos,
            errors_grow(old(self).errors@, final(self).errors@),
        decreases depth, 43int,
    {
        if depth == 0 {
            return None;
        }
        let d = (depth - 1) as u32;
        let (sname, smeta) = match self.expect_ident() {
            Some(x) => x,
            None => {
                return None;
            },
        };
        if self.expect_punct(pp_rs::token::Punct::LeftBrace).is_none() {
            return None;
        }
        let members = match self.parse_struct_members(d) {
            Some(m) => m,
            None => {
                return None;
            },
        };
        if members.len() == 0 {
            self.errors.push(semantic_error("Struct cannot be empty", smeta));
            let _ = self.eat_punct(pp_rs::token::Punct::Semicolon);
            return Some(());
        }
        let idx = self.module.structs.len();
        self.module.structs.push(StructType { name: sname.clone(), members });
        let ty = Type::Plain(PlainType::Struct(idx));
        self.declare(sname, SymDecl::TypeDecl(ty));
        if self.eat_punct(pp_rs::token::Punct::Semicolon) {
            return Some(());
        }
        let is_ident = match self.peek() {
            Some(t) => t.value matches TokenValue::Identifier(_),
            None => false,
        };
        if is_ident {
            let (iname, _imeta) = match self.expect_ident() {
                Some(x) => x,
                None => {
                    return None;
                },
            };
            if self.peek_punct(pp_rs::token::Punct::LeftParen) {
                return self.parse_function_rest(iname, ty, start, d);
            }
            self.declare(iname.clone(), SymDecl::Variable(ty));
            self.module.globals.push(
                GlobalVariable {
                    name: Some(iname),
                    ty,
                    storage: StorageQualifier::Private,
                    layout: LayoutQualifiers {
                        location: None,
                        set: None,
                        binding: None,
                        std_layout: None,
                        push_constant: false,
                        early_fragment_tests: false,
                    },
                    init: None,
                },
            );
            if self.expect_punct(pp_rs::token::Punct::Semicolon).is_none() {
                return None;
            }
            return Some(());
        }
        if self.expect_punct(pp_rs::token::Punct::Semicolon).is_none() {
            return None;
        }
        Some(())
    }

    /// Parses a global that leads with a type: a function prototype or
    /// definition, or one or more global variables.
    #[verifier::loop_isolation(false)]
    fn parse_typed_global(
        &mut self,
        storage: StorageQualifier,
        layout: LayoutQualifiers,
        depth: u32,
    ) -> (r: Option<()>)
        requires
            old(self).wf(),
        ensures
            final(self).wf(),
            final(self).items == old(self).items,
            final(self).pos >= old(self).pos,
            errors_grow(old(self).errors@, final(self).errors@),
        decreases depth, 44int,
    {
        if depth == 0 {
            return None;
        }
        let d = (depth - 1) as u32;
        let (ty, tymeta) = match self.parse_type() {
            Some(x) => x,
            None => {
                return None;
            },
        };
        let is_ident = match self.peek() {
            Some(t) => t.value matches TokenValue::Identifier(_),
            None => false,
        };
        if !is_ident {
            return self.parse_global_declarators(ty, storage, layout, d);
        }
        let (name, _nmeta) = match self.expect_ident() {
            Some(x) => x,
            None => {
                return None;
            },
        };
        if self.peek_punct(pp_rs::token::Punct::LeftParen) {
            return self.parse_function_rest(name, ty, tymeta.start, d);
        }
        // not a function: the name already consumed is the first
        // declarator
        let init = if self.eat_punct(pp_rs::token::Punct::Equal) {
            match self.parse_expression(d) {
                Some(e) => Some(e),
                None => {
                    return None;
                },
            }
        } else {
            None
        };
        self.declare(name.clone(), SymDecl::Variable(ty));
        self.module.globals.push(GlobalVariable { name: Some(name), ty, storage, layout, init });
        if self.eat_punct(pp_rs::token::Punct::Comma) {
            return self.parse_global_declarators(ty, storage, layout, d);
        }
        if self.expect_punct(pp_rs::token::Punct::Semicolon).is_none() {
            return None;
        }
        Some(())
    }

    /// Parses a declaration that leads with storage or layout
    /// qualifiers, including interface blocks. A layout-qualified bare
    /// `in;`/`out;` carries only stage qualifiers and records nothing.
    #[verifier::loop_isolation(false)]
    fn parse_qualified_decl(&mut self, layout: LayoutQualifiers, depth: u32) -> (r: Option<()>)
        requires
            old(self).wf(),
        ensures
            final(self).wf(),
            final(self).items == old(self).items,
            final(self).pos >= old(self).pos,
            errors_grow(old(self).errors@, final(self).errors@),
        decreases depth, 45int,
    {
        if depth == 0 {
            return None;
        }
        let d = (depth - 1) as u32;
        let tok = match self.peek() {
            Some(t) => t,
            None => {
                self.unexpected(None, vec![ExpectedToken::TypeName]);
                return None;
            },
        };
        match tok.value {
            TokenValue::In => {
                let _ = self.next();
                if self.eat_punct(pp_rs::token::Punct::Semicolon) {
                    return Some(());
                }
                self.parse_typed_global(StorageQualifier::Input, layout, d)
            },
            TokenValue::Out => {
                let _ = self.next();
                if self.eat_punct(pp_rs::token::Punct::Semicolon) {
                    return Some(());
                }
                self.parse_typed_global(StorageQualifier::Output, layout, d)
            },
            TokenValue::Uniform => {
                let _ = self.next();
                let next_tok = match self.peek() {
                    Some(t) => t,
                    None => {
                        self.unexpected(None, vec![ExpectedToken::TypeName]);
                        return None;
                    },
                };
                match next_tok.value {
                    TokenValue::Identifier(bname) => {
                        let looked = self.lookup(bname.as_str());
                        match looked {
                            Some(SymDecl::TypeDecl(_)) => self.parse_typed_global(
                                StorageQualifier::Uniform,
                                layout,
                                d,
                            ),
                            _ => {
                                // an interface block: named member group
                                let _ = self.next();
                                if self.expect_punct(pp_rs::token::Punct::LeftBrace).is_none() {
                                    return None;
                                }
                                let members = match self.parse_struct_members(d) {
                                    Some(m) => m,
                                    None => {
                                        return None;
                                    },
                                };
                                if members.len() == 0 {
                                    self.errors.push(
                                        semantic_error("Interface block cannot be empty", next_tok.meta),
                                    );
                                    let _ = self.eat_punct(pp_rs::token::Punct::Semicolon);
                                    return Some(());
                                }
                                // the members become visible in the
                                // enclosing scope
                                let mut mi: usize = 0;
                                while mi < members.len()
                                    invariant
                                        mi <= members@.len(),
                                        self.wf(),
                                        self.items == old(self).items,
                                        self.pos >= old(self).pos,
                                        errors_grow(old(self).errors@, self.errors@),
                                    decreases members@.len() - mi,
                                {
                                    let mty = members[mi].ty;
                                    let mname = members[mi].name.clone();
                                    self.declare(mname, SymDecl::Variable(mty));
                                    mi = mi + 1;
                                }
                                let idx = self.module.structs.len();
                                self.module.structs.push(
                                    StructType { name: bname.clone(), members },
                                );
                                let bty = Type::Plain(PlainType::Struct(idx));
                                let is_ident = match self.peek() {
                                    Some(t) => t.value matches TokenValue::Identifier(_),
                                    None => false,
                                };
                                let gname = if is_ident {
                                    let (iname, _imeta) = match self.expect_ident() {
                                        Some(x) => x,
                                        None => {
                                            return None;
                                        },
                                    };
                                    self.declare(iname.clone(), SymDecl::Variable(bty));
                                    iname
                                } else {
                                    bname
                                };
                                self.module.globals.push(
                                    GlobalVariable {
                                        name: Some(gname),
                                        ty: bty,
                                        storage: StorageQualifier::Uniform,
                                        layout,
                                        init: None,
                                    },
                                );
                                if self.expect_punct(pp_rs::token::Punct::Semicolon).is_none() {
                                    return None;
                                }
                                Some(())
                            },
                        }
                    },
                    _ => self.parse_typed_global(StorageQualifier::Uniform, layout, d),
                }
            },
            _ => self.parse_typed_global(StorageQualifier::Private, layout, d),
        }
    }

    /// Parses one top-level declaration, resynchronizing at declaration
    /// boundaries after an error so that later declarations still get
    /// their diagnostics.
    #[verifier::loop_isolation(false)]
    fn parse_top_decl(&mut self, depth: u32)
        requires
            old(self).wf(),
        ensures
            final(self).wf(),
            final(self).items == old(self).items,
            final(self).pos >= old(self).pos,
            errors_grow(old(self).errors@, final(self).errors@),
        decreases depth, 46int,
    {
        if depth == 0 {
            return ;
        }
        let d = (depth - 1) as u32;
        let default_layout = LayoutQualifiers {
            location: None,
            set: None,
            binding: None,
            std_layout: None,
            push_constant: false,
            early_fragment_tests: false,
        };
        let tok = match self.peek() {
            Some(t) => t,
            None => {
                return ;
            },
        };
        match tok.value {
            TokenValue::Layout => {
                let _ = self.next();
                match self.parse_layout() {
                    Some(lq) => {
                        if self.parse_qualified_decl(lq, d).is_none() {
                            self.resync_top();
                        }
                    },
                    None => {
                        self.resync_top();
                    },
                }
            },
            TokenValue::In | TokenValue::Out | TokenValue::Uniform => {
                if self.parse_qualified_decl(default_layout, d).is_none() {
                    self.resync_top();
                }
            },
            TokenValue::Const => {
                let _ = self.next();
                if self.parse_const_decl(d).is_none() {
                    self.resync_top();
                }
            },
            TokenValue::Precision => {
                let _ = self.next();
                if self.expect_ident().is_none() {
                    self.resync_top();
                    return ;
                }
                if self.parse_type().is_none() {
                    self.resync_top();
                    return ;
                }
                if self.expect_punct(pp_rs::token::Punct::Semicolon).is_none() {
                    self.resync_top();
                }
            },
            TokenValue::Struct => {
                let _ = self.next();
                if self.parse_struct_decl(tok.meta.start, d).is_none() {
                    self.resync_top();
                }
            },
            TokenValue::InOut => {
                let _ = self.next();
                let next_is_struct = match self.peek() {
                    Some(t) => t.value matches TokenValue::Struct,
                    None => false,
                };
                if next_is_struct {
                    self.errors.push(
                        semantic_error(
                            "inout qualifier is not allowed on a struct declaration",
                            tok.meta,
                        ),
                    );
                } else {
                    self.unexpected(Some(tok), vec![ExpectedToken::Eof]);
                }
                self.resync_top();
            },
            TokenValue::TypeName(_) => {
                if self.parse_typed_global(StorageQualifier::Private, default_layout, d).is_none() {
                    self.resync_top();
                }
            },
            TokenValue::Identifier(name) => {
                let looked = self.lookup(name.as_str());
                match looked {
                    Some(SymDecl::TypeDecl(_)) => {
                        if self.parse_typed_global(
                            StorageQualifier::Private,
                            default_layout,
                            d,
                        ).is_none() {
                            self.resync_top();
                        }
                    },
                    _ => {
                        let _ = self.next();
                        self.errors.push(
                            Error {
                                kind: ErrorKind::InvalidToken(
                                    TokenValue::Identifier(name),
                                    vec![ExpectedToken::Eof],
                                ),
                                meta: tok.meta,
                            },
                        );
                        self.resync_top();
                    },
                }
            },
            other => {
                let _ = self.next();
                self.errors.push(
                    Error {
                        kind: ErrorKind::InvalidToken(other, vec![ExpectedToken::Eof]),
                        meta: tok.meta,
                    },
                );
                self.resync_top();
            },
        }
    }
}

/// The reusable front end. An instance is reusable sequentially: each
/// `parse` call works on fresh state, and `metadata` reports the resolved
/// version and profile of the most recent call.
pub struct Parser {
    meta: Metadata,
}

impl Parser {
    /// The metadata of the most recent parse, as contracts speak of it.
    pub closed spec fn spec_metadata(self) -> Metadata {
        self.meta
    }
}

impl Default for Parser {
    fn default() -> (r: Parser)
        ensures
            r.spec_metadata() == (Metadata { version: 0u64, profile: Profile::Core }),
    {
        Parser { meta: Metadata { version: 0, profile: Profile::Core } }
    }
}

impl Parser {
    /// The resolved `{version, profile}` of the most recent parse.
    pub fn metadata(&self) -> (r: Metadata)
        ensures
            r == self.spec_metadata(),
    {
        self.meta
    }

    /// Parses a bridged item stream into a module, or a non-empty,
    /// source-ordered diagnostic list. The resolved metadata follows the
    /// leading version directive exactly; the version always lands in
    /// the supported set (the default when the directive is bad).
    pub fn parse_items(&mut self, items: Vec<LexItem>) -> (r: Result<Module, Vec<Error>>)
        ensures
            final(self).spec_metadata() == (match spec_directive(items@) {
                Some((toks, fr)) => spec_version_meta(toks, fr),
                None => Metadata { version: 450u64, profile: Profile::Core },
            }),
            supported_version(final(self).spec_metadata().version),
            match r {
                Ok(m) => {
                    &&& m.version == final(self).spec_metadata().version
                    &&& m.profile == final(self).spec_metadata().profile
                    &&& constants_unique(m.constants@)
                    &&& structs_have_members(m.structs@)
                },
                Err(es) => es@.len() > 0,
            },
            r is Ok ==> spec_directive(items@) is Some,
            // the preprocessor's own errors open the diagnostic list,
            // relayed verbatim in source order
            r matches Err(es) ==> errors_grow(spec_relays(items@), es@),
            // an unsupported version number fails the parse, and its
            // InvalidVersion diagnostic stands right after the relayed
            // preprocessor errors, spanning the numeric token
            spec_directive(items@) matches Some((toks, fr)) ==> ((fr && toks.len() > 0 && (
            toks[0].value matches TokenValue::IntConstant(v) && v >= 0 && !supported_version(
                v as u64,
            ))) ==> (r matches Err(es) && es@.len() > spec_relays(items@).len() && es@[spec_relays(
                items@,
            ).len() as int] == (Error {
                kind: ErrorKind::InvalidVersion(toks[0].value->IntConstant_0 as u64),
                meta: toks[0].meta,
            }))),
            // a profile name not valid for a supported version fails the
            // parse likewise, with InvalidProfile over the profile token
            spec_directive(items@) matches Some((toks, fr)) ==> ((fr && toks.len() > 1 && (
            toks[0].value matches TokenValue::IntConstant(v) && v >= 0 && supported_version(
                v as u64,
            )) && (toks[1].value matches TokenValue::Identifier(nm) && !valid_profile(
                toks[0].value->IntConstant_0 as u64,
                nm@,
            ))) ==> (r matches Err(es) && es@.len() > spec_relays(items@).len() && (es@[spec_relays(
                items@,
            ).len() as int].kind matches ErrorKind::InvalidProfile(n) && n@
                == toks[1].value->Identifier_0@) && es@[spec_relays(items@).len() as int].meta
                == toks[1].meta)),
            // on a stream holding nothing but the directive, a bad
            // version or profile is the only diagnostic
            (items@.len() == 1 && (spec_directive(items@) matches Some((toks, fr)) && fr
                && toks.len() > 0 && (toks[0].value matches TokenValue::IntConstant(v) && v >= 0
                && !supported_version(v as u64)))) ==> (r matches Err(es) && es@.len() == 1),
            (items@.len() == 1 && (spec_directive(items@) matches Some((toks, fr)) && fr
                && toks.len() > 1 && (toks[0].value matches TokenValue::IntConstant(v) && v >= 0
                && supported_version(v as u64)) && (toks[1].value matches TokenValue::Identifier(
            nm) && !valid_profile(toks[0].value->IntConstant_0 as u64, nm@)))) ==> (r matches Err(
                es,
            ) && es@.len() == 1),
            // success is owed: a stream holding nothing but a well-formed
            // leading directive parses to the empty module
            (items@.len() == 1 && (spec_directive(items@) matches Some((toks, fr)) && fr
                && toks.len() > 0 && (toks[0].value matches TokenValue::IntConstant(v) && v >= 0
                && supported_version(v as u64)) && (toks.len() == 1 || (
            toks[1].value matches TokenValue::Identifier(nm) && valid_profile(
                toks[0].value->IntConstant_0 as u64,
                nm@,
            ))))) ==> (r matches Ok(m) && m.constants@.len() == 0 && m.globals@.len() == 0
                && m.structs@.len() == 0 && m.functions@.len() == 0),
    {
        let mut scopes: Vec<Vec<(String, SymDecl)>> = Vec::new();
        scopes.push(Vec::new());
        let mut ctx = Ctx {
            items,
            pos: 0,
            errors: Vec::new(),
            scopes,
            overloads: Vec::new(),
            module: Module {
                version: 450,
                profile: Profile::Core,
                constants: Vec::new(),
                globals: Vec::new(),
                structs: Vec::new(),
                functions: Vec::new(),
            },
        };
        ctx.seed_builtins();
        proof {
            assert(ctx.items@.skip(0) =~= ctx.items@);
            assert(ctx.items@.skip(0) == ctx.items@);
        }
        let md = match ctx.take_directive() {
            Some((toks, is_first, dmeta)) => {
                proof {
                    assert(Seq::<Error>::empty() + spec_relays(items@) =~= spec_relays(items@));
                    assert(ctx.errors@ == spec_relays(items@));
                }
                parse_version(&toks, is_first, dmeta, &mut ctx.errors)
            },
            None => {
                proof {
                    assert(Seq::<Error>::empty() + spec_relays(items@) =~= spec_relays(items@));
                    assert(ctx.errors@ == spec_relays(items@));
                }
                let meta = SourceMetadata { start: 0, end: 0 };
                ctx.errors.push(semantic_error("Missing version directive", meta));
                self.meta = Metadata { version: 450, profile: Profile::Core };
                return Err(ctx.errors);
            },
        };
        self.meta = md;
        let ghost base: Seq<Error> = ctx.errors@;
        proof {
            assert(errors_grow(spec_relays(items@), base));
        }
        if ctx.pos < ctx.items.len() {
            loop
                invariant
                    ctx.wf(),
                    errors_grow(base, ctx.errors@),
                decreases ctx.items@.len() - ctx.pos,
            {
                if ctx.pos >= ctx.items.len() {
                    break ;
                }
                let before = ctx.pos;
                ctx.parse_top_decl(64);
                if ctx.pos <= before {
                    break ;
                }
            }
        }
        proof {
            assert(errors_grow(base, ctx.errors@));
            assert(errors_grow(spec_relays(items@), ctx.errors@));
        }
        ctx.module.version = md.version;
        ctx.module.profile = md.profile;
        if ctx.errors.len() > 0 {
            Err(ctx.errors)
        } else {
            Ok(ctx.module)
        }
    }

    /// The primary operation: preprocesses and parses one GLSL source
    /// under the given options. Success hands back the module; failure a
    /// non-empty diagnostic list in source order.
    pub fn parse(&mut self, options: &crate::Options, source: &str) -> (r: Result<
        Module,
        Vec<Error>,
    >)
        ensures
            supported_version(final(self).spec_metadata().version),
            match r {
                Ok(m) => {
                    &&& m.version == final(self).spec_metadata().version
                    &&& m.profile == final(self).spec_metadata().profile
                    &&& constants_unique(m.constants@)
                    &&& structs_have_members(m.structs@)
                },
                Err(es) => es@.len() > 0,
            },
    {
        let items = lex(source, &options.defines);
        self.parse_items(items)
    }
}

/// Three copies of one type, the parameter list of a componentwise
/// built-in.
fn triple(t: Type) -> (r: Vec<Type>)
    ensures
        r@.len() == 3,
{
    let mut v: Vec<Type> = Vec::new();
    v.push(t);
    v.push(t);
    v.push(t);
    v
}

} // verus!
