//! Scalar/vector/matrix type descriptions, the implicit-conversion order
//! with its ranking, and the swizzle validator.
use vstd::prelude::*;

verus! {

/// The scalar kinds. Implicit widening runs along `scalar_conv_cost`:
/// signed integers widen to unsigned integers or to floats, unsigned
/// integers widen to floats, and nothing else converts implicitly.
#[derive(Clone, Copy, Debug, PartialEq, Eq, Structural)]
pub enum ScalarKind {
    Sint,
    Uint,
    Float,
    Bool,
}

/// A non-array type.
#[derive(Clone, Copy, Debug, PartialEq, Eq, Structural)]
pub enum PlainType {
    Void,
    Scalar(ScalarKind),
    /// Component kind and arity (2 to 4).
    Vector(ScalarKind, u8),
    /// Columns and rows; components are floating.
    Matrix(u8, u8),
    /// Index into the module's struct types, in declaration order.
    Struct(usize),
    Image2D,
    Sampler,
    CombinedImageSampler,
}

/// A type as it appears on declarations: plain, or a sized array of a
/// plain element type.
#[derive(Clone, Copy, Debug, PartialEq, Eq, Structural)]
pub enum Type {
    Plain(PlainType),
    Array(PlainType, u64),
}

/// Cost of implicitly converting one scalar kind into another: 0 for the
/// kind itself, 1 along a widening edge, none otherwise. Signed and
/// unsigned integers tie on their conversions, and no conversion narrows
/// a float back into an integer kind.
pub open spec fn spec_scalar_conv_cost(from: ScalarKind, to: ScalarKind) -> Option<u32> {
    if from == to {
        Some(0u32)
    } else {
        match (from, to) {
            (ScalarKind::Sint, ScalarKind::Uint) => Some(1u32),
            (ScalarKind::Sint, ScalarKind::Float) => Some(1u32),
            (ScalarKind::Uint, ScalarKind::Float) => Some(1u32),
            _ => None,
        }
    }
}

/// Cost of implicitly converting an argument type into a parameter type:
/// exact matches cost 0, scalars and same-arity vectors convert
/// componentwise, and no other conversion exists.
pub open spec fn spec_conv_cost(from: Type, to: Type) -> Option<u32> {
    if from == to {
        Some(0u32)
    } else {
        match (from, to) {
            (Type::Plain(PlainType::Scalar(a)), Type::Plain(PlainType::Scalar(b))) => (
            spec_scalar_conv_cost(a, b)),
            (Type::Plain(PlainType::Vector(a, n)), Type::Plain(PlainType::Vector(b, m))) => (if n
                == m {
                spec_scalar_conv_cost(a, b)
            } else {
                None
            }),
            _ => None,
        }
    }
}

/// Executable conversion ranking; agrees exactly with `spec_conv_cost`.
pub fn conv_cost(from: Type, to: Type) -> (r: Option<u32>)
    ensures
        r == spec_conv_cost(from, to),
{
    if from == to {
        return Some(0u32);
    }
    match (from, to) {
        (Type::Plain(PlainType::Scalar(a)), Type::Plain(PlainType::Scalar(b))) => scalar_conv_cost(
            a,
            b,
        ),
        (Type::Plain(PlainType::Vector(a, n)), Type::Plain(PlainType::Vector(b, m))) => {
            if n == m {
                scalar_conv_cost(a, b)
            } else {
                None
            }
        },
        _ => None,
    }
}

fn scalar_conv_cost(from: ScalarKind, to: ScalarKind) -> (r: Option<u32>)
    ensures
        r == spec_scalar_conv_cost(from, to),
{
    if from == to {
        return Some(0u32);
    }
    match (from, to) {
        (ScalarKind::Sint, ScalarKind::Uint) => Some(1u32),
        (ScalarKind::Sint, ScalarKind::Float) => Some(1u32),
        (ScalarKind::Uint, ScalarKind::Float) => Some(1u32),
        _ => None,
    }
}

/// Which component-naming set a character belongs to: 0 for positional
/// (xyzw), 1 for color (rgba), 2 for texture coordinates (stpq), and -1
/// for a character that names no component.
pub open spec fn comp_set(c: char) -> int {
    if c == 'x' || c == 'y' || c == 'z' || c == 'w' {
        0
    } else if c == 'r' || c == 'g' || c == 'b' || c == 'a' {
        1
    } else if c == 's' || c == 't' || c == 'p' || c == 'q' {
        2
    } else {
        -1
    }
}

/// Positional index of a component character within its naming set.
pub open spec fn comp_idx(c: char) -> u8 {
    if c == 'x' || c == 'r' || c == 's' {
        0u8
    } else if c == 'y' || c == 'g' || c == 't' {
        1u8
    } else if c == 'z' || c == 'b' || c == 'p' {
        2u8
    } else {
        3u8
    }
}

/// One character of a swizzle is acceptable when it names a component of
/// the same set as the swizzle's first character and its index falls
/// short of the source arity.
pub open spec fn valid_component(c: char, first: char, arity: u8) -> bool {
    &&& comp_set(c) == comp_set(first)
    &&& comp_set(c) >= 0
    &&& comp_idx(c) < arity
}

/// Legality of a swizzle over a vector of the given arity. Every
/// character must name a component, all from the naming set of the first
/// character, and each index must fall short of the arity. One to four
/// characters are read; a write additionally forbids repeated components
/// and may not widen past the source arity.
pub open spec fn valid_swizzle(name: Seq<char>, arity: u8, write: bool) -> bool {
    &&& 1 <= name.len() <= 4
    &&& forall|i: int| 0 <= i < name.len() ==> valid_component(#[trigger] name[i], name[0], arity)
    &&& (write ==> name.len() <= arity)
    &&& (write ==> forall|i: int, j: int|
        #![trigger name[i], name[j]]
        0 <= i < j < name.len() ==> comp_idx(name[i]) != comp_idx(name[j]))
}

fn comp_set_exec(c: char) -> (r: i32)
    ensures
        r as int == comp_set(c),
{
    if c == 'x' || c == 'y' || c == 'z' || c == 'w' {
        0
    } else if c == 'r' || c == 'g' || c == 'b' || c == 'a' {
        1
    } else if c == 's' || c == 't' || c == 'p' || c == 'q' {
        2
    } else {
        -1
    }
}

fn comp_idx_exec(c: char) -> (r: u8)
    ensures
        r == comp_idx(c),
{
    if c == 'x' || c == 'r' || c == 's' {
        0u8
    } else if c == 'y' || c == 'g' || c == 't' {
        1u8
    } else if c == 'z' || c == 'b' || c == 'p' {
        2u8
    } else {
        3u8
    }
}

/// Validates a swizzle and returns its component indices in order, or
/// nothing exactly when the swizzle is illegal for the arity and mode.
#[verifier::loop_isolation(false)]
pub fn check_swizzle(name: &str, arity: u8, write: bool) -> (r: Option<Vec<u8>>)
    ensures
        match r {
            Some(v) => {
                &&& valid_swizzle(name@, arity, write)
                &&& v@.len() == name@.len()
                &&& forall|i: int| 0 <= i < v@.len() ==> v@[i] == comp_idx(name@[i])
            },
            None => !valid_swizzle(name@, arity, write),
        },
{
    let n = name.unicode_len();
    if n < 1 || n > 4 {
        return None;
    }
    if write && n > arity as usize {
        return None;
    }
    let set0 = comp_set_exec(name.get_char(0));
    let mut comps: Vec<u8> = Vec::new();
    let mut i: usize = 0;
    while i < n
        invariant
            1 <= n <= 4,
            n == name@.len(),
            i <= n,
            set0 as int == comp_set(name@[0]),
            comps@.len() == i,
            write ==> n <= arity,
            forall|k: int| 0 <= k < i ==> valid_component(#[trigger] name@[k], name@[0], arity),
            forall|k: int| 0 <= k < i ==> comps@[k] == comp_idx(name@[k]),
        decreases n - i,
    {
        let c = name.get_char(i);
        let s = comp_set_exec(c);
        let idx = comp_idx_exec(c);
        if s < 0 || s != set0 || idx >= arity {
            return None;
        }
        comps.push(idx);
        i = i + 1;
    }
    if write {
        let mut a: usize = 0;
        while a < comps.len()
            invariant
                comps@.len() == n,
                n == name@.len(),
                a <= n,
                forall|k: int| 0 <= k < n ==> comps@[k] == comp_idx(name@[k]),
                forall|p: int, q: int|
                    #![trigger comps@[p], comps@[q]]
                    0 <= p < q < n && p < a ==> comps@[p] != comps@[q],
            decreases n - a,
        {
            let mut b: usize = a + 1;
            while b < comps.len()
                invariant
                    comps@.len() == n,
                    a < n ==> a + 1 <= b <= n,
                    a < n,
                    forall|q: int| a < q < b ==> comps@[a as int] != #[trigger] comps@[q],
                decreases n - b,
            {
                if comps[a] == comps[b] {
                    return None;
                }
                b = b + 1;
            }
            a = a + 1;
        }
    }
    proof {
        if write {
            assert forall|p: int, q: int|
                #![trigger name@[p], name@[q]]
                0 <= p < q < name@.len() implies comp_idx(name@[p]) != comp_idx(name@[q]) by {
                assert(comps@[p] == comp_idx(name@[p]));
                assert(comps@[q] == comp_idx(name@[q]));
                assert(comps@[p] != comps@[q]);
            }
        }
    }
    Some(comps)
}

/// Law: a write swizzle that repeats a component character is illegal,
/// whatever the arity.
pub proof fn lemma_swizzle_write_repeat_invalid(name: Seq<char>, arity: u8, i: int, j: int)
    requires
        0 <= i < j < name.len(),
        name[i] == name[j],
    ensures
        !valid_swizzle(name, arity, true),
{
    if valid_swizzle(name, arity, true) {
        assert(comp_idx(name[i]) != comp_idx(name[j]));
    }
}

/// Law: a swizzle naming a component at or past the source arity is
/// illegal, for reads and writes alike.
pub proof fn lemma_swizzle_out_of_arity_invalid(name: Seq<char>, arity: u8, write: bool, i: int)
    requires
        0 <= i < name.len(),
        comp_idx(name[i]) >= arity,
    ensures
        !valid_swizzle(name, arity, write),
{
    if valid_swizzle(name, arity, write) {
        assert(valid_component(name[i], name[0], arity));
    }
}

} // verus!
