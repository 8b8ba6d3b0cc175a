//! The built-in types that inference gives to literals and conditions.
use vstd::prelude::*;

use crate::ast::Type;
use crate::name::Name;

verus! {

/// The names of the integer types, in the order in which defaulting tries them.
pub open spec fn spec_ints() -> Seq<Seq<char>> {
    seq!["i8"@, "i32"@, "i64"@, "i128"@, "u8"@, "u32"@, "u64"@, "u128"@]
}

/// The names of the float types.
pub open spec fn spec_floats() -> Seq<Seq<char>> {
    seq!["f32"@, "f64"@]
}

/// The names of the integer types.
pub fn ints() -> (r: Vec<Name>)
    ensures
        r@.len() == spec_ints().len(),
        forall|i: int| 0 <= i < r@.len() ==> #[trigger] r@[i]@ == spec_ints()[i],
{
    let mut r: Vec<Name> = Vec::new();
    r.push(Name::from_str("i8"));
    r.push(Name::from_str("i32"));
    r.push(Name::from_str("i64"));
    r.push(Name::from_str("i128"));
    r.push(Name::from_str("u8"));
    r.push(Name::from_str("u32"));
    r.push(Name::from_str("u64"));
    r.push(Name::from_str("u128"));
    r
}

/// The names of the float types.
pub fn floats() -> (r: Vec<Name>)
    ensures
        r@.len() == spec_floats().len(),
        forall|i: int| 0 <= i < r@.len() ==> #[trigger] r@[i]@ == spec_floats()[i],
{
    let mut r: Vec<Name> = Vec::new();
    r.push(Name::from_str("f32"));
    r.push(Name::from_str("f64"));
    r
}

/// The type constructor `x` applied to no arguments.
pub open spec fn is_cons0(t: Type, x: Seq<char>) -> bool {
    t matches Type::Cons(y, ts) && y@ == x && ts@.len() == 0
}

/// The type of conditions, `bool`.
pub fn bool() -> (t: Type)
    ensures
        is_cons0(t, "bool"@),
{
    Type::Cons(Name::from_str("bool"), Vec::new())
}

/// The type of character literals, `char`.
pub fn char() -> (t: Type)
    ensures
        is_cons0(t, "char"@),
{
    Type::Cons(Name::from_str("char"), Vec::new())
}

/// The unit type, the empty tuple.
pub fn unit() -> (t: Type)
    ensures
        t matches Type::Tuple(ts) && ts@.len() == 0,
{
    Type::Tuple(Vec::new())
}

/// The type of string literals, `String`.
pub fn string() -> (t: Type)
    ensures
        is_cons0(t, "String"@),
{
    Type::Cons(Name::from_str("String"), Vec::new())
}

/// The type an integer literal gets when nothing else decides it, `i32`.
pub fn default_int() -> (t: Type)
    ensures
        is_cons0(t, "i32"@),
{
    Type::Cons(Name::from_str("i32"), Vec::new())
}

/// The type a float literal gets when nothing else decides it, `f64`.
pub fn default_float() -> (t: Type)
    ensures
        is_cons0(t, "f64"@),
{
    Type::Cons(Name::from_str("f64"), Vec::new())
}

} // verus!
