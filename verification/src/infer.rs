//! Type inference: type variables, the goals it must solve, and scopes of variables.
use vstd::prelude::*;

use crate::ast::TraitBound;
use crate::ast::Type;
use crate::map::VecMap;
use crate::name::Name;
use crate::span::Span;

pub mod decls;
pub mod expand;
pub mod impl_var;
pub mod instantiate;
pub mod primitives;
pub mod solver;
pub mod type_var;

verus! {

/// The type an integer literal gets when nothing else decides it: `i32`.
pub fn default_int() -> (t: Type)
    ensures
        t matches Type::Cons(x, ts) && x@ == "i32"@ && ts@.len() == 0,
{
    Type::Cons(Name::from_str("i32"), Vec::new())
}

/// The type a float literal gets when nothing else decides it: `f64`.
pub fn default_float() -> (t: Type)
    ensures
        t matches Type::Cons(x, ts) && x@ == "f64"@ && ts@.len() == 0,
{
    Type::Cons(Name::from_str("f64"), Vec::new())
}

/// The variables in scope in one block, with the span of their binding and their type.
#[derive(Debug)]
pub struct VarScope(pub VecMap<Name, (Span, Type)>);

/// A trait bound that inference must prove, and where it was needed.
#[derive(Debug)]
pub struct Goal {
    pub s: Span,
    pub tr: TraitBound,
}

impl Goal {
    pub fn new(s: Span, tr: TraitBound) -> (g: Goal)
        ensures
            g.s == s,
            g.tr == tr,
    {
        Goal { s, tr }
    }
}

impl VarScope {
    pub fn new() -> (v: VarScope)
        ensures
            v.0@.len() == 0,
    {
        VarScope(VecMap::new())
    }
}

} // verus!
