//! The values of type variables during inference.
use vstd::prelude::*;

use crate::ast::Type;
use crate::ast_eq::ty_eq;
use crate::diag::to_owned_string;
use crate::display::show_ty;
use crate::name::Name;

use super::primitives::floats;
use super::primitives::ints;
use super::primitives::spec_floats;
use super::primitives::spec_ints;

verus! {

/// What a type variable stands for: a known type, or a still unknown type of some kind.
#[derive(Debug)]
pub enum TypeVarValue {
    Known(Type),
    Unknown(TypeVarKind),
}

/// The kind of an unknown type: any type, or one of the integer or float types.
#[derive(Debug, Copy, Clone, PartialEq, Eq, Structural, Hash)]
pub enum TypeVarKind {
    General,
    Int,
    Float,
}

/// Two kinds can be merged when one is `General` or both are the same.
pub open spec fn spec_mergeable(a: TypeVarKind, b: TypeVarKind) -> bool {
    a is General || b is General || a == b
}

/// The merge of two mergeable kinds: the more specific one.
pub open spec fn spec_merge(a: TypeVarKind, b: TypeVarKind) -> TypeVarKind {
    if a is General {
        b
    } else {
        a
    }
}

impl TypeVarKind {
    pub fn is_mergeable(self, other: TypeVarKind) -> (b: bool)
        ensures
            b == spec_mergeable(self, other),
    {
        match (self, other) {
            (TypeVarKind::General, _) | (_, TypeVarKind::General) => true,
            (TypeVarKind::Int, TypeVarKind::Int) => true,
            (TypeVarKind::Float, TypeVarKind::Float) => true,
            _ => false,
        }
    }

    /// The merge of two kinds, which must be mergeable.
    pub fn merge(self, other: TypeVarKind) -> (k: TypeVarKind)
        requires
            spec_mergeable(self, other),
        ensures
            k == spec_merge(self, other),
    {
        match (self, other) {
            (TypeVarKind::General, k) | (k, TypeVarKind::General) => k,
            (TypeVarKind::Int, TypeVarKind::Int) => TypeVarKind::Int,
            (TypeVarKind::Float, TypeVarKind::Float) => TypeVarKind::Float,
            _ => vstd::pervasive::unreached(),
        }
    }

    pub fn is_int(self) -> (b: bool)
        ensures
            b == (self is Int),
    {
        match self {
            TypeVarKind::Int => true,
            _ => false,
        }
    }

    pub fn is_float(self) -> (b: bool)
        ensures
            b == (self is Float),
    {
        match self {
            TypeVarKind::Float => true,
            _ => false,
        }
    }

    pub fn is_general(self) -> (b: bool)
        ensures
            b == (self is General),
    {
        match self {
            TypeVarKind::General => true,
            _ => false,
        }
    }
}

/// Merging kinds is commutative and associative, `General` is its unit, every kind merges
/// with itself into itself, and a merge is mergeable with both of its inputs.
pub proof fn lemma_merge_laws(a: TypeVarKind, b: TypeVarKind, c: TypeVarKind)
    ensures
        spec_mergeable(a, b) == spec_mergeable(b, a),
        spec_mergeable(a, b) ==> spec_merge(a, b) == spec_merge(b, a),
        spec_mergeable(a, b) && spec_mergeable(spec_merge(a, b), c) ==> spec_mergeable(b, c)
            && spec_mergeable(a, spec_merge(b, c)) && spec_merge(spec_merge(a, b), c) == spec_merge(
            a,
            spec_merge(b, c),
        ),
        spec_mergeable(TypeVarKind::General, a) && spec_merge(TypeVarKind::General, a) == a,
        spec_mergeable(a, a) && spec_merge(a, a) == a,
        spec_mergeable(a, b) ==> spec_mergeable(spec_merge(a, b), a) && spec_mergeable(
            spec_merge(a, b),
            b,
        ),
{
}

/// Unifying values keeps the known type, or merges the kinds of two unknowns.
pub open spec fn spec_unify_values(t0: TypeVarValue, t1: TypeVarValue, r: TypeVarValue) -> bool {
    match (t0, t1) {
        (TypeVarValue::Unknown(k0), TypeVarValue::Unknown(k1)) => r == TypeVarValue::Unknown(
            spec_merge(k0, k1),
        ),
        (TypeVarValue::Unknown(_), TypeVarValue::Known(t)) => r matches TypeVarValue::Known(u)
            && ty_eq(t, u),
        (TypeVarValue::Known(t), TypeVarValue::Unknown(_)) => r matches TypeVarValue::Known(u)
            && ty_eq(t, u),
        (TypeVarValue::Known(_), TypeVarValue::Known(_)) => false,
    }
}

/// Whether two values may be unified: not both known, and mergeable kinds when both unknown.
pub open spec fn spec_unifiable(t0: TypeVarValue, t1: TypeVarValue) -> bool {
    match (t0, t1) {
        (TypeVarValue::Unknown(k0), TypeVarValue::Unknown(k1)) => spec_mergeable(k0, k1),
        (TypeVarValue::Known(_), TypeVarValue::Known(_)) => false,
        _ => true,
    }
}

impl TypeVarValue {
    pub fn known(self) -> (r: Option<Type>)
        ensures
            self matches TypeVarValue::Known(t) ==> r == Some(t),
            self is Unknown ==> r is None,
    {
        match self {
            TypeVarValue::Known(t) => Some(t),
            TypeVarValue::Unknown(_) => None,
        }
    }

    pub fn unknown(self) -> (r: Option<TypeVarKind>)
        ensures
            self matches TypeVarValue::Unknown(k) ==> r == Some(k),
            self is Known ==> r is None,
    {
        match self {
            TypeVarValue::Known(_) => None,
            TypeVarValue::Unknown(k) => Some(k),
        }
    }

    /// A copy of the value.
    pub fn deep_clone(&self) -> (r: TypeVarValue)
        ensures
            match *self {
                TypeVarValue::Known(t) => r matches TypeVarValue::Known(u) && ty_eq(t, u),
                TypeVarValue::Unknown(k) => r == TypeVarValue::Unknown(k),
            },
    {
        match self {
            TypeVarValue::Known(t) => TypeVarValue::Known(t.deep_clone()),
            TypeVarValue::Unknown(k) => TypeVarValue::Unknown(*k),
        }
    }

    /// The value of the union of two type variables. Two known values are never unified:
    /// inference first checks that their types agree and unifies those instead.
    pub fn unify_values(t0: &TypeVarValue, t1: &TypeVarValue) -> (r: TypeVarValue)
        requires
            spec_unifiable(*t0, *t1),
        ensures
            spec_unify_values(*t0, *t1, r),
    {
        match (t0, t1) {
            (TypeVarValue::Unknown(k1), TypeVarValue::Unknown(k2)) => TypeVarValue::Unknown(
                k1.merge(*k2),
            ),
            (TypeVarValue::Unknown(_), t) => t.deep_clone(),
            (t, TypeVarValue::Unknown(_)) => t.deep_clone(),
            (TypeVarValue::Known(_), TypeVarValue::Known(_)) => vstd::pervasive::unreached(),
        }
    }
}

/// A type can stand for an unknown of kind `k`: any type for `General`, and for `Int` or
/// `Float` one of the integer or float types by name.
pub open spec fn spec_unifiable_with(k: TypeVarKind, t: Type) -> bool {
    ||| k is General
    ||| t matches Type::Cons(x, _) && ((k is Int && spec_ints().contains(x@)) || (k is Float
        && spec_floats().contains(x@)))
}

/// Whether `x` is one of `names`.
fn name_in(x: &Name, names: &Vec<Name>) -> (r: bool)
    ensures
        r == names@.map_values(|n: Name| n@).contains(x@),
{
    let ghost views = names@.map_values(|n: Name| n@);
    let mut i: usize = 0;
    while i < names.len()
        invariant
            views == names@.map_values(|n: Name| n@),
            i <= names@.len(),
            forall|j: int| 0 <= j < i ==> names@[j]@ != x@,
        decreases names@.len() - i,
    {
        if names[i] == *x {
            proof {
                assert(views[i as int] == x@);
            }
            return true;
        }
        i = i + 1;
    }
    proof {
        if views.contains(x@) {
            let j = choose|j: int| 0 <= j < views.len() && views[j] == x@;
            assert(names@[j]@ == x@);
        }
    }
    false
}

impl TypeVarKind {
    pub fn is_int_var(self) -> (b: bool)
        ensures
            b == (self is Int),
    {
        self.is_int()
    }

    pub fn is_float_var(self) -> (b: bool)
        ensures
            b == (self is Float),
    {
        self.is_float()
    }

    /// Whether `t` can stand for an unknown of this kind.
    pub fn is_unifiable_with(self, t: &Type) -> (b: bool)
        ensures
            b == spec_unifiable_with(self, *t),
    {
        if self.is_general() {
            return true;
        }
        match t {
            Type::Cons(x, _) => {
                let is = ints();
                let fs = floats();
                proof {
                    assert(is@.map_values(|n: Name| n@) =~= spec_ints());
                    assert(fs@.map_values(|n: Name| n@) =~= spec_floats());
                }
                (self.is_int_var() && name_in(x, &is)) || (self.is_float_var() && name_in(x, &fs))
            },
            _ => false,
        }
    }
}

/// The text of a kind.
pub open spec fn show_kind(k: TypeVarKind) -> Seq<char> {
    match k {
        TypeVarKind::General => "{general}"@,
        TypeVarKind::Int => "{int}"@,
        TypeVarKind::Float => "{float}"@,
    }
}

/// The text of a value: its type when known.
pub open spec fn show_type_var_value(v: TypeVarValue) -> Seq<char> {
    match v {
        TypeVarValue::Known(t) => show_ty(t),
        TypeVarValue::Unknown(_) => "<unknown>"@,
    }
}

impl TypeVarKind {
    pub fn to_text(&self) -> (s: String)
        ensures
            s@ == show_kind(*self),
    {
        match self {
            TypeVarKind::General => to_owned_string("{general}"),
            TypeVarKind::Int => to_owned_string("{int}"),
            TypeVarKind::Float => to_owned_string("{float}"),
        }
    }
}

impl TypeVarValue {
    pub fn to_text(&self) -> (s: String)
        ensures
            s@ == show_type_var_value(*self),
    {
        match self {
            TypeVarValue::Known(t) => t.to_text(),
            TypeVarValue::Unknown(_) => to_owned_string("<unknown>"),
        }
    }
}

} // verus!
