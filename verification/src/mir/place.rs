//! Comparing and copying places and constants.
use vstd::prelude::*;

use crate::ast::Index;
use crate::ast::Type;
use crate::ast_eq::lemma_ty_eq;
use crate::ast_eq::same_type;
use crate::ast_eq::ty_eq;

use super::Constant;
use super::Local;
use super::Place;
use super::PlaceElem;

verus! {

/// Two steps into a place are the same: the same field name, or the same index.
pub open spec fn elem_eq(a: PlaceElem, b: PlaceElem) -> bool {
    match (a, b) {
        (PlaceElem::Field(x), PlaceElem::Field(y)) => x@ == y@,
        (PlaceElem::Index(i), PlaceElem::Index(j)) => i.span == j.span && i.data == j.data,
        _ => false,
    }
}

/// What tells places apart: the name and type of the local, and the steps into it.
#[verifier::ext_equal]
pub struct PlaceKey {
    pub name: Seq<char>,
    pub ty: Type,
    pub elems: Seq<PlaceElem>,
}

/// The key of a place.
pub open spec fn place_key(p: Place) -> PlaceKey {
    PlaceKey { name: p.local.name@, ty: p.local.ty, elems: p.elems@ }
}

/// The key of the place that is a whole local.
pub open spec fn local_key(l: Local) -> PlaceKey {
    PlaceKey { name: l.name@, ty: l.ty, elems: Seq::empty() }
}

/// Two keys are the same: the same name, the same type in the sense of `ty_eq`, and the same
/// steps.
pub open spec fn key_eq(a: PlaceKey, b: PlaceKey) -> bool {
    &&& a.name == b.name
    &&& ty_eq(a.ty, b.ty)
    &&& a.elems.len() == b.elems.len()
    &&& forall|k: int| 0 <= k < a.elems.len() ==> #[trigger] elem_eq(a.elems[k], b.elems[k])
}

/// Two places are the same: the same local, by name and type, and the same steps into it.
pub open spec fn place_eq(a: Place, b: Place) -> bool {
    key_eq(place_key(a), place_key(b))
}

/// Equality of keys is reflexive, symmetric and transitive.
pub proof fn lemma_key_eq(a: PlaceKey, b: PlaceKey, c: PlaceKey)
    ensures
        key_eq(a, a),
        key_eq(a, b) ==> key_eq(b, a),
        key_eq(a, b) && key_eq(b, c) ==> key_eq(a, c),
{
    lemma_ty_eq(a.ty, b.ty, c.ty);
    if key_eq(a, b) {
        assert forall|k: int| 0 <= k < b.elems.len() implies #[trigger] elem_eq(
            b.elems[k],
            a.elems[k],
        ) by {
            assert(elem_eq(a.elems[k], b.elems[k]));
        }
        if key_eq(b, c) {
            assert forall|k: int| 0 <= k < a.elems.len() implies #[trigger] elem_eq(
                a.elems[k],
                c.elems[k],
            ) by {
                assert(elem_eq(a.elems[k], b.elems[k]));
                assert(elem_eq(b.elems[k], c.elems[k]));
            }
        }
    }
}

/// Equality of places is reflexive, symmetric and transitive.
pub proof fn lemma_place_eq(a: Place, b: Place, c: Place)
    ensures
        place_eq(a, a),
        place_eq(a, b) ==> place_eq(b, a),
        place_eq(a, b) && place_eq(b, c) ==> place_eq(a, c),
{
    lemma_key_eq(place_key(a), place_key(b), place_key(c));
}

fn same_elem(a: &PlaceElem, b: &PlaceElem) -> (r: bool)
    ensures
        r == elem_eq(*a, *b),
{
    match (a, b) {
        (PlaceElem::Field(x), PlaceElem::Field(y)) => x == y,
        (PlaceElem::Index(i), PlaceElem::Index(j)) => i.span.file == j.span.file && i.span.start
            == j.span.start && i.span.end == j.span.end && i.data == j.data,
        _ => false,
    }
}

/// Whether two places are the same, in the sense of `place_eq`.
pub fn same_place(a: &Place, b: &Place) -> (r: bool)
    ensures
        r == place_eq(*a, *b),
{
    if !(a.local.name == b.local.name) || !same_type(&a.local.ty, &b.local.ty) {
        return false;
    }
    if a.elems.len() != b.elems.len() {
        return false;
    }
    let mut k: usize = 0;
    while k < a.elems.len()
        invariant
            a.elems@.len() == b.elems@.len(),
            k <= a.elems@.len(),
            forall|j: int| 0 <= j < k ==> #[trigger] elem_eq(a.elems@[j], b.elems@[j]),
        decreases a.elems@.len() - k,
    {
        if !same_elem(&a.elems[k], &b.elems[k]) {
            return false;
        }
        k = k + 1;
    }
    true
}

/// A copy of a place.
pub fn clone_place(p: &Place) -> (r: Place)
    ensures
        place_eq(*p, r),
{
    let mut elems: Vec<PlaceElem> = Vec::new();
    let mut k: usize = 0;
    while k < p.elems.len()
        invariant
            k <= p.elems@.len(),
            elems@.len() == k,
            forall|j: int| 0 <= j < k ==> #[trigger] elem_eq(p.elems@[j], elems@[j]),
        decreases p.elems@.len() - k,
    {
        let e = match &p.elems[k] {
            PlaceElem::Field(x) => PlaceElem::Field(x.clone()),
            PlaceElem::Index(i) => PlaceElem::Index(Index::new(i.span, i.data)),
        };
        elems.push(e);
        k = k + 1;
    }
    let local = Local { name: p.local.name.clone(), ty: p.local.ty.deep_clone() };
    Place { local, elems }
}

/// A copy of a constant.
pub fn clone_constant(c: &Constant) -> (r: Constant)
    ensures
        r == *c,
{
    match c {
        Constant::Int(s) => Constant::Int(s.clone()),
        Constant::Bool(b) => Constant::Bool(*b),
        Constant::String(s) => Constant::String(s.clone()),
        Constant::Float(s) => Constant::Float(s.clone()),
        Constant::Char(x) => Constant::Char(*x),
        Constant::Unit => Constant::Unit,
    }
}

impl Place {
    /// The place that is a whole local.
    pub fn of_local(local: Local) -> (p: Place)
        ensures
            p.local == local,
            p.elems@.len() == 0,
    {
        Place { local, elems: Vec::new() }
    }
}

} // verus!
