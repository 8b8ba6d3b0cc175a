//! The values of implementation variables during inference.
use vstd::prelude::*;

use crate::ast::TraitBound;
use crate::ast_eq::bound_eq;
use crate::ast_eq::clone_bound;
use crate::diag::to_owned_string;
use crate::display::show_trait;

verus! {

/// What an implementation variable stands for: a known trait bound, or nothing yet.
#[derive(Debug)]
pub enum ImplVarValue {
    Known(TraitBound),
    Unknown,
}

/// The bound that a value holds, if it is known.
pub open spec fn known_of(v: ImplVarValue) -> Option<TraitBound> {
    match v {
        ImplVarValue::Known(b) => Some(b),
        ImplVarValue::Unknown => None,
    }
}

/// A value is unknown exactly when it holds no bound; a known value holds its bound.
pub proof fn lemma_unknown_iff_no_bound(v: ImplVarValue, b: TraitBound)
    ensures
        (v is Unknown) == (known_of(v) is None),
        known_of(ImplVarValue::Known(b)) == Some(b),
        known_of(ImplVarValue::Unknown) is None,
{
}

impl ImplVarValue {
    pub fn known(self) -> (r: Option<TraitBound>)
        ensures
            r == known_of(self),
    {
        match self {
            ImplVarValue::Known(b) => Some(b),
            ImplVarValue::Unknown => None,
        }
    }

    pub fn is_unknown(self) -> (r: bool)
        ensures
            r == (self is Unknown),
    {
        match self {
            ImplVarValue::Known(_) => false,
            ImplVarValue::Unknown => true,
        }
    }

    /// The value of the union of two implementation variables, of which at most one is known:
    /// the known bound if there is one, else `Unknown`.
    pub fn unify_values(t0: &ImplVarValue, t1: &ImplVarValue) -> (r: ImplVarValue)
        requires
            !(t0 is Known && t1 is Known),
        ensures
            t0 is Unknown && t1 is Unknown ==> r is Unknown,
            *t0 matches ImplVarValue::Known(b) ==> r matches ImplVarValue::Known(c) && bound_eq(b, c),
            *t1 matches ImplVarValue::Known(b) ==> r matches ImplVarValue::Known(c) && bound_eq(b, c),
    {
        match (t0, t1) {
            (ImplVarValue::Unknown, ImplVarValue::Unknown) => ImplVarValue::Unknown,
            (ImplVarValue::Unknown, ImplVarValue::Known(b)) => ImplVarValue::Known(clone_bound(b)),
            (ImplVarValue::Known(b), ImplVarValue::Unknown) => ImplVarValue::Known(clone_bound(b)),
            (ImplVarValue::Known(_), ImplVarValue::Known(_)) => vstd::pervasive::unreached(),
        }
    }
}

/// The text of a value: its bound when known.
pub open spec fn show_impl_var_value(v: ImplVarValue) -> Seq<char> {
    match v {
        ImplVarValue::Known(b) => show_trait(b),
        ImplVarValue::Unknown => "<unknown>"@,
    }
}

impl ImplVarValue {
    pub fn to_text(&self) -> (s: String)
        ensures
            s@ == show_impl_var_value(*self),
    {
        match self {
            ImplVarValue::Known(b) => b.to_text(),
            ImplVarValue::Unknown => to_owned_string("<unknown>"),
        }
    }
}

} // verus!
