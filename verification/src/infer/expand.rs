//! Expanding associated types whose bounds bind them.
use vstd::prelude::*;

use crate::ast::Path;
use crate::ast::Segment;
use crate::ast::TraitBound;
use crate::ast::Type;
use crate::ast_eq::inner_or;
use crate::ast_eq::named_eq;
use crate::ast_eq::path_eq;
use crate::ast_eq::seg_eq;
use crate::ast_eq::segs_eq;
use crate::ast_eq::ty_eq;
use crate::ast_eq::tys_eq;
use crate::infer::instantiate::named_rw;
use crate::infer::instantiate::path_rw;
use crate::infer::instantiate::seg_rw;
use crate::infer::instantiate::segs_rw;
use crate::infer::instantiate::tys_rw;
use crate::name::Name;
use crate::infer::instantiate::bound_rw;
use crate::infer::instantiate::rewrite_bound;
use crate::infer::instantiate::rewrite_type;
use crate::infer::instantiate::rewritten;
use crate::infer::instantiate::Rewrite;

verus! {

/// The expansion of associated types.
pub struct Expand;

impl Expand {
    pub fn new() -> (e: Expand) {
        Expand
    }

    /// `t` with each associated type `b::x` whose bound `b` binds `x` replaced by that type.
    pub fn map_type(&self, t: &Type) -> (r: Type)
        ensures
            rewritten(Rewrite::Assoc, *t, r),
    {
        rewrite_type(&Rewrite::Assoc, t)
    }

    pub fn map_trait(&self, b: &TraitBound) -> (r: TraitBound)
        ensures
            bound_rw(Rewrite::Assoc, *b, r),
    {
        rewrite_bound(&Rewrite::Assoc, b)
    }
}

impl TraitBound {
    /// The bound with its associated types expanded.
    pub fn expand(&self) -> (r: TraitBound)
        ensures
            bound_rw(Rewrite::Assoc, *self, r),
    {
        Expand::new().map_trait(self)
    }
}

impl Type {
    /// The type with its associated types expanded: each one that its bound binds is
    /// replaced by the bound type, itself expanded.
    pub fn expand(&self) -> (r: Type)
        ensures
            rewritten(Rewrite::Expand, *self, r),
    {
        rewrite_type(&Rewrite::Expand, self)
    }
}

/// `t` holds no associated type, at any depth.
pub open spec fn no_assoc(t: Type) -> bool
    decreases t,
{
    match t {
        Type::Unresolved(p) => path_no_assoc(p),
        Type::Cons(_, ts) => tys_no_assoc(ts@),
        Type::Alias(_, ts) => tys_no_assoc(ts@),
        Type::Assoc(..) => false,
        Type::Fun(ts, u) => tys_no_assoc(ts@) && no_assoc(*u),
        Type::Tuple(ts) => tys_no_assoc(ts@),
        Type::Record(m) => {
            proof {
                crate::map::lemma_view_decreases(m);
            }
            named_no_assoc(m@)
        },
        Type::Array(u, _) => no_assoc(*u),
        _ => true,
    }
}

pub open spec fn tys_no_assoc(ts: Seq<Type>) -> bool
    decreases ts,
{
    if ts.len() == 0 {
        true
    } else {
        tys_no_assoc(ts.drop_last()) && no_assoc(ts.last())
    }
}

pub open spec fn named_no_assoc(ts: Seq<(Name, Type)>) -> bool
    decreases ts,
{
    if ts.len() == 0 {
        true
    } else {
        named_no_assoc(ts.drop_last()) && no_assoc(ts.last().1)
    }
}

pub open spec fn segs_no_assoc(ss: Seq<Segment>) -> bool
    decreases ss,
{
    if ss.len() == 0 {
        true
    } else {
        segs_no_assoc(ss.drop_last()) && seg_no_assoc(ss.last())
    }
}

pub open spec fn seg_no_assoc(s: Segment) -> bool
    decreases s,
{
    proof {
        crate::map::lemma_view_decreases(s.named_types);
    }
    tys_no_assoc(s.types@) && named_no_assoc(s.named_types@)
}

pub open spec fn path_no_assoc(p: Path) -> bool
    decreases p,
{
    segs_no_assoc(p.segments@)
}

/// Expanding a type that holds no associated type gives the same type back.
pub proof fn lemma_expand_keeps_assoc_free(a: Type, b: Type)
    requires
        no_assoc(a),
        rewritten(Rewrite::Expand, a, b),
    ensures
        ty_eq(a, b),
    decreases a,
{
    match a {
        Type::Unresolved(p) => match b {
            Type::Unresolved(q) => lemma_path_keeps(p, q),
            _ => {},
        },
        Type::Cons(_, ts) => match b {
            Type::Cons(_, us) => lemma_tys_keep(ts@, us@),
            _ => {},
        },
        Type::Alias(_, ts) => match b {
            Type::Alias(_, us) => lemma_tys_keep(ts@, us@),
            _ => {},
        },
        Type::Fun(ts, t) => match b {
            Type::Fun(us, u) => {
                lemma_tys_keep(ts@, us@);
                lemma_expand_keeps_assoc_free(inner_or(a, a), inner_or(b, b));
            },
            _ => {},
        },
        Type::Tuple(ts) => match b {
            Type::Tuple(us) => lemma_tys_keep(ts@, us@),
            _ => {},
        },
        Type::Record(m) => match b {
            Type::Record(n) => {
                crate::map::lemma_view_decreases(m);
                lemma_named_keep(m@, n@);
            },
            _ => {},
        },
        Type::Array(t, _) => match b {
            Type::Array(u, _) => lemma_expand_keeps_assoc_free(inner_or(a, a), inner_or(b, b)),
            _ => {},
        },
        _ => {},
    }
}

proof fn lemma_tys_keep(a: Seq<Type>, b: Seq<Type>)
    requires
        tys_no_assoc(a),
        tys_rw(Rewrite::Expand, a, b),
    ensures
        tys_eq(a, b),
    decreases a,
{
    if a.len() > 0 {
        lemma_tys_keep(a.drop_last(), b.drop_last());
        lemma_expand_keeps_assoc_free(a.last(), b.last());
    }
}

proof fn lemma_named_keep(a: Seq<(Name, Type)>, b: Seq<(Name, Type)>)
    requires
        named_no_assoc(a),
        named_rw(Rewrite::Expand, a, b),
    ensures
        named_eq(a, b),
    decreases a,
{
    if a.len() > 0 {
        lemma_named_keep(a.drop_last(), b.drop_last());
        lemma_expand_keeps_assoc_free(a.last().1, b.last().1);
    }
}

proof fn lemma_segs_keep(a: Seq<Segment>, b: Seq<Segment>)
    requires
        segs_no_assoc(a),
        segs_rw(Rewrite::Expand, a, b),
    ensures
        segs_eq(a, b),
    decreases a,
{
    if a.len() > 0 {
        lemma_segs_keep(a.drop_last(), b.drop_last());
        lemma_seg_keep(a.last(), b.last());
    }
}

proof fn lemma_seg_keep(a: Segment, b: Segment)
    requires
        seg_no_assoc(a),
        seg_rw(Rewrite::Expand, a, b),
    ensures
        seg_eq(a, b),
    decreases a,
{
    crate::map::lemma_view_decreases(a.named_types);
    lemma_tys_keep(a.types@, b.types@);
    lemma_named_keep(a.named_types@, b.named_types@);
}

proof fn lemma_path_keeps(a: Path, b: Path)
    requires
        path_no_assoc(a),
        path_rw(Rewrite::Expand, a, b),
    ensures
        path_eq(a, b),
    decreases a,
{
    lemma_segs_keep(a.segments@, b.segments@);
}

} // verus!
