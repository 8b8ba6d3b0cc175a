//! Instantiating the generics of declarations: structs, enums, traits and the methods
//! declared in traits, each with type arguments for its generics.
use vstd::prelude::*;

use crate::ast::Bound;
use crate::ast::Param;
use crate::ast::StmtEnum;
use crate::ast::StmtStruct;
use crate::ast::StmtTrait;
use crate::ast::TraitDef;
use crate::ast::TraitType;
use crate::ast::Type;
use crate::ast_eq::ty_eq;
use crate::map::VecMap;
use crate::name::Name;

use super::instantiate::bound_rw;
use super::instantiate::named_rw;
use super::instantiate::path_rw;
use super::instantiate::rewrite_bound;
use super::instantiate::rewrite_named;
use super::instantiate::rewrite_path;
use super::instantiate::rewrite_type;
use super::instantiate::rewritten;
use super::instantiate::Rewrite;

verus! {

/// `m` pairs each generic of `gs` with the type at the same position of `ts`, as far as both
/// lists go; each type is the one of `ts` in the sense of `ty_eq`.
pub open spec fn gsub_of(m: Seq<(Name, Type)>, gs: Seq<Name>, ts: Seq<Type>) -> bool {
    &&& m.len() == (if gs.len() <= ts.len() {
        gs.len()
    } else {
        ts.len()
    })
    &&& forall|i: int| 0 <= i < m.len() ==> #[trigger] m[i].0@ == gs[i]@ && ty_eq(ts[i], m[i].1)
}

/// The same names, in order.
pub open spec fn names_eq(a: Seq<Name>, b: Seq<Name>) -> bool {
    &&& a.len() == b.len()
    &&& forall|i: int| 0 <= i < a.len() ==> #[trigger] a[i]@ == b[i]@
}

/// `b` is the bound `a` rewritten by `rw`.
pub open spec fn bound_kind_rw(rw: Rewrite, a: Bound, b: Bound) -> bool {
    match a {
        Bound::Unresolved(s, p) => b matches Bound::Unresolved(s2, q) && s2 == s && path_rw(rw, p, q),
        Bound::Trait(s, tb) => b matches Bound::Trait(s2, tb2) && s2 == s && bound_rw(rw, tb, tb2),
        Bound::Error(s) => b == Bound::Error(s),
    }
}

/// Bound by bound.
pub open spec fn bounds_rw(rw: Rewrite, a: Seq<Bound>, b: Seq<Bound>) -> bool {
    &&& a.len() == b.len()
    &&& forall|i: int| 0 <= i < a.len() ==> #[trigger] bound_kind_rw(rw, a[i], b[i])
}

/// The same span and name, with the type rewritten.
pub open spec fn param_rw(rw: Rewrite, a: Param, b: Param) -> bool {
    b.span == a.span && b.name@ == a.name@ && rewritten(rw, a.ty, b.ty)
}

/// Parameter by parameter.
pub open spec fn params_rw(rw: Rewrite, a: Seq<Param>, b: Seq<Param>) -> bool {
    &&& a.len() == b.len()
    &&& forall|i: int| 0 <= i < a.len() ==> #[trigger] param_rw(rw, a[i], b[i])
}

/// The method declaration `a` with the types of its parameters, result and where clause
/// rewritten; its generics stay.
pub open spec fn trait_def_rw(rw: Rewrite, a: TraitDef, b: TraitDef) -> bool {
    &&& b.span == a.span
    &&& b.name@ == a.name@
    &&& names_eq(a.generics@, b.generics@)
    &&& params_rw(rw, a.params@, b.params@)
    &&& rewritten(rw, a.ty, b.ty)
    &&& bounds_rw(rw, a.where_clause@, b.where_clause@)
}

/// The same associated type declaration.
pub open spec fn trait_type_eq(a: TraitType, b: TraitType) -> bool {
    b.span == a.span && b.name@ == a.name@ && names_eq(a.generics@, b.generics@)
}

/// The pairs of the generics `gs` with the types `ts`, as far as both go.
pub fn gsub(gs: &Vec<Name>, ts: &Vec<Type>) -> (m: VecMap<Name, Type>)
    ensures
        gsub_of(m@, gs@, ts@),
{
    let mut out: Vec<(Name, Type)> = Vec::new();
    let mut i: usize = 0;
    while i < gs.len() && i < ts.len()
        invariant
            i <= gs@.len(),
            i <= ts@.len(),
            out@.len() == i,
            forall|j: int| 0 <= j < i ==> #[trigger] out@[j].0@ == gs@[j]@ && ty_eq(ts@[j], out@[j].1),
        decreases gs@.len() - i,
    {
        out.push((gs[i].clone(), ts[i].deep_clone()));
        i = i + 1;
    }
    VecMap::from_vec(out)
}

fn clone_names(ns: &Vec<Name>) -> (r: Vec<Name>)
    ensures
        names_eq(ns@, r@),
{
    let mut out: Vec<Name> = Vec::new();
    let mut i: usize = 0;
    while i < ns.len()
        invariant
            i <= ns@.len(),
            out@.len() == i,
            forall|j: int| 0 <= j < i ==> #[trigger] ns@[j]@ == out@[j]@,
        decreases ns@.len() - i,
    {
        out.push(ns[i].clone());
        i = i + 1;
    }
    out
}

fn rewrite_bound_kind(rw: &Rewrite, b: &Bound) -> (r: Bound)
    ensures
        bound_kind_rw(*rw, *b, r),
{
    match b {
        Bound::Unresolved(s, p) => Bound::Unresolved(*s, rewrite_path(rw, p)),
        Bound::Trait(s, tb) => Bound::Trait(*s, rewrite_bound(rw, tb)),
        Bound::Error(s) => Bound::Error(*s),
    }
}

fn rewrite_bounds(rw: &Rewrite, bs: &Vec<Bound>) -> (r: Vec<Bound>)
    ensures
        bounds_rw(*rw, bs@, r@),
{
    let mut out: Vec<Bound> = Vec::new();
    let mut i: usize = 0;
    while i < bs.len()
        invariant
            i <= bs@.len(),
            out@.len() == i,
            forall|j: int| 0 <= j < i ==> #[trigger] bound_kind_rw(*rw, bs@[j], out@[j]),
        decreases bs@.len() - i,
    {
        out.push(rewrite_bound_kind(rw, &bs[i]));
        i = i + 1;
    }
    out
}

fn rewrite_params(rw: &Rewrite, ps: &Vec<Param>) -> (r: Vec<Param>)
    ensures
        params_rw(*rw, ps@, r@),
{
    let mut out: Vec<Param> = Vec::new();
    let mut i: usize = 0;
    while i < ps.len()
        invariant
            i <= ps@.len(),
            out@.len() == i,
            forall|j: int| 0 <= j < i ==> #[trigger] param_rw(*rw, ps@[j], out@[j]),
        decreases ps@.len() - i,
    {
        let p = &ps[i];
        out.push(Param::new(p.span, p.name.clone(), rewrite_type(rw, &p.ty)));
        i = i + 1;
    }
    out
}

fn rewrite_trait_def(rw: &Rewrite, d: &TraitDef) -> (r: TraitDef)
    ensures
        trait_def_rw(*rw, *d, r),
{
    TraitDef::new(
        d.span,
        d.name.clone(),
        clone_names(&d.generics),
        rewrite_params(rw, &d.params),
        rewrite_type(rw, &d.ty),
        rewrite_bounds(rw, &d.where_clause),
    )
}

impl StmtStruct {
    /// The struct with its generics replaced by `ts` in the types of its fields, and no
    /// generics left.
    pub fn instantiate(&self, ts: &Vec<Type>) -> (r: StmtStruct)
        ensures
            r.span == self.span,
            r.name@ == self.name@,
            r.generics@.len() == 0,
            exists|sub: VecMap<Name, Type>|
                #[trigger] gsub_of(sub@, self.generics@, ts@) && named_rw(
                    Rewrite::Generics(&sub),
                    self.fields@,
                    r.fields@,
                ),
    {
        let sub = gsub(&self.generics, ts);
        let fields = rewrite_named(&Rewrite::Generics(&sub), &self.fields);
        StmtStruct::new(self.span, self.name.clone(), Vec::new(), fields)
    }
}

impl StmtEnum {
    /// The enum with its generics replaced by `ts` in the types of its variants, and no
    /// generics left.
    pub fn instantiate(&self, ts: &Vec<Type>) -> (r: StmtEnum)
        ensures
            r.span == self.span,
            r.name@ == self.name@,
            r.generics@.len() == 0,
            exists|sub: VecMap<Name, Type>|
                #[trigger] gsub_of(sub@, self.generics@, ts@) && named_rw(
                    Rewrite::Generics(&sub),
                    self.variants@,
                    r.variants@,
                ),
    {
        let sub = gsub(&self.generics, ts);
        let variants = rewrite_named(&Rewrite::Generics(&sub), &self.variants);
        StmtEnum::new(self.span, self.name.clone(), Vec::new(), variants)
    }
}

impl TraitDef {
    /// The method declaration with its generics replaced by `ts` in the types of its
    /// parameters, result and where clause, and no generics left.
    pub fn instantiate(&self, ts: &Vec<Type>) -> (r: TraitDef)
        ensures
            r.span == self.span,
            r.name@ == self.name@,
            r.generics@.len() == 0,
            exists|sub: VecMap<Name, Type>|
                #[trigger] gsub_of(sub@, self.generics@, ts@) && params_rw(
                    Rewrite::Generics(&sub),
                    self.params@,
                    r.params@,
                ) && rewritten(Rewrite::Generics(&sub), self.ty, r.ty) && bounds_rw(
                    Rewrite::Generics(&sub),
                    self.where_clause@,
                    r.where_clause@,
                ),
    {
        let sub = gsub(&self.generics, ts);
        let rw = Rewrite::Generics(&sub);
        TraitDef::new(
            self.span,
            self.name.clone(),
            Vec::new(),
            rewrite_params(&rw, &self.params),
            rewrite_type(&rw, &self.ty),
            rewrite_bounds(&rw, &self.where_clause),
        )
    }
}

impl StmtTrait {
    /// The trait with its generics replaced by `ts` in its bounds and in the method
    /// declarations, and no generics left; the associated type declarations stay.
    pub fn instantiate(&self, ts: &Vec<Type>) -> (r: StmtTrait)
        ensures
            r.span == self.span,
            r.name@ == self.name@,
            r.generics@.len() == 0,
            r.defs@.len() == self.defs@.len(),
            r.types@.len() == self.types@.len(),
            forall|i: int|
                0 <= i < self.types@.len() ==> #[trigger] trait_type_eq(self.types@[i], r.types@[i]),
            exists|sub: VecMap<Name, Type>|
                #[trigger] gsub_of(sub@, self.generics@, ts@) && bounds_rw(
                    Rewrite::Generics(&sub),
                    self.bounds@,
                    r.bounds@,
                ) && forall|i: int|
                    0 <= i < self.defs@.len() ==> #[trigger] trait_def_rw(
                        Rewrite::Generics(&sub),
                        self.defs@[i],
                        r.defs@[i],
                    ),
    {
        let sub = gsub(&self.generics, ts);
        let rw = Rewrite::Generics(&sub);
        let bounds = rewrite_bounds(&rw, &self.bounds);
        let mut defs: Vec<TraitDef> = Vec::new();
        let mut i: usize = 0;
        while i < self.defs.len()
            invariant
                i <= self.defs@.len(),
                defs@.len() == i,
                forall|j: int| 0 <= j < i ==> #[trigger] trait_def_rw(rw, self.defs@[j], defs@[j]),
            decreases self.defs@.len() - i,
        {
            defs.push(rewrite_trait_def(&rw, &self.defs[i]));
            i = i + 1;
        }
        let mut types: Vec<TraitType> = Vec::new();
        let mut i: usize = 0;
        while i < self.types.len()
            invariant
                i <= self.types@.len(),
                types@.len() == i,
                forall|j: int| 0 <= j < i ==> #[trigger] trait_type_eq(self.types@[j], types@[j]),
            decreases self.types@.len() - i,
        {
            let t = &self.types[i];
            types.push(TraitType::new(t.span, t.name.clone(), clone_names(&t.generics)));
            i = i + 1;
        }
        StmtTrait::new(self.span, self.name.clone(), Vec::new(), bounds, defs, types)
    }
}

} // verus!
