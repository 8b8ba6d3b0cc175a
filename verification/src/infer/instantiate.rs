//! Rewriting types: substituting generics, and expanding associated types.
use std::rc::Rc;

use vstd::prelude::*;

use crate::ast::Path;
use crate::ast::Segment;
use crate::ast::TraitBound;
use crate::ast::Type;
use crate::ast_eq::ty_eq;
use crate::map::spec_lookup;
use crate::map::VecMap;
use crate::name::lemma_name_obeys_view_eq;
use crate::name::Name;

verus! {

/// A rewrite of types.
pub enum Rewrite<'a> {
    /// Replace each generic named in the map by its type; keep other generics.
    Generics(&'a VecMap<Name, Type>),
    /// Replace each associated type whose bound binds it by the bound type.
    Assoc,
    /// Replace each associated type whose bound binds it by the bound type, itself expanded
    /// in the same way; keep an associated type that its bound does not bind.
    Expand,
}

/// What the rewrite does to `t` as a whole: `Some` of the replacement, or `None` when it
/// only rewrites the parts of `t`.
pub open spec fn rw_leaf(rw: Rewrite, t: Type) -> Option<Type> {
    match rw {
        Rewrite::Generics(sub) => match t {
            Type::Generic(x) => spec_lookup(sub@, x@),
            _ => None,
        },
        Rewrite::Assoc => match t {
            Type::Assoc(b, x, _) => match spec_lookup(b.assoc_types@, x@) {
                Some(u) => Some(u),
                None => Some(t),
            },
            _ => None,
        },
        Rewrite::Expand => None,
    }
}

/// `b` is `a` rewritten by `rw`.
pub open spec fn rewritten(rw: Rewrite, a: Type, b: Type) -> bool
    decreases a,
{
    if rw is Expand && a is Assoc {
        match a {
            Type::Assoc(tb, x, _) => {
                proof {
                    crate::map::lemma_view_decreases(tb.assoc_types);
                    crate::map::lemma_first_index(tb.assoc_types@, x@);
                }
                match spec_lookup(tb.assoc_types@, x@) {
                    Some(u) => rewritten(rw, u, b),
                    None => ty_eq(a, b),
                }
            },
            _ => false,
        }
    } else {
    match rw_leaf(rw, a) {
        Some(u) => ty_eq(u, b),
        None => match a {
            Type::Unresolved(p) => b matches Type::Unresolved(q) && path_rw(rw, p, q),
            Type::Cons(x, ts) => b matches Type::Cons(y, us) && x@ == y@ && tys_rw(rw, ts@, us@),
            Type::Alias(x, ts) => b matches Type::Alias(y, us) && x@ == y@ && tys_rw(rw, ts@, us@),
            Type::Assoc(tb, x, ts) => b matches Type::Assoc(tb2, y, us) && bound_rw(rw, tb, tb2)
                && x@ == y@ && tys_rw(rw, ts@, us@),
            Type::Var(x) => b matches Type::Var(y) && x@ == y@,
            Type::Generic(x) => b matches Type::Generic(y) && x@ == y@,
            Type::Fun(ts, t) => b matches Type::Fun(us, u) && tys_rw(rw, ts@, us@) && rewritten(
                rw,
                *t,
                *u,
            ),
            Type::Tuple(ts) => b matches Type::Tuple(us) && tys_rw(rw, ts@, us@),
            Type::Record(m) => {
                proof {
                    crate::map::lemma_view_decreases(m);
                }
                b matches Type::Record(n) && named_rw(rw, m@, n@)
            },
            Type::Array(t, k) => b matches Type::Array(u, l) && rewritten(rw, *t, *u) && k == l,
            Type::Never => b is Never,
            Type::Hole => b is Hole,
            Type::Error => b is Error,
        },
    }
    }
}

pub open spec fn tys_rw(rw: Rewrite, a: Seq<Type>, b: Seq<Type>) -> bool
    decreases a,
{
    if a.len() == 0 {
        b.len() == 0
    } else {
        b.len() == a.len() && tys_rw(rw, a.drop_last(), b.drop_last()) && rewritten(
            rw,
            a.last(),
            b.last(),
        )
    }
}

pub open spec fn named_rw(rw: Rewrite, a: Seq<(Name, Type)>, b: Seq<(Name, Type)>) -> bool
    decreases a,
{
    if a.len() == 0 {
        b.len() == 0
    } else {
        b.len() == a.len() && named_rw(rw, a.drop_last(), b.drop_last()) && a.last().0@
            == b.last().0@ && rewritten(rw, a.last().1, b.last().1)
    }
}

pub open spec fn segs_rw(rw: Rewrite, a: Seq<Segment>, b: Seq<Segment>) -> bool
    decreases a,
{
    if a.len() == 0 {
        b.len() == 0
    } else {
        b.len() == a.len() && segs_rw(rw, a.drop_last(), b.drop_last()) && seg_rw(
            rw,
            a.last(),
            b.last(),
        )
    }
}

pub open spec fn seg_rw(rw: Rewrite, a: Segment, b: Segment) -> bool
    decreases a,
{
    proof {
        crate::map::lemma_view_decreases(a.named_types);
    }
    a.span == b.span && a.name@ == b.name@ && tys_rw(rw, a.types@, b.types@) && named_rw(
        rw,
        a.named_types@,
        b.named_types@,
    )
}

pub open spec fn path_rw(rw: Rewrite, a: Path, b: Path) -> bool
    decreases a,
{
    segs_rw(rw, a.segments@, b.segments@)
}

pub open spec fn bound_rw(rw: Rewrite, a: TraitBound, b: TraitBound) -> bool
    decreases a,
{
    proof {
        crate::map::lemma_view_decreases(a.assoc_types);
    }
    a.name@ == b.name@ && tys_rw(rw, a.types@, b.types@) && named_rw(
        rw,
        a.assoc_types@,
        b.assoc_types@,
    )
}

/// The replacement of `t` as a whole, if the rewrite replaces it.
fn leaf(rw: &Rewrite, t: &Type) -> (r: Option<Type>)
    ensures
        match rw_leaf(*rw, *t) {
            Some(u) => r matches Some(v) && ty_eq(u, v),
            None => r is None,
        },
{
    match rw {
        Rewrite::Generics(sub) => match t {
            Type::Generic(x) => {
                proof {
                    lemma_name_obeys_view_eq();
                }
                match sub.get(x) {
                    Some(u) => Some(u.deep_clone()),
                    None => None,
                }
            },
            _ => None,
        },
        Rewrite::Assoc => match t {
            Type::Assoc(b, x, _) => {
                proof {
                    lemma_name_obeys_view_eq();
                }
                match b.assoc_types.get(x) {
                    Some(u) => Some(u.deep_clone()),
                    None => Some(t.deep_clone()),
                }
            },
            _ => None,
        },
        Rewrite::Expand => None,
    }
}

/// `t` rewritten by `rw`.
pub fn rewrite_type(rw: &Rewrite, t: &Type) -> (r: Type)
    ensures
        rewritten(*rw, *t, r),
    decreases t,
{
    if let Rewrite::Expand = rw {
        if let Type::Assoc(b, x, _) = t {
            proof {
                lemma_name_obeys_view_eq();
            }
            match b.assoc_types.get(x) {
                Some(u) => {
                    proof {
                        crate::map::lemma_view_decreases(b.assoc_types);
                        crate::map::lemma_first_index(b.assoc_types@, x@);
                        let i = crate::map::first_index(b.assoc_types@, x@)->0;
                        assert(decreases_to!(b.assoc_types => b.assoc_types@[i]));
                        assert(decreases_to!(*t => *u));
                    }
                    return rewrite_type(rw, u);
                },
                None => {
                    return t.deep_clone();
                },
            }
        }
    }
    match leaf(rw, t) {
        Some(u) => u,
        None => match t {
            Type::Unresolved(p) => Type::Unresolved(rewrite_path(rw, p)),
            Type::Cons(x, ts) => Type::Cons(x.clone(), rewrite_types(rw, ts)),
            Type::Alias(x, ts) => Type::Alias(x.clone(), rewrite_types(rw, ts)),
            Type::Assoc(b, x, ts) => Type::Assoc(
                rewrite_bound(rw, b),
                x.clone(),
                rewrite_types(rw, ts),
            ),
            Type::Var(x) => Type::Var(x.clone()),
            Type::Generic(x) => Type::Generic(x.clone()),
            Type::Fun(ts, t1) => {
                let us = rewrite_types(rw, ts);
                let u = rewrite_type(rw, &**t1);
                Type::Fun(us, Rc::new(u))
            },
            Type::Tuple(ts) => Type::Tuple(rewrite_types(rw, ts)),
            Type::Record(m) => Type::Record(rewrite_named(rw, m)),
            Type::Array(t1, k) => {
                let u = rewrite_type(rw, &**t1);
                Type::Array(Rc::new(u), *k)
            },
            Type::Never => Type::Never,
            Type::Hole => Type::Hole,
            Type::Error => Type::Error,
        },
    }
}

pub fn rewrite_types(rw: &Rewrite, ts: &Vec<Type>) -> (r: Vec<Type>)
    ensures
        tys_rw(*rw, ts@, r@),
    decreases ts,
{
    let mut out: Vec<Type> = Vec::new();
    let mut i: usize = 0;
    assert(ts@.take(0) =~= Seq::<Type>::empty());
    while i < ts.len()
        invariant
            i <= ts@.len(),
            tys_rw(*rw, ts@.take(i as int), out@),
        decreases ts@.len() - i,
    {
        let t = rewrite_type(rw, &ts[i]);
        let ghost prev = out@;
        out.push(t);
        i = i + 1;
        assert(ts@.take(i as int).drop_last() =~= ts@.take(i - 1));
        assert(out@.drop_last() =~= prev);
    }
    assert(ts@.take(ts@.len() as int) =~= ts@);
    out
}

pub fn rewrite_named(rw: &Rewrite, m: &VecMap<Name, Type>) -> (r: VecMap<Name, Type>)
    ensures
        named_rw(*rw, m@, r@),
    decreases m,
{
    let s = m.iter();
    let mut out: Vec<(Name, Type)> = Vec::new();
    let mut i: usize = 0;
    assert(s@.take(0) =~= Seq::<(Name, Type)>::empty());
    while i < s.len()
        invariant
            s@ == m@,
            i <= s@.len(),
            named_rw(*rw, s@.take(i as int), out@),
        decreases s@.len() - i,
    {
        let x = s[i].0.clone();
        proof {
            crate::map::lemma_view_decreases(*m);
            assert(decreases_to!(*m => m@[i as int]));
        }
        let t = rewrite_type(rw, &s[i].1);
        let ghost prev = out@;
        out.push((x, t));
        i = i + 1;
        assert(s@.take(i as int).drop_last() =~= s@.take(i - 1));
        assert(out@.drop_last() =~= prev);
    }
    assert(s@.take(s@.len() as int) =~= s@);
    VecMap::from_vec(out)
}

pub fn rewrite_segment(rw: &Rewrite, s: &Segment) -> (r: Segment)
    ensures
        seg_rw(*rw, *s, r),
    decreases s,
{
    Segment {
        span: s.span,
        name: s.name.clone(),
        types: rewrite_types(rw, &s.types),
        named_types: rewrite_named(rw, &s.named_types),
    }
}

pub fn rewrite_path(rw: &Rewrite, p: &Path) -> (r: Path)
    ensures
        path_rw(*rw, *p, r),
    decreases p,
{
    let mut out: Vec<Segment> = Vec::new();
    let mut i: usize = 0;
    assert(p.segments@.take(0) =~= Seq::<Segment>::empty());
    while i < p.segments.len()
        invariant
            i <= p.segments@.len(),
            segs_rw(*rw, p.segments@.take(i as int), out@),
        decreases p.segments@.len() - i,
    {
        let s = rewrite_segment(rw, &p.segments[i]);
        let ghost prev = out@;
        out.push(s);
        i = i + 1;
        assert(p.segments@.take(i as int).drop_last() =~= p.segments@.take(i - 1));
        assert(out@.drop_last() =~= prev);
    }
    assert(p.segments@.take(p.segments@.len() as int) =~= p.segments@);
    Path { segments: out }
}

pub fn rewrite_bound(rw: &Rewrite, b: &TraitBound) -> (r: TraitBound)
    ensures
        bound_rw(*rw, *b, r),
    decreases b,
{
    TraitBound {
        name: b.name.clone(),
        types: rewrite_types(rw, &b.types),
        assoc_types: rewrite_named(rw, &b.assoc_types),
    }
}

/// Substitution of generics by the types a map gives them.
pub struct Instantiate<'a>(pub &'a VecMap<Name, Type>);

impl<'a> Instantiate<'a> {
    pub fn new(sub: &'a VecMap<Name, Type>) -> (i: Instantiate<'a>)
        ensures
            i.0 == sub,
    {
        Instantiate(sub)
    }

    pub fn map_type(&self, t: &Type) -> (r: Type)
        ensures
            rewritten(Rewrite::Generics(self.0), *t, r),
    {
        rewrite_type(&Rewrite::Generics(self.0), t)
    }

    pub fn map_trait(&self, b: &TraitBound) -> (r: TraitBound)
        ensures
            bound_rw(Rewrite::Generics(self.0), *b, r),
    {
        rewrite_bound(&Rewrite::Generics(self.0), b)
    }
}

impl Type {
    /// The type with each generic named in `sub` replaced by its type in `sub`.
    pub fn instantiate(&self, sub: &VecMap<Name, Type>) -> (r: Type)
        ensures
            rewritten(Rewrite::Generics(sub), *self, r),
    {
        Instantiate::new(sub).map_type(self)
    }
}

impl TraitBound {
    /// The bound with each generic named in `sub` replaced by its type in `sub`.
    pub fn instantiate(&self, sub: &VecMap<Name, Type>) -> (r: TraitBound)
        ensures
            bound_rw(Rewrite::Generics(sub), *self, r),
    {
        Instantiate::new(sub).map_trait(self)
    }
}

} // verus!
