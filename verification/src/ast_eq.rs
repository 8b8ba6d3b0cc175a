use std::rc::Rc;

use vstd::prelude::*;

use crate::ast::Path;
use crate::ast::Segment;
use crate::ast::TraitBound;
use crate::ast::Type;
use crate::map::VecMap;
use crate::name::Name;

verus! {

/// Two types are the same when they have the same shape and the same names, compared by
/// their characters.
pub open spec fn ty_eq(a: Type, b: Type) -> bool
    decreases a,
{
    match a {
        Type::Unresolved(p) => b matches Type::Unresolved(q) && path_eq(p, q),
        Type::Cons(x, ts) => b matches Type::Cons(y, us) && x@ == y@ && tys_eq(ts@, us@),
        Type::Alias(x, ts) => b matches Type::Alias(y, us) && x@ == y@ && tys_eq(ts@, us@),
        Type::Assoc(tb, x, ts) => b matches Type::Assoc(tb2, y, us) && bound_eq(tb, tb2) && x@
            == y@ && tys_eq(ts@, us@),
        Type::Var(x) => b matches Type::Var(y) && x@ == y@,
        Type::Generic(x) => b matches Type::Generic(y) && x@ == y@,
        Type::Fun(ts, t) => b matches Type::Fun(us, u) && tys_eq(ts@, us@) && ty_eq(*t, *u),
        Type::Tuple(ts) => b matches Type::Tuple(us) && tys_eq(ts@, us@),
        Type::Record(m) => {
            proof {
                crate::map::lemma_view_decreases(m);
            }
            b matches Type::Record(n) && named_eq(m@, n@)
        },
        Type::Array(t, k) => b matches Type::Array(u, l) && ty_eq(*t, *u) && k == l,
        Type::Never => b is Never,
        Type::Hole => b is Hole,
        Type::Error => b is Error,
    }
}

pub open spec fn tys_eq(a: Seq<Type>, b: Seq<Type>) -> bool
    decreases a,
{
    if a.len() == 0 {
        b.len() == 0
    } else {
        b.len() == a.len() && tys_eq(a.drop_last(), b.drop_last()) && ty_eq(a.last(), b.last())
    }
}

pub open spec fn named_eq(a: Seq<(Name, Type)>, b: Seq<(Name, Type)>) -> bool
    decreases a,
{
    if a.len() == 0 {
        b.len() == 0
    } else {
        b.len() == a.len() && named_eq(a.drop_last(), b.drop_last()) && a.last().0@ == b.last().0@
            && ty_eq(a.last().1, b.last().1)
    }
}

pub open spec fn segs_eq(a: Seq<Segment>, b: Seq<Segment>) -> bool
    decreases a,
{
    if a.len() == 0 {
        b.len() == 0
    } else {
        b.len() == a.len() && segs_eq(a.drop_last(), b.drop_last()) && seg_eq(a.last(), b.last())
    }
}

pub open spec fn seg_eq(a: Segment, b: Segment) -> bool
    decreases a,
{
    proof {
        crate::map::lemma_view_decreases(a.named_types);
    }
    a.span == b.span && a.name@ == b.name@ && tys_eq(a.types@, b.types@) && named_eq(
        a.named_types@,
        b.named_types@,
    )
}

pub open spec fn path_eq(a: Path, b: Path) -> bool
    decreases a,
{
    segs_eq(a.segments@, b.segments@)
}

pub open spec fn bound_eq(a: TraitBound, b: TraitBound) -> bool
    decreases a,
{
    proof {
        crate::map::lemma_view_decreases(a.assoc_types);
    }
    a.name@ == b.name@ && tys_eq(a.types@, b.types@) && named_eq(a.assoc_types@, b.assoc_types@)
}

/// The type inside a function or array type (its result, or its elements), or `d`.
pub open spec fn inner_or(t: Type, d: Type) -> Type {
    match t {
        Type::Fun(_, u) => *u,
        Type::Array(u, _) => *u,
        _ => d,
    }
}

/// Equality of types is reflexive, symmetric and transitive.
pub proof fn lemma_ty_eq(a: Type, b: Type, c: Type)
    ensures
        ty_eq(a, a),
        ty_eq(a, b) ==> ty_eq(b, a),
        ty_eq(a, b) && ty_eq(b, c) ==> ty_eq(a, c),
    decreases a,
{
    match a {
        Type::Unresolved(p) => {
            let q = match b { Type::Unresolved(q) => q, _ => p };
            let r = match c { Type::Unresolved(r) => r, _ => p };
            lemma_path_eq(p, q, r);
        },
        Type::Cons(_, ts) => {
            let us = match b { Type::Cons(_, us) => us@, _ => ts@ };
            let vs = match c { Type::Cons(_, vs) => vs@, _ => ts@ };
            lemma_tys_eq(ts@, us, vs);
        },
        Type::Alias(_, ts) => {
            let us = match b { Type::Alias(_, us) => us@, _ => ts@ };
            let vs = match c { Type::Alias(_, vs) => vs@, _ => ts@ };
            lemma_tys_eq(ts@, us, vs);
        },
        Type::Assoc(tb, _, ts) => {
            let (tb2, us) = match b { Type::Assoc(tb2, _, us) => (tb2, us@), _ => (tb, ts@) };
            let (tb3, vs) = match c { Type::Assoc(tb3, _, vs) => (tb3, vs@), _ => (tb, ts@) };
            lemma_bound_eq(tb, tb2, tb3);
            lemma_tys_eq(ts@, us, vs);
        },
        Type::Fun(ts, t) => {
            let us = match b { Type::Fun(us, _) => us@, _ => ts@ };
            let vs = match c { Type::Fun(vs, _) => vs@, _ => ts@ };
            lemma_tys_eq(ts@, us, vs);
            lemma_ty_eq(inner_or(a, a), inner_or(b, a), inner_or(c, a));
        },
        Type::Tuple(ts) => {
            let us = match b { Type::Tuple(us) => us@, _ => ts@ };
            let vs = match c { Type::Tuple(vs) => vs@, _ => ts@ };
            lemma_tys_eq(ts@, us, vs);
        },
        Type::Record(m) => {
            crate::map::lemma_view_decreases(m);
            let n1 = match b { Type::Record(n1) => n1@, _ => m@ };
            let n2 = match c { Type::Record(n2) => n2@, _ => m@ };
            lemma_named_eq(m@, n1, n2);
        },
        Type::Array(t, _) => {
            lemma_ty_eq(inner_or(a, a), inner_or(b, a), inner_or(c, a));
        },
        _ => {},
    }
}

pub proof fn lemma_tys_eq(a: Seq<Type>, b: Seq<Type>, c: Seq<Type>)
    ensures
        tys_eq(a, a),
        tys_eq(a, b) ==> tys_eq(b, a),
        tys_eq(a, b) && tys_eq(b, c) ==> tys_eq(a, c),
    decreases a,
{
    if a.len() > 0 {
        lemma_tys_eq(a.drop_last(), b.drop_last(), c.drop_last());
        lemma_ty_eq(a.last(), b.last(), c.last());
    }
}

pub proof fn lemma_named_eq(a: Seq<(Name, Type)>, b: Seq<(Name, Type)>, c: Seq<(Name, Type)>)
    ensures
        named_eq(a, a),
        named_eq(a, b) ==> named_eq(b, a),
        named_eq(a, b) && named_eq(b, c) ==> named_eq(a, c),
    decreases a,
{
    if a.len() > 0 {
        lemma_named_eq(a.drop_last(), b.drop_last(), c.drop_last());
        lemma_ty_eq(a.last().1, b.last().1, c.last().1);
    }
}

pub proof fn lemma_segs_eq(a: Seq<Segment>, b: Seq<Segment>, c: Seq<Segment>)
    ensures
        segs_eq(a, a),
        segs_eq(a, b) ==> segs_eq(b, a),
        segs_eq(a, b) && segs_eq(b, c) ==> segs_eq(a, c),
    decreases a,
{
    if a.len() > 0 {
        lemma_segs_eq(a.drop_last(), b.drop_last(), c.drop_last());
        lemma_seg_eq(a.last(), b.last(), c.last());
    }
}

pub proof fn lemma_seg_eq(a: Segment, b: Segment, c: Segment)
    ensures
        seg_eq(a, a),
        seg_eq(a, b) ==> seg_eq(b, a),
        seg_eq(a, b) && seg_eq(b, c) ==> seg_eq(a, c),
    decreases a,
{
    crate::map::lemma_view_decreases(a.named_types);
    lemma_tys_eq(a.types@, b.types@, c.types@);
    lemma_named_eq(a.named_types@, b.named_types@, c.named_types@);
}

pub proof fn lemma_path_eq(a: Path, b: Path, c: Path)
    ensures
        path_eq(a, a),
        path_eq(a, b) ==> path_eq(b, a),
        path_eq(a, b) && path_eq(b, c) ==> path_eq(a, c),
    decreases a,
{
    lemma_segs_eq(a.segments@, b.segments@, c.segments@);
}

pub proof fn lemma_bound_eq(a: TraitBound, b: TraitBound, c: TraitBound)
    ensures
        bound_eq(a, a),
        bound_eq(a, b) ==> bound_eq(b, a),
        bound_eq(a, b) && bound_eq(b, c) ==> bound_eq(a, c),
    decreases a,
{
    crate::map::lemma_view_decreases(a.assoc_types);
    lemma_tys_eq(a.types@, b.types@, c.types@);
    lemma_named_eq(a.assoc_types@, b.assoc_types@, c.assoc_types@);
}

impl Type {
    /// A copy of the type.
    pub fn deep_clone(&self) -> (r: Type)
        ensures
            ty_eq(*self, r),
        decreases self,
    {
        match self {
            Type::Unresolved(p) => Type::Unresolved(clone_path(p)),
            Type::Cons(x, ts) => Type::Cons(x.clone(), clone_types(ts)),
            Type::Alias(x, ts) => Type::Alias(x.clone(), clone_types(ts)),
            Type::Assoc(b, x, ts) => Type::Assoc(clone_bound(b), x.clone(), clone_types(ts)),
            Type::Var(x) => Type::Var(x.clone()),
            Type::Generic(x) => Type::Generic(x.clone()),
            Type::Fun(ts, t) => {
                let us = clone_types(ts);
                let u = (**t).deep_clone();
                Type::Fun(us, Rc::new(u))
            },
            Type::Tuple(ts) => Type::Tuple(clone_types(ts)),
            Type::Record(m) => Type::Record(clone_named(m)),
            Type::Array(t, k) => {
                let u = (**t).deep_clone();
                Type::Array(Rc::new(u), *k)
            },
            Type::Never => Type::Never,
            Type::Hole => Type::Hole,
            Type::Error => Type::Error,
        }
    }
}

/// Copies of the types of `ts`, in order.
pub fn clone_types(ts: &Vec<Type>) -> (r: Vec<Type>)
    ensures
        tys_eq(ts@, r@),
    decreases ts,
{
    let mut out: Vec<Type> = Vec::new();
    let mut i: usize = 0;
    assert(ts@.take(0) =~= Seq::<Type>::empty());
    while i < ts.len()
        invariant
            i <= ts@.len(),
            tys_eq(ts@.take(i as int), out@),
        decreases ts@.len() - i,
    {
        let t = ts[i].deep_clone();
        let ghost prev = out@;
        out.push(t);
        i = i + 1;
        assert(ts@.take(i as int).drop_last() =~= ts@.take(i - 1));
        assert(out@.drop_last() =~= prev);
    }
    assert(ts@.take(ts@.len() as int) =~= ts@);
    out
}

/// A copy of a map from names to types.
pub fn clone_named(m: &VecMap<Name, Type>) -> (r: VecMap<Name, Type>)
    ensures
        named_eq(m@, r@),
    decreases m,
{
    let s = m.iter();
    let mut out: Vec<(Name, Type)> = Vec::new();
    let mut i: usize = 0;
    assert(s@.take(0) =~= Seq::<(Name, Type)>::empty());
    while i < s.len()
        invariant
            s@ == m@,
            i <= s@.len(),
            named_eq(s@.take(i as int), out@),
        decreases s@.len() - i,
    {
        let x = s[i].0.clone();
        proof {
            crate::map::lemma_view_decreases(*m);
            assert(decreases_to!(*m => m@[i as int]));
        }
        let t = s[i].1.deep_clone();
        let ghost prev = out@;
        out.push((x, t));
        i = i + 1;
        assert(s@.take(i as int).drop_last() =~= s@.take(i - 1));
        assert(out@.drop_last() =~= prev);
    }
    assert(s@.take(s@.len() as int) =~= s@);
    VecMap::from_vec(out)
}

pub fn clone_segment(s: &Segment) -> (r: Segment)
    ensures
        seg_eq(*s, r),
    decreases s,
{
    Segment {
        span: s.span,
        name: s.name.clone(),
        types: clone_types(&s.types),
        named_types: clone_named(&s.named_types),
    }
}

pub fn clone_path(p: &Path) -> (r: Path)
    ensures
        path_eq(*p, r),
    decreases p,
{
    let mut out: Vec<Segment> = Vec::new();
    let mut i: usize = 0;
    assert(p.segments@.take(0) =~= Seq::<Segment>::empty());
    while i < p.segments.len()
        invariant
            i <= p.segments@.len(),
            segs_eq(p.segments@.take(i as int), out@),
        decreases p.segments@.len() - i,
    {
        let s = clone_segment(&p.segments[i]);
        let ghost prev = out@;
        out.push(s);
        i = i + 1;
        assert(p.segments@.take(i as int).drop_last() =~= p.segments@.take(i - 1));
        assert(out@.drop_last() =~= prev);
    }
    assert(p.segments@.take(p.segments@.len() as int) =~= p.segments@);
    Path { segments: out }
}

pub fn clone_bound(b: &TraitBound) -> (r: TraitBound)
    ensures
        bound_eq(*b, r),
    decreases b,
{
    TraitBound {
        name: b.name.clone(),
        types: clone_types(&b.types),
        assoc_types: clone_named(&b.assoc_types),
    }
}

proof fn lemma_tys_eq_pointwise(a: Seq<Type>, b: Seq<Type>)
    requires
        a.len() == b.len(),
    ensures
        tys_eq(a, b) <==> forall|k: int| 0 <= k < a.len() ==> #[trigger] ty_eq(a[k], b[k]),
    decreases a.len(),
{
    if a.len() > 0 {
        lemma_tys_eq_pointwise(a.drop_last(), b.drop_last());
        if tys_eq(a, b) {
            assert forall|k: int| 0 <= k < a.len() implies #[trigger] ty_eq(a[k], b[k]) by {
                if k < a.len() - 1 {
                    assert(a[k] == a.drop_last()[k]);
                    assert(b[k] == b.drop_last()[k]);
                }
            }
        }
        if forall|k: int| 0 <= k < a.len() ==> #[trigger] ty_eq(a[k], b[k]) {
            assert forall|k: int| 0 <= k < a.drop_last().len() implies #[trigger] ty_eq(
                a.drop_last()[k],
                b.drop_last()[k],
            ) by {
                assert(ty_eq(a[k], b[k]));
            }
            assert(ty_eq(a[a.len() - 1], b[b.len() - 1]));
        }
    }
}

/// Two entries of maps from names to types are the same.
pub open spec fn entry_eq(x: (Name, Type), y: (Name, Type)) -> bool {
    x.0@ == y.0@ && ty_eq(x.1, y.1)
}

proof fn lemma_named_eq_pointwise(a: Seq<(Name, Type)>, b: Seq<(Name, Type)>)
    requires
        a.len() == b.len(),
    ensures
        named_eq(a, b) <==> forall|k: int| 0 <= k < a.len() ==> #[trigger] entry_eq(a[k], b[k]),
    decreases a.len(),
{
    if a.len() > 0 {
        lemma_named_eq_pointwise(a.drop_last(), b.drop_last());
        if named_eq(a, b) {
            assert forall|k: int| 0 <= k < a.len() implies #[trigger] entry_eq(a[k], b[k]) by {
                if k < a.len() - 1 {
                    assert(a[k] == a.drop_last()[k]);
                    assert(b[k] == b.drop_last()[k]);
                    assert(entry_eq(a.drop_last()[k], b.drop_last()[k]));
                }
            }
        }
        if forall|k: int| 0 <= k < a.len() ==> #[trigger] entry_eq(a[k], b[k]) {
            assert forall|k: int| 0 <= k < a.drop_last().len() implies #[trigger] entry_eq(
                a.drop_last()[k],
                b.drop_last()[k],
            ) by {
                assert(entry_eq(a[k], b[k]));
            }
            assert(entry_eq(a[a.len() - 1], b[b.len() - 1]));
        }
    }
}

proof fn lemma_segs_eq_pointwise(a: Seq<Segment>, b: Seq<Segment>)
    requires
        a.len() == b.len(),
    ensures
        segs_eq(a, b) <==> forall|k: int| 0 <= k < a.len() ==> #[trigger] seg_eq(a[k], b[k]),
    decreases a.len(),
{
    if a.len() > 0 {
        lemma_segs_eq_pointwise(a.drop_last(), b.drop_last());
        if segs_eq(a, b) {
            assert forall|k: int| 0 <= k < a.len() implies #[trigger] seg_eq(a[k], b[k]) by {
                if k < a.len() - 1 {
                    assert(a[k] == a.drop_last()[k]);
                    assert(b[k] == b.drop_last()[k]);
                }
            }
        }
        if forall|k: int| 0 <= k < a.len() ==> #[trigger] seg_eq(a[k], b[k]) {
            assert forall|k: int| 0 <= k < a.drop_last().len() implies #[trigger] seg_eq(
                a.drop_last()[k],
                b.drop_last()[k],
            ) by {
                assert(seg_eq(a[k], b[k]));
            }
            assert(seg_eq(a[a.len() - 1], b[b.len() - 1]));
        }
    }
}

/// Whether two types are the same, in the sense of `ty_eq`.
pub fn same_type(a: &Type, b: &Type) -> (r: bool)
    ensures
        r == ty_eq(*a, *b),
    decreases a,
{
    match (a, b) {
        (Type::Unresolved(p), Type::Unresolved(q)) => same_path(p, q),
        (Type::Cons(x, ts), Type::Cons(y, us)) => x == y && same_types(ts, us),
        (Type::Alias(x, ts), Type::Alias(y, us)) => x == y && same_types(ts, us),
        (Type::Assoc(tb, x, ts), Type::Assoc(tb2, y, us)) => same_bound(tb, tb2) && x == y
            && same_types(ts, us),
        (Type::Var(x), Type::Var(y)) => x == y,
        (Type::Generic(x), Type::Generic(y)) => x == y,
        (Type::Fun(ts, t), Type::Fun(us, u)) => same_types(ts, us) && same_type(t, u),
        (Type::Tuple(ts), Type::Tuple(us)) => same_types(ts, us),
        (Type::Record(m), Type::Record(n)) => same_named(m, n),
        (Type::Array(t, k), Type::Array(u, l)) => {
            let same_len = match (k, l) {
                (Some(i), Some(j)) => *i == *j,
                (None, None) => true,
                _ => false,
            };
            same_len && same_type(t, u)
        },
        (Type::Never, Type::Never) => true,
        (Type::Hole, Type::Hole) => true,
        (Type::Error, Type::Error) => true,
        _ => false,
    }
}

/// Whether two lists of types are the same, type by type.
pub fn same_types(ts: &Vec<Type>, us: &Vec<Type>) -> (r: bool)
    ensures
        r == tys_eq(ts@, us@),
    decreases ts,
{
    if ts.len() != us.len() {
        return false;
    }
    let mut i: usize = 0;
    while i < ts.len()
        invariant
            ts@.len() == us@.len(),
            i <= ts@.len(),
            forall|k: int| 0 <= k < i ==> #[trigger] ty_eq(ts@[k], us@[k]),
        decreases ts@.len() - i,
    {
        if !same_type(&ts[i], &us[i]) {
            proof {
                lemma_tys_eq_pointwise(ts@, us@);
            }
            return false;
        }
        i = i + 1;
    }
    proof {
        lemma_tys_eq_pointwise(ts@, us@);
    }
    true
}

/// Whether two maps from names to types are the same, entry by entry.
pub fn same_named(m: &VecMap<Name, Type>, n: &VecMap<Name, Type>) -> (r: bool)
    ensures
        r == named_eq(m@, n@),
    decreases m,
{
    let s = m.iter();
    let t = n.iter();
    if s.len() != t.len() {
        return false;
    }
    let mut i: usize = 0;
    while i < s.len()
        invariant
            s@ == m@,
            t@ == n@,
            s@.len() == t@.len(),
            i <= s@.len(),
            forall|k: int| 0 <= k < i ==> #[trigger] entry_eq(s@[k], t@[k]),
        decreases s@.len() - i,
    {
        proof {
            crate::map::lemma_view_decreases(*m);
            assert(decreases_to!(*m => m@[i as int]));
        }
        let same_name = s[i].0 == t[i].0;
        let same_ty = same_type(&s[i].1, &t[i].1);
        assert(same_name == (s@[i as int].0@ == t@[i as int].0@));
        assert(same_ty == ty_eq(s@[i as int].1, t@[i as int].1));
        assert(same_name && same_ty <==> entry_eq(s@[i as int], t@[i as int]));
        if !same_name || !same_ty {
            proof {
                lemma_named_eq_pointwise(m@, n@);
            }
            return false;
        }
        i = i + 1;
    }
    proof {
        lemma_named_eq_pointwise(m@, n@);
    }
    true
}

/// Whether two path segments are the same.
pub fn same_segment(a: &Segment, b: &Segment) -> (r: bool)
    ensures
        r == seg_eq(*a, *b),
    decreases a,
{
    a.span.start == b.span.start && a.span.end == b.span.end && a.span.file == b.span.file
        && a.name == b.name && same_types(&a.types, &b.types) && same_named(
        &a.named_types,
        &b.named_types,
    )
}

/// Whether two paths are the same, segment by segment.
pub fn same_path(p: &Path, q: &Path) -> (r: bool)
    ensures
        r == path_eq(*p, *q),
    decreases p,
{
    if p.segments.len() != q.segments.len() {
        return false;
    }
    let mut i: usize = 0;
    while i < p.segments.len()
        invariant
            p.segments@.len() == q.segments@.len(),
            i <= p.segments@.len(),
            forall|k: int| 0 <= k < i ==> #[trigger] seg_eq(p.segments@[k], q.segments@[k]),
        decreases p.segments@.len() - i,
    {
        if !same_segment(&p.segments[i], &q.segments[i]) {
            proof {
                lemma_segs_eq_pointwise(p.segments@, q.segments@);
            }
            return false;
        }
        i = i + 1;
    }
    proof {
        lemma_segs_eq_pointwise(p.segments@, q.segments@);
    }
    true
}

/// Whether two trait bounds are the same.
pub fn same_bound(a: &TraitBound, b: &TraitBound) -> (r: bool)
    ensures
        r == bound_eq(*a, *b),
    decreases a,
{
    a.name == b.name && same_types(&a.types, &b.types) && same_named(
        &a.assoc_types,
        &b.assoc_types,
    )
}

} // verus!
