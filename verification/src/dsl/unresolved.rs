//! Constructors for trees as the parser builds them, before names are resolved:
//! names stand in paths.
use std::rc::Rc;

use vstd::prelude::*;

use crate::ast::Bound;
use crate::ast::Expr;
use crate::ast::Pat;
use crate::ast::Path;
use crate::ast::Segment;
use crate::ast::Type;
use crate::ast::UnresolvedPatField;
use crate::dsl::dflt;
use crate::dsl::expr_assign;
use crate::dsl::expr_call;
use crate::dsl::name;
use crate::dsl::name_map;
use crate::dsl::pairs_are;
use crate::dsl::span;
use crate::dsl::ty_hole;
use crate::map::VecMap;
use crate::name::Name;

verus! {

/// A segment with the default span, named `x`, with the types `ts` and bindings `xts`.
pub open spec fn seg_is(s: Segment, x: Seq<char>, ts: Seq<Type>, xts: Seq<(&str, Type)>) -> bool {
    dflt(s.span) && s.name@ == x && s.types@ == ts && pairs_are(s.named_types@, xts)
}

/// The one-segment path `x[ts, xts]`.
pub open spec fn path1_is(p: Path, x: Seq<char>, ts: Seq<Type>, xts: Seq<(&str, Type)>) -> bool {
    p.segments@.len() == 1 && seg_is(p.segments@[0], x, ts, xts)
}

/// The two-segment path `x0[ts, xts]::x1`.
pub open spec fn path2_is(
    p: Path,
    x0: Seq<char>,
    ts: Seq<Type>,
    xts: Seq<(&str, Type)>,
    x1: Seq<char>,
) -> bool {
    p.segments@.len() == 2 && seg_is(p.segments@[0], x0, ts, xts) && seg_is(
        p.segments@[1],
        x1,
        Seq::empty(),
        Seq::empty(),
    )
}

/// An unresolved expression with the default span and type `Hole` at the path `x[ts]`.
pub open spec fn is_name_expr(e: Expr, x: Seq<char>, ts: Seq<Type>) -> bool {
    e matches Expr::Unresolved(s, t, p) && dflt(s) && t is Hole && path1_is(p, x, ts, Seq::empty())
}

/// The call of the associated function `x0::x1` on `args`.
pub open spec fn is_assoc_call(e: Expr, x0: Seq<char>, x1: Seq<char>, args: Seq<Expr>) -> bool {
    e matches Expr::Call(s, t, f, es) && dflt(s) && t is Hole && es@ == args && (*f matches Expr::Unresolved(
        s1,
        t1,
        p,
    ) && dflt(s1) && t1 is Hole && path2_is(p, x0, Seq::empty(), Seq::empty(), x1))
}

pub fn segment(x: &str, ts: Vec<Type>, xts: VecMap<Name, Type>) -> (s: Segment)
    ensures
        dflt(s.span),
        s.name@ == x@,
        s.types == ts,
        s.named_types == xts,
{
    Segment::new(span(), name(x), ts, xts)
}

/// The path with a segment for each triple of name, types and named types.
pub fn path(segments: Vec<(&str, Vec<Type>, VecMap<Name, Type>)>) -> (p: Path)
    ensures
        p.segments@.len() == segments@.len(),
        forall|i: int|
            0 <= i < segments@.len() ==> dflt((#[trigger] p.segments@[i]).span)
                && p.segments@[i].name@ == segments@[i].0@ && p.segments@[i].types
                == segments@[i].1 && p.segments@[i].named_types == segments@[i].2,
{
    let ghost orig = segments@;
    let mut out: Vec<Segment> = Vec::new();
    for t in it: segments
        invariant
            it.seq() == orig,
            out@.len() == it.index(),
            forall|i: int|
                0 <= i < it.index() ==> dflt((#[trigger] out@[i]).span) && out@[i].name@
                    == orig[i].0@ && out@[i].types == orig[i].1 && out@[i].named_types == orig[i].2,
    {
        let (x, ts, xts) = t;
        out.push(segment(x, ts, xts));
    }
    Path::new(out)
}

/// The one-segment path `x[ts, xts]`.
pub fn name_path(x: &str, ts: Vec<Type>, xts: Vec<(&str, Type)>) -> (p: Path)
    ensures
        path1_is(p, x@, ts@, xts@),
{
    let mut segs = Vec::new();
    segs.push(segment(x, ts, name_map(xts)));
    Path::new(segs)
}

fn path2(x0: &str, ts: Vec<Type>, xts: Vec<(&str, Type)>, x1: &str) -> (p: Path)
    ensures
        path2_is(p, x0@, ts@, xts@, x1@),
{
    let mut segs = Vec::new();
    segs.push(segment(x0, ts, name_map(xts)));
    segs.push(segment(x1, Vec::new(), VecMap::new()));
    Path::new(segs)
}

/// `x`, as a variable or item not yet resolved.
pub fn expr_var(x: &str) -> (e: Expr)
    ensures
        is_name_expr(e, x@, Seq::empty()),
{
    Expr::Unresolved(span(), ty_hole(), name_path(x, Vec::new(), Vec::new()))
}

/// `x[ts](x0 = e0, x1 = e1, ..)`.
pub fn expr_struct(x: &str, ts: Vec<Type>, xes: Vec<(&str, Expr)>) -> (e: Expr)
    ensures
        e matches Expr::Call(s, t, f, args) && dflt(s) && t is Hole && is_name_expr(*f, x@, ts@)
            && args@.len() == xes@.len() && (forall|i: int|
            0 <= i < xes@.len() ==> (#[trigger] args@[i] matches Expr::Assign(s1, t1, l, r) && dflt(
                s1,
            ) && t1 is Hole && is_name_expr(*l, xes@[i].0@, Seq::empty()) && *r == xes@[i].1)),
{
    let ghost orig = xes@;
    let mut args: Vec<Expr> = Vec::new();
    for xe in it: xes
        invariant
            it.seq() == orig,
            args@.len() == it.index(),
            forall|i: int|
                0 <= i < it.index() ==> (#[trigger] args@[i] matches Expr::Assign(s1, t1, l, r)
                    && dflt(s1) && t1 is Hole && is_name_expr(*l, orig[i].0@, Seq::empty()) && *r
                    == orig[i].1),
    {
        let (x1, e1) = xe;
        args.push(expr_assign(expr_var(x1), e1));
    }
    Expr::Call(span(), ty_hole(), Rc::new(name_expr(x, ts)), args)
}

pub fn expr_def(x: &str, ts: Vec<Type>) -> (e: Expr)
    ensures
        is_name_expr(e, x@, ts@),
{
    name_expr(x, ts)
}

fn name_expr(x: &str, ts: Vec<Type>) -> (e: Expr)
    ensures
        is_name_expr(e, x@, ts@),
{
    Expr::Unresolved(span(), ty_hole(), name_path(x, ts, Vec::new()))
}

/// `x0[ts]::x1(es)`.
pub fn expr_variant(x0: &str, ts: Vec<Type>, x1: &str, es: Vec<Expr>) -> (e: Expr)
    ensures
        e matches Expr::Call(s, t, f, args) && dflt(s) && t is Hole && args == es && (*f matches Expr::Unresolved(
            s1,
            t1,
            p,
        ) && dflt(s1) && t1 is Hole && path2_is(p, x0@, ts@, Seq::empty(), x1@)),
{
    Expr::Call(
        span(),
        ty_hole(),
        Rc::new(Expr::Unresolved(span(), ty_hole(), path2(x0, ts, Vec::new(), x1))),
        es,
    )
}

/// `x0[ts]::x1`.
pub fn expr_unit_variant(x0: &str, ts: Vec<Type>, x1: &str) -> (e: Expr)
    ensures
        e matches Expr::Unresolved(s, t, p) && dflt(s) && t is Hole && path2_is(
            p,
            x0@,
            ts@,
            Seq::empty(),
            x1@,
        ),
{
    Expr::Unresolved(span(), ty_hole(), path2(x0, ts, Vec::new(), x1))
}

/// `x[ts](es)`.
pub fn expr_call_direct(x: &str, ts: Vec<Type>, es: Vec<Expr>) -> (e: Expr)
    ensures
        e matches Expr::Call(s, t, f, args) && dflt(s) && t is Hole && is_name_expr(*f, x@, ts@)
            && args == es,
{
    expr_call(expr_def(x, ts), es)
}

/// `x0[ts, xts]::x1`.
pub fn expr_assoc(x0: &str, ts: Vec<Type>, xts: Vec<(&str, Type)>, x1: &str) -> (e: Expr)
    ensures
        e matches Expr::Unresolved(s, t, p) && dflt(s) && t is Hole && path2_is(
            p,
            x0@,
            ts@,
            xts@,
            x1@,
        ),
{
    Expr::Unresolved(span(), ty_hole(), path2(x0, ts, xts, x1))
}

/// `x0::x1(e0, e1)`: a binary operator as a call of its trait's method.
pub fn expr_binop(x0: &str, x1: &str, e0: Expr, e1: Expr) -> (e: Expr)
    ensures
        is_assoc_call(e, x0@, x1@, seq![e0, e1]),
{
    let mut es = Vec::new();
    es.push(e0);
    es.push(e1);
    assert(es@ =~= seq![e0, e1]);
    Expr::Call(span(), ty_hole(), Rc::new(expr_assoc(x0, Vec::new(), Vec::new(), x1)), es)
}

/// `x0::x1`.
pub fn expr_enum(x0: &str, x1: &str) -> (e: Expr)
    ensures
        e matches Expr::Unresolved(s, t, p) && dflt(s) && t is Hole && path2_is(
            p,
            x0@,
            Seq::empty(),
            Seq::empty(),
            x1@,
        ),
{
    Expr::Unresolved(span(), ty_hole(), path2(x0, Vec::new(), Vec::new(), x1))
}

/// `x0::x1(e)`: a unary operator as a call of its trait's method.
pub fn expr_unop(x0: &str, x1: &str, e: Expr) -> (r: Expr)
    ensures
        is_assoc_call(r, x0@, x1@, seq![e]),
{
    let mut es = Vec::new();
    es.push(e);
    assert(es@ =~= seq![e]);
    Expr::Call(span(), ty_hole(), Rc::new(expr_assoc(x0, Vec::new(), Vec::new(), x1)), es)
}

pub fn expr_add(e0: Expr, e1: Expr) -> (e: Expr)
    ensures
        is_assoc_call(e, "Add"@, "add"@, seq![e0, e1]),
{
    expr_binop("Add", "add", e0, e1)
}

pub fn expr_sub(e0: Expr, e1: Expr) -> (e: Expr)
    ensures
        is_assoc_call(e, "Sub"@, "sub"@, seq![e0, e1]),
{
    expr_binop("Sub", "sub", e0, e1)
}

pub fn expr_mul(e0: Expr, e1: Expr) -> (e: Expr)
    ensures
        is_assoc_call(e, "Mul"@, "mul"@, seq![e0, e1]),
{
    expr_binop("Mul", "mul", e0, e1)
}

pub fn expr_div(e0: Expr, e1: Expr) -> (e: Expr)
    ensures
        is_assoc_call(e, "Div"@, "div"@, seq![e0, e1]),
{
    expr_binop("Div", "div", e0, e1)
}

pub fn expr_eq(e0: Expr, e1: Expr) -> (e: Expr)
    ensures
        is_assoc_call(e, "PartialEq"@, "eq"@, seq![e0, e1]),
{
    expr_binop("PartialEq", "eq", e0, e1)
}

pub fn expr_ne(e0: Expr, e1: Expr) -> (e: Expr)
    ensures
        is_assoc_call(e, "PartialEq"@, "ne"@, seq![e0, e1]),
{
    expr_binop("PartialEq", "ne", e0, e1)
}

pub fn expr_lt(e0: Expr, e1: Expr) -> (e: Expr)
    ensures
        is_assoc_call(e, "PartialOrd"@, "lt"@, seq![e0, e1]),
{
    expr_binop("PartialOrd", "lt", e0, e1)
}

pub fn expr_le(e0: Expr, e1: Expr) -> (e: Expr)
    ensures
        is_assoc_call(e, "PartialOrd"@, "le"@, seq![e0, e1]),
{
    expr_binop("PartialOrd", "le", e0, e1)
}

pub fn expr_gt(e0: Expr, e1: Expr) -> (e: Expr)
    ensures
        is_assoc_call(e, "PartialOrd"@, "gt"@, seq![e0, e1]),
{
    expr_binop("PartialOrd", "gt", e0, e1)
}

pub fn expr_ge(e0: Expr, e1: Expr) -> (e: Expr)
    ensures
        is_assoc_call(e, "PartialOrd"@, "ge"@, seq![e0, e1]),
{
    expr_binop("PartialOrd", "ge", e0, e1)
}

pub fn expr_not(e: Expr) -> (r: Expr)
    ensures
        is_assoc_call(r, "Not"@, "not"@, seq![e]),
{
    expr_unop("Not", "not", e)
}

pub fn expr_neg(e: Expr) -> (r: Expr)
    ensures
        is_assoc_call(r, "Neg"@, "neg"@, seq![e]),
{
    expr_unop("Neg", "neg", e)
}

/// A variable pattern, not yet told apart from a unit struct or variant.
pub fn pat_var(x: &str) -> (p: Pat)
    ensures
        p matches Pat::Unresolved(s, t, path, fs) && dflt(s) && t is Hole && path1_is(
            path,
            x@,
            Seq::empty(),
            Seq::empty(),
        ) && fs is None,
{
    Pat::Unresolved(span(), ty_hole(), name_path(x, Vec::new(), Vec::new()), None)
}

/// `x0[ts]::x1(p)`.
pub fn pat_enum(x0: &str, ts: Vec<Type>, x1: &str, p: Pat) -> (r: Pat)
    ensures
        r matches Pat::Unresolved(s, t, path, fs) && dflt(s) && t is Hole && path2_is(
            path,
            x0@,
            ts@,
            Seq::empty(),
            x1@,
        ) && (fs matches Some(v) && v@.len() == 1 && v@[0] == UnresolvedPatField::Unnamed(p)),
{
    let mut fs = Vec::new();
    fs.push(UnresolvedPatField::Unnamed(p));
    Pat::Unresolved(span(), ty_hole(), path2(x0, ts, Vec::new(), x1), Some(fs))
}

/// `x0[ts](x = p, ..)`.
pub fn pat_struct(x0: &str, ts: Vec<Type>, xps: Vec<(&str, Pat)>) -> (r: Pat)
    ensures
        r matches Pat::Unresolved(s, t, path, fs) && dflt(s) && t is Hole && path1_is(
            path,
            x0@,
            ts@,
            Seq::empty(),
        ) && (fs matches Some(v) && v@.len() == xps@.len() && (forall|i: int|
            0 <= i < xps@.len() ==> (#[trigger] v@[i] matches UnresolvedPatField::Named(n, q)
                && n@ == xps@[i].0@ && q == xps@[i].1))),
{
    let ghost orig = xps@;
    let mut fs: Vec<UnresolvedPatField> = Vec::new();
    for xp in it: xps
        invariant
            it.seq() == orig,
            fs@.len() == it.index(),
            forall|i: int|
                0 <= i < it.index() ==> (#[trigger] fs@[i] matches UnresolvedPatField::Named(n, q)
                    && n@ == orig[i].0@ && q == orig[i].1),
    {
        let (x, p) = xp;
        fs.push(UnresolvedPatField::Named(name(x), p));
    }
    Pat::Unresolved(span(), ty_hole(), name_path(x0, ts, Vec::new()), Some(fs))
}

/// `x[ts]` as a pattern without fields.
pub fn pat_unit_struct(x: &str, ts: Vec<Type>) -> (r: Pat)
    ensures
        r matches Pat::Unresolved(s, t, path, fs) && dflt(s) && t is Hole && path1_is(
            path,
            x@,
            ts@,
            Seq::empty(),
        ) && fs is None,
{
    Pat::Unresolved(span(), ty_hole(), name_path(x, ts, Vec::new()), None)
}

pub fn ty_con(x: &str, ts: Vec<Type>) -> (t: Type)
    ensures
        t matches Type::Unresolved(p) && path1_is(p, x@, ts@, Seq::empty()),
{
    Type::Unresolved(name_path(x, ts, Vec::new()))
}

pub fn ty(x: &str) -> (t: Type)
    ensures
        t matches Type::Unresolved(p) && path1_is(p, x@, Seq::empty(), Seq::empty()),
{
    Type::Unresolved(name_path(x, Vec::new(), Vec::new()))
}

/// `x0[ts, xts]::x1` as a type.
pub fn ty_assoc(x0: &str, ts: Vec<Type>, xts: Vec<(&str, Type)>, x1: &str) -> (t: Type)
    ensures
        t matches Type::Unresolved(p) && path2_is(p, x0@, ts@, xts@, x1@),
{
    Type::Unresolved(path2(x0, ts, xts, x1))
}

pub fn bound(x: &str, ts: Vec<Type>, xts: Vec<(&str, Type)>) -> (b: Bound)
    ensures
        b matches Bound::Unresolved(s, p) && dflt(s) && path1_is(p, x@, ts@, xts@),
{
    Bound::Unresolved(span(), name_path(x, ts, xts))
}

/// The head of an impl: `x[ts]`.
pub fn head(x: &str, ts: Vec<Type>) -> (b: Bound)
    ensures
        b matches Bound::Unresolved(s, p) && dflt(s) && path1_is(p, x@, ts@, Seq::empty()),
{
    Bound::Unresolved(span(), name_path(x, ts, Vec::new()))
}

} // verus!
