//! Small constructors for syntax trees, used to write expected trees by hand.
//! Every node they build carries the default span and, where it has a type,
//! the type `Hole`.
use std::rc::Rc;

use vstd::prelude::*;

use crate::ast::Arm;
use crate::ast::Block;
use crate::ast::Bound;
use crate::ast::Expr;
use crate::ast::Index;
use crate::ast::Param;
use crate::ast::Pat;
use crate::ast::Program;
use crate::ast::Query;
use crate::ast::Stmt;
use crate::ast::StmtDef;
use crate::ast::StmtDefBody;
use crate::ast::StmtEnum;
use crate::ast::StmtImpl;
use crate::ast::StmtStruct;
use crate::ast::StmtTrait;
use crate::ast::StmtType;
use crate::ast::StmtTypeBody;
use crate::ast::StmtVar;
use crate::ast::TraitBound;
use crate::ast::TraitDef;
use crate::ast::TraitType;
use crate::ast::Type;
use crate::ast::spec_with_ty;
use crate::map::VecMap;
use crate::name::Name;
use crate::span::Span;
use crate::text::parse_usize;
use crate::text::spec_decimal;
use crate::text::spec_is_decimal;
use crate::text::trim_lines;
use crate::text::spec_trim_lines;

pub mod traits;
pub mod types;
pub mod unresolved;

verus! {

pub open spec fn dflt(s: Span) -> bool {
    s == Span::spec_default()
}

/// `ns` holds names spelled like the strings `xs`, in order.
pub open spec fn names_are(ns: Seq<Name>, xs: Seq<&str>) -> bool {
    &&& ns.len() == xs.len()
    &&& forall|i: int| 0 <= i < xs.len() ==> #[trigger] ns[i]@ == xs[i]@
}

/// `m` pairs names spelled like the strings of `xs` with the values of `xs`, in order.
pub open spec fn pairs_are<V>(m: Seq<(Name, V)>, xs: Seq<(&str, V)>) -> bool {
    &&& m.len() == xs.len()
    &&& forall|i: int| 0 <= i < xs.len() ==> #[trigger] m[i].0@ == xs[i].0@ && m[i].1 == xs[i].1
}

/// `ps` are parameters with default spans, named and typed as in `xs`.
pub open spec fn params_are(ps: Seq<Param>, xs: Seq<(&str, Type)>) -> bool {
    &&& ps.len() == xs.len()
    &&& forall|i: int|
        0 <= i < xs.len() ==> #[trigger] ps[i].name@ == xs[i].0@ && ps[i].ty == xs[i].1 && dflt(
            ps[i].span,
        )
}

/// `arms` are arms with default spans, with the patterns and bodies of `pes`.
pub open spec fn arms_are(arms: Seq<Arm>, pes: Seq<(Pat, Expr)>) -> bool {
    &&& arms.len() == pes.len()
    &&& forall|i: int|
        0 <= i < pes.len() ==> #[trigger] arms[i].p == pes[i].0 && arms[i].e == pes[i].1 && dflt(
            arms[i].span,
        )
}

/// A block with the default span.
pub open spec fn block_is(b: Block, ss: Seq<Stmt>, e: Expr) -> bool {
    dflt(b.span) && b.stmts@ == ss && *b.expr == e
}

pub open spec fn is_bool_pat(p: Pat, v: bool) -> bool {
    p matches Pat::Bool(s, t, b) && dflt(s) && t is Hole && b == v
}

pub open spec fn is_wild_pat(p: Pat) -> bool {
    p matches Pat::Wildcard(s, t) && dflt(s) && t is Hole
}

pub open spec fn is_bool_expr(e: Expr, v: bool) -> bool {
    e matches Expr::Bool(s, t, b) && dflt(s) && t is Hole && b == v
}

pub open spec fn is_unit_expr(e: Expr) -> bool {
    e matches Expr::Tuple(s, t, es) && dflt(s) && t is Hole && es@.len() == 0
}

/// A trait bound named `x` with the types `ts` and the bindings `xts`.
pub open spec fn trait_bound_is(b: TraitBound, x: Seq<char>, ts: Seq<Type>, xts: Seq<(&str, Type)>) -> bool {
    b.name@ == x && b.types@ == ts && pairs_are(b.assoc_types@, xts)
}

/// The span of generated code.
pub fn span() -> (s: Span)
    ensures
        dflt(s),
{
    Span::default()
}

pub fn name(x: &str) -> (n: Name)
    ensures
        n@ == x@,
{
    Name::from_str(x)
}

/// The names spelled by `xs`.
pub fn names(xs: Vec<&str>) -> (ns: Vec<Name>)
    ensures
        names_are(ns@, xs@),
{
    let mut ns: Vec<Name> = Vec::new();
    let mut i: usize = 0;
    while i < xs.len()
        invariant
            i <= xs@.len(),
            ns@.len() == i,
            forall|j: int| 0 <= j < i ==> #[trigger] ns@[j]@ == xs@[j]@,
        decreases xs@.len() - i,
    {
        ns.push(name(xs[i]));
        i = i + 1;
    }
    ns
}

/// A map from the names spelled by the keys of `xs` to their values, in order.
pub fn name_map<V>(xs: Vec<(&str, V)>) -> (m: VecMap<Name, V>)
    ensures
        pairs_are(m@, xs@),
{
    let ghost orig = xs@;
    let mut out: Vec<(Name, V)> = Vec::new();
    for p in it: xs
        invariant
            it.seq() == orig,
            out@.len() == it.index(),
            forall|j: int|
                0 <= j < it.index() ==> #[trigger] out@[j].0@ == orig[j].0@ && out@[j].1 == orig[j].1,
    {
        let (x, v) = p;
        out.push((name(x), v));
    }
    VecMap::from_vec(out)
}

/// Parameters with default spans, named and typed as in `xts`.
pub fn params(xts: Vec<(&str, Type)>) -> (ps: Vec<Param>)
    ensures
        params_are(ps@, xts@),
{
    let ghost orig = xts@;
    let mut out: Vec<Param> = Vec::new();
    for p in it: xts
        invariant
            it.seq() == orig,
            out@.len() == it.index(),
            forall|j: int|
                #![trigger out@[j]]
                0 <= j < it.index() ==> out@[j].name@ == orig[j].0@ && out@[j].ty == orig[j].1
                    && dflt(out@[j].span),
    {
        let (x, t) = p;
        out.push(Param::new(span(), name(x), t));
    }
    out
}

/// Removes the blanks at the end of the text and at the end of each of its lines.
pub fn trim(s: &str) -> (r: String)
    ensures
        r@ == spec_trim_lines(s@),
{
    trim_lines(s)
}

pub fn program(ss: Vec<Stmt>) -> (p: Program)
    ensures
        p.stmts == ss,
{
    Program::new(ss)
}

pub fn stmt_trait(
    x: &str,
    gs: Vec<&str>,
    bounds: Vec<Bound>,
    defs: Vec<TraitDef>,
    types: Vec<TraitType>,
) -> (s: Stmt)
    ensures
        s matches Stmt::Trait(t) && dflt(t.span) && t.name@ == x@ && names_are(t.generics@, gs@)
            && t.bounds == bounds && t.defs == defs && t.types == types,
{
    Stmt::Trait(StmtTrait::new(span(), name(x), names(gs), bounds, defs, types))
}

/// The definitions held by definition statements, in order.
pub fn defs_of(ss: Vec<Stmt>) -> (ds: Vec<Rc<StmtDef>>)
    requires
        forall|i: int| 0 <= i < ss@.len() ==> #[trigger] ss@[i] is Def,
    ensures
        ds@.len() == ss@.len(),
        forall|i: int| 0 <= i < ss@.len() ==> #[trigger] ds@[i] == ss@[i]->Def_0,
{
    let ghost orig = ss@;
    let mut out: Vec<Rc<StmtDef>> = Vec::new();
    for s in it: ss
        invariant
            it.seq() == orig,
            forall|i: int| 0 <= i < orig.len() ==> #[trigger] orig[i] is Def,
            out@.len() == it.index(),
            forall|j: int| 0 <= j < it.index() ==> #[trigger] out@[j] == orig[j]->Def_0,
    {
        match s {
            Stmt::Def(d) => out.push(d),
            _ => vstd::pervasive::unreached(),
        }
    }
    out
}

/// The type aliases held by type statements, in order.
pub fn types_of(ss: Vec<Stmt>) -> (ts: Vec<Rc<StmtType>>)
    requires
        forall|i: int| 0 <= i < ss@.len() ==> #[trigger] ss@[i] is Type,
    ensures
        ts@.len() == ss@.len(),
        forall|i: int| 0 <= i < ss@.len() ==> #[trigger] ts@[i] == ss@[i]->Type_0,
{
    let ghost orig = ss@;
    let mut out: Vec<Rc<StmtType>> = Vec::new();
    for s in it: ss
        invariant
            it.seq() == orig,
            forall|i: int| 0 <= i < orig.len() ==> #[trigger] orig[i] is Type,
            out@.len() == it.index(),
            forall|j: int| 0 <= j < it.index() ==> #[trigger] out@[j] == orig[j]->Type_0,
    {
        match s {
            Stmt::Type(t) => out.push(t),
            _ => vstd::pervasive::unreached(),
        }
    }
    out
}

/// Each value of `xs`, behind its own pointer.
pub fn rcs<T>(xs: Vec<T>) -> (r: Vec<Rc<T>>)
    ensures
        r@.len() == xs@.len(),
        forall|i: int| 0 <= i < xs@.len() ==> *#[trigger] r@[i] == xs@[i],
{
    let ghost orig = xs@;
    let mut out: Vec<Rc<T>> = Vec::new();
    for x in it: xs
        invariant
            it.seq() == orig,
            out@.len() == it.index(),
            forall|j: int| 0 <= j < it.index() ==> *#[trigger] out@[j] == orig[j],
    {
        out.push(Rc::new(x));
    }
    out
}

/// `impl[gs] head where body { defs types }`; `defs` must be definitions and `types` type aliases.
pub fn stmt_impl(
    gs: Vec<&str>,
    head: Bound,
    body: Vec<Bound>,
    defs: Vec<Stmt>,
    types: Vec<Stmt>,
) -> (s: Stmt)
    requires
        forall|i: int| 0 <= i < defs@.len() ==> #[trigger] defs@[i] is Def,
        forall|i: int| 0 <= i < types@.len() ==> #[trigger] types@[i] is Type,
    ensures
        s matches Stmt::Impl(i) && dflt(i.span) && names_are(i.generics@, gs@) && i.head == head
            && i.where_clause == body && i.defs@.len() == defs@.len() && (forall|k: int|
            0 <= k < defs@.len() ==> #[trigger] i.defs@[k] == defs@[k]->Def_0) && i.types@.len()
            == types@.len() && (forall|k: int|
            0 <= k < types@.len() ==> #[trigger] i.types@[k] == types@[k]->Type_0),
{
    Stmt::Impl(
        Rc::new(StmtImpl::new(span(), names(gs), head, body, defs_of(defs), types_of(types))),
    )
}

/// A fact: `impl[gs] head { defs types }` with no where clause.
pub fn fact(gs: Vec<&str>, head: Bound, defs: Vec<StmtDef>, types: Vec<StmtType>) -> (i: StmtImpl)
    ensures
        dflt(i.span),
        names_are(i.generics@, gs@),
        i.head == head,
        i.where_clause@.len() == 0,
        i.defs@.len() == defs@.len(),
        forall|k: int| 0 <= k < defs@.len() ==> *#[trigger] i.defs@[k] == defs@[k],
        i.types@.len() == types@.len(),
        forall|k: int| 0 <= k < types@.len() ==> *#[trigger] i.types@[k] == types@[k],
{
    StmtImpl::new(span(), names(gs), head, Vec::new(), rcs(defs), rcs(types))
}

/// The predicate `ts[0]: x[ts[1..], xts]`.
pub fn bound(x: &str, ts: Vec<Type>, xts: Vec<(&str, Type)>) -> (b: Bound)
    ensures
        b matches Bound::Trait(s, tb) && dflt(s) && trait_bound_is(tb, x@, ts@, xts@),
{
    Bound::Trait(span(), trait_bound(x, ts, xts))
}

pub fn trait_bound(x: &str, ts: Vec<Type>, xts: Vec<(&str, Type)>) -> (b: TraitBound)
    ensures
        trait_bound_is(b, x@, ts@, xts@),
{
    TraitBound::new(name(x), ts, name_map(xts))
}

pub fn bound_err() -> (b: Bound)
    ensures
        b matches Bound::Error(s) && dflt(s),
{
    Bound::Error(span())
}

pub fn ty_alias(x: &str, ts: Vec<Type>) -> (t: Type)
    ensures
        t matches Type::Alias(n, ts2) && n@ == x@ && ts2 == ts,
{
    Type::Alias(name(x), ts)
}

/// The type constructor `x` without arguments; `x` must not name a type variable.
pub fn ty(x: &str) -> (t: Type)
    requires
        !(x@.len() > 0 && x@[0] == '?'),
    ensures
        t matches Type::Cons(n, ts) && n@ == x@ && ts@.len() == 0,
{
    ty_con(x, Vec::new())
}

pub fn ty_err() -> (t: Type)
    ensures
        t is Error,
{
    Type::Error
}

pub fn ty_hole() -> (t: Type)
    ensures
        t is Hole,
{
    Type::Hole
}

pub fn ty_con(x: &str, types: Vec<Type>) -> (t: Type)
    ensures
        t matches Type::Cons(n, ts) && n@ == x@ && ts == types,
{
    Type::Cons(name(x), types)
}

pub fn ty_tuple(ts: Vec<Type>) -> (t: Type)
    ensures
        t matches Type::Tuple(ts2) && ts2 == ts,
{
    Type::Tuple(ts)
}

pub fn ty_fun(ts: Vec<Type>, t: Type) -> (r: Type)
    ensures
        r matches Type::Fun(ts2, t2) && ts2 == ts && *t2 == t,
{
    Type::Fun(ts, Rc::new(t))
}

/// The type variable `x`, which must start with `?`.
pub fn ty_var(x: &str) -> (t: Type)
    requires
        x@.len() > 0 && x@[0] == '?',
    ensures
        t matches Type::Var(n) && n@ == x@,
{
    Type::Var(name(x))
}

pub fn ty_gen(x: &str) -> (t: Type)
    ensures
        t matches Type::Generic(n) && n@ == x@,
{
    Type::Generic(name(x))
}

/// The associated type `x1[ts1]` of the bound `x0[ts0, xts0]`.
pub fn ty_assoc(
    x0: &str,
    ts0: Vec<Type>,
    xts0: Vec<(&str, Type)>,
    x1: &str,
    ts1: Vec<Type>,
) -> (t: Type)
    ensures
        t matches Type::Assoc(b, n, ts) && trait_bound_is(b, x0@, ts0@, xts0@) && n@ == x1@ && ts
            == ts1,
{
    Type::Assoc(trait_bound(x0, ts0, xts0), name(x1), ts1)
}

pub fn pat_record(xps: Vec<(&str, Pat)>) -> (p: Pat)
    ensures
        p matches Pat::Record(s, t, m) && dflt(s) && t is Hole && pairs_are(m@, xps@),
{
    Pat::Record(span(), ty_hole(), name_map(xps))
}

/// The associated item `x1[ts1]` of the trait `x0[ts0]`.
pub fn expr_assoc(x0: &str, ts0: Vec<Type>, x1: &str, ts1: Vec<Type>) -> (e: Expr)
    ensures
        e matches Expr::Assoc(s, t, b, n, ts) && dflt(s) && t is Hole && trait_bound_is(
            b,
            x0@,
            ts0@,
            Seq::empty(),
        ) && n@ == x1@ && ts == ts1,
{
    let b = trait_bound(x0, ts0, Vec::new());
    Expr::Assoc(span(), ty_hole(), b, name(x1), ts1)
}

pub fn expr_assign(e0: Expr, e1: Expr) -> (e: Expr)
    ensures
        e matches Expr::Assign(s, t, a, b) && dflt(s) && t is Hole && *a == e0 && *b == e1,
{
    Expr::Assign(span(), ty_hole(), Rc::new(e0), Rc::new(e1))
}

pub fn stmt_var(x: &str, t: Type, e: Expr) -> (s: Stmt)
    ensures
        s matches Stmt::Var(v) && dflt(v.span) && v.name@ == x@ && v.ty == t && v.expr == e,
{
    Stmt::Var(StmtVar::new(span(), name(x), t, e))
}

pub fn type_body(t: Type) -> (b: StmtTypeBody)
    ensures
        b == StmtTypeBody::UserDefined(t),
{
    StmtTypeBody::UserDefined(t)
}

pub fn stmt_type(x: &str, generics: Vec<&str>, t: StmtTypeBody) -> (s: Stmt)
    ensures
        s matches Stmt::Type(st) && dflt(st.span) && st.name@ == x@ && names_are(
            st.generics@,
            generics@,
        ) && st.body == t,
{
    Stmt::Type(Rc::new(StmtType::new(span(), name(x), names(generics), t)))
}

pub fn stmt_expr(e: Expr) -> (s: Stmt)
    ensures
        s == Stmt::Expr(e),
{
    Stmt::Expr(e)
}

pub fn expr_unit() -> (e: Expr)
    ensures
        is_unit_expr(e),
{
    Expr::Tuple(span(), ty_hole(), Vec::new())
}

pub fn ty_unit() -> (t: Type)
    ensures
        t matches Type::Tuple(ts) && ts@.len() == 0,
{
    Type::Tuple(Vec::new())
}

pub fn expr_struct(x: &str, ts: Vec<Type>, xes: Vec<(&str, Expr)>) -> (e: Expr)
    ensures
        e matches Expr::Struct(s, t, n, ts2, m) && dflt(s) && t is Hole && n@ == x@ && ts2 == ts
            && pairs_are(m@, xes@),
{
    Expr::Struct(span(), ty_hole(), name(x), ts, name_map(xes))
}

pub fn expr_tuple(es: Vec<Expr>) -> (e: Expr)
    ensures
        e matches Expr::Tuple(s, t, es2) && dflt(s) && t is Hole && es2 == es,
{
    Expr::Tuple(span(), ty_hole(), es)
}

pub fn expr_array(es: Vec<Expr>) -> (e: Expr)
    ensures
        e matches Expr::Array(s, t, es2) && dflt(s) && t is Hole && es2 == es,
{
    Expr::Array(span(), ty_hole(), es)
}

pub fn expr_index(e1: Expr, i: Index) -> (e: Expr)
    ensures
        e matches Expr::Index(s, t, a, j) && dflt(s) && t is Hole && *a == e1 && j == i,
{
    Expr::Index(span(), ty_hole(), Rc::new(e1), i)
}

/// The index written in decimal by `i`, which must be a decimal number that fits a `usize`.
pub fn index(i: &str) -> (r: Index)
    requires
        spec_is_decimal(i@),
        spec_decimal(i@) <= usize::MAX,
    ensures
        dflt(r.span),
        r.data == spec_decimal(i@),
{
    let v = parse_usize(i);
    match v {
        Some(v) => Index::new(span(), v),
        None => vstd::pervasive::unreached(),
    }
}

pub fn expr_field(e: Expr, x: &str) -> (r: Expr)
    ensures
        r matches Expr::Field(s, t, a, n) && dflt(s) && t is Hole && *a == e && n@ == x@,
{
    Expr::Field(span(), ty_hole(), Rc::new(e), name(x))
}

pub fn expr_enum(x0: &str, ts: Vec<Type>, x1: &str, e: Expr) -> (r: Expr)
    ensures
        r matches Expr::Enum(s, t, n0, ts2, n1, a) && dflt(s) && t is Hole && n0@ == x0@ && ts2
            == ts && n1@ == x1@ && *a == e,
{
    Expr::Enum(span(), ty_hole(), name(x0), ts, name(x1), Rc::new(e))
}

pub fn expr_body(e: Expr) -> (b: StmtDefBody)
    ensures
        b == StmtDefBody::UserDefined(e),
{
    StmtDefBody::UserDefined(e)
}

pub fn stmt_def(
    x: &str,
    gs: Vec<&str>,
    ps: Vec<(&str, Type)>,
    t: Type,
    qs: Vec<Bound>,
    b: StmtDefBody,
) -> (s: Stmt)
    ensures
        s matches Stmt::Def(d) && dflt(d.span) && d.name@ == x@ && names_are(d.generics@, gs@)
            && params_are(d.params@, ps@) && d.ty == t && d.where_clause == qs && d.body == b,
{
    Stmt::Def(Rc::new(StmtDef::new(span(), name(x), names(gs), params(ps), t, qs, b)))
}

pub fn stmt_err() -> (s: Stmt)
    ensures
        s matches Stmt::Error(sp) && dflt(sp),
{
    Stmt::Error(span())
}

/// The declaration of a method in a trait.
pub fn tr_def(x: &str, gs: Vec<&str>, xts: Vec<(&str, Type)>, t: Type, qs: Vec<Bound>) -> (d:
    TraitDef)
    ensures
        dflt(d.span),
        d.name@ == x@,
        names_are(d.generics@, gs@),
        params_are(d.params@, xts@),
        d.ty == t,
        d.where_clause == qs,
{
    TraitDef::new(span(), name(x), names(gs), params(xts), t, qs)
}

/// The declaration of an associated type in a trait.
pub fn tr_type(x: &str, gs: Vec<&str>) -> (t: TraitType)
    ensures
        dflt(t.span),
        t.name@ == x@,
        names_are(t.generics@, gs@),
{
    TraitType::new(span(), name(x), names(gs))
}

pub fn stmt_struct(x: &str, gs: Vec<&str>, xts: Vec<(&str, Type)>) -> (s: Stmt)
    ensures
        s matches Stmt::Struct(st) && dflt(st.span) && st.name@ == x@ && names_are(
            st.generics@,
            gs@,
        ) && pairs_are(st.fields@, xts@),
{
    Stmt::Struct(StmtStruct::new(span(), name(x), names(gs), name_map(xts)))
}

pub fn stmt_enum(x: &str, gs: Vec<&str>, xts: Vec<(&str, Type)>) -> (s: Stmt)
    ensures
        s matches Stmt::Enum(st) && dflt(st.span) && st.name@ == x@ && names_are(
            st.generics@,
            gs@,
        ) && pairs_are(st.variants@, xts@),
{
    Stmt::Enum(StmtEnum::new(span(), name(x), names(gs), name_map(xts)))
}

pub fn expr_call(e: Expr, es: Vec<Expr>) -> (r: Expr)
    ensures
        r matches Expr::Call(s, t, f, args) && dflt(s) && t is Hole && *f == e && args == es,
{
    Expr::Call(span(), ty_hole(), Rc::new(e), es)
}

/// `e0 and e1`: `match e0 { true => e1, _ => false }`.
pub fn expr_and(e0: Expr, e1: Expr) -> (r: Expr)
    ensures
        r matches Expr::Match(s, t, a, arms) && dflt(s) && t is Hole && *a == e0 && arms@.len()
            == 2 && dflt(arms@[0].span) && is_bool_pat(arms@[0].p, true) && arms@[0].e == e1
            && dflt(arms@[1].span) && is_wild_pat(arms@[1].p) && is_bool_expr(arms@[1].e, false),
{
    let mut pes: Vec<(Pat, Expr)> = Vec::new();
    pes.push((pat_bool(true), e1));
    pes.push((pat_wild(), expr_bool(false)));
    Expr::Match(span(), ty_hole(), Rc::new(e0), arms(pes))
}

/// `e0 or e1`: `match e0 { true => true, _ => e1 }`.
pub fn expr_or(e0: Expr, e1: Expr) -> (r: Expr)
    ensures
        r matches Expr::Match(s, t, a, arms) && dflt(s) && t is Hole && *a == e0 && arms@.len()
            == 2 && dflt(arms@[0].span) && is_bool_pat(arms@[0].p, true) && is_bool_expr(
            arms@[0].e,
            true,
        ) && dflt(arms@[1].span) && is_wild_pat(arms@[1].p) && arms@[1].e == e1,
{
    let mut pes: Vec<(Pat, Expr)> = Vec::new();
    pes.push((pat_bool(true), expr_bool(true)));
    pes.push((pat_wild(), e1));
    Expr::Match(span(), ty_hole(), Rc::new(e0), arms(pes))
}

pub fn expr_var(x: &str) -> (e: Expr)
    ensures
        e matches Expr::Var(s, t, n) && dflt(s) && t is Hole && n@ == x@,
{
    Expr::Var(span(), ty_hole(), name(x))
}

pub fn pat_var(x: &str) -> (p: Pat)
    ensures
        p matches Pat::Var(s, t, n) && dflt(s) && t is Hole && n@ == x@,
{
    Pat::Var(span(), ty_hole(), name(x))
}

pub fn pat_int(i: &str) -> (p: Pat)
    ensures
        p matches Pat::Int(s, t, v) && dflt(s) && t is Hole && v@ == i@,
{
    Pat::Int(span(), ty_hole(), i.to_owned())
}

pub fn pat_string(x: &str) -> (p: Pat)
    ensures
        p matches Pat::String(s, t, v) && dflt(s) && t is Hole && v@ == x@,
{
    Pat::String(span(), ty_hole(), x.to_owned())
}

pub fn pat_unit() -> (p: Pat)
    ensures
        p matches Pat::Tuple(s, t, ps) && dflt(s) && t is Hole && ps@.len() == 0,
{
    Pat::Tuple(span(), ty_hole(), Vec::new())
}

pub fn pat_bool(b: bool) -> (p: Pat)
    ensures
        is_bool_pat(p, b),
{
    Pat::Bool(span(), ty_hole(), b)
}

pub fn pat_char(c: char) -> (p: Pat)
    ensures
        p matches Pat::Char(s, t, v) && dflt(s) && t is Hole && v == c,
{
    Pat::Char(span(), ty_hole(), c)
}

pub fn pat_wild() -> (p: Pat)
    ensures
        is_wild_pat(p),
{
    Pat::Wildcard(span(), ty_hole())
}

pub fn pat_tuple(ps: Vec<Pat>) -> (p: Pat)
    ensures
        p matches Pat::Tuple(s, t, ps2) && dflt(s) && t is Hole && ps2 == ps,
{
    Pat::Tuple(span(), ty_hole(), ps)
}

pub fn pat_enum(x0: &str, ts: Vec<Type>, x1: &str, p: Pat) -> (r: Pat)
    ensures
        r matches Pat::Enum(s, t, n0, ts2, n1, q) && dflt(s) && t is Hole && n0@ == x0@ && ts2
            == ts && n1@ == x1@ && *q == p,
{
    Pat::Enum(span(), ty_hole(), name(x0), ts, name(x1), Rc::new(p))
}

pub fn pat_struct(x: &str, ts: Vec<Type>, xps: Vec<(&str, Pat)>) -> (p: Pat)
    ensures
        p matches Pat::Struct(s, t, n, ts2, m) && dflt(s) && t is Hole && n@ == x@ && ts2 == ts
            && pairs_are(m@, xps@),
{
    Pat::Struct(span(), ty_hole(), name(x), ts, name_map(xps))
}

/// The pattern `p` annotated with the type `t`.
pub fn pat_annot(t: Type, p: Pat) -> (r: Pat)
    ensures
        r == spec_with_ty(p, t),
{
    p.with_ty(t)
}

pub fn arms(pes: Vec<(Pat, Expr)>) -> (r: Vec<Arm>)
    ensures
        arms_are(r@, pes@),
{
    let ghost orig = pes@;
    let mut out: Vec<Arm> = Vec::new();
    for pe in it: pes
        invariant
            it.seq() == orig,
            out@.len() == it.index(),
            forall|j: int|
                0 <= j < it.index() ==> #[trigger] out@[j].p == orig[j].0 && out@[j].e == orig[j].1
                    && dflt(out@[j].span),
    {
        let (p, e) = pe;
        out.push(Arm::new(span(), p, e));
    }
    out
}

pub fn expr_match(e: Expr, pes: Vec<(Pat, Expr)>) -> (r: Expr)
    ensures
        r matches Expr::Match(s, t, a, arms) && dflt(s) && t is Hole && *a == e && arms_are(
            arms@,
            pes@,
        ),
{
    Expr::Match(span(), ty_hole(), Rc::new(e), arms(pes))
}

/// `if e0 { b1 }`: `match e0 { true => b1, _ => () }`.
pub fn expr_if(e0: Expr, b1: Block) -> (r: Expr)
    ensures
        r matches Expr::Match(s, t, a, arms) && dflt(s) && t is Hole && *a == e0 && arms@.len()
            == 2 && dflt(arms@[0].span) && is_bool_pat(arms@[0].p, true) && (arms@[0].e matches Expr::Block(
            s1,
            t1,
            b,
        ) && dflt(s1) && t1 is Hole && b == b1) && dflt(arms@[1].span) && is_wild_pat(arms@[1].p)
            && is_unit_expr(arms@[1].e),
{
    let mut pes: Vec<(Pat, Expr)> = Vec::new();
    pes.push((pat_bool(true), Expr::Block(span(), Type::Hole, b1)));
    pes.push((pat_wild(), expr_unit()));
    Expr::Match(span(), ty_hole(), Rc::new(e0), arms(pes))
}

/// `if e0 { b1 } else { b2 }`: `match e0 { true => b1, _ => b2 }`.
pub fn expr_if_else(e0: Expr, b1: Block, b2: Block) -> (r: Expr)
    ensures
        r matches Expr::Match(s, t, a, arms) && dflt(s) && t is Hole && *a == e0 && arms@.len()
            == 2 && dflt(arms@[0].span) && is_bool_pat(arms@[0].p, true) && (arms@[0].e matches Expr::Block(
            s1,
            t1,
            b,
        ) && dflt(s1) && t1 is Hole && b == b1) && dflt(arms@[1].span) && is_wild_pat(arms@[1].p)
            && (arms@[1].e matches Expr::Block(s2, t2, c) && dflt(s2) && t2 is Hole && c == b2),
{
    let mut pes: Vec<(Pat, Expr)> = Vec::new();
    pes.push((pat_bool(true), Expr::Block(span(), Type::Hole, b1)));
    pes.push((pat_wild(), Expr::Block(span(), Type::Hole, b2)));
    Expr::Match(span(), ty_hole(), Rc::new(e0), arms(pes))
}

pub fn expr_def(x: &str, ts: Vec<Type>) -> (e: Expr)
    ensures
        e matches Expr::Def(s, t, n, ts2) && dflt(s) && t is Hole && n@ == x@ && ts2 == ts,
{
    Expr::Def(span(), ty_hole(), name(x), ts)
}

pub fn expr_int(i: &str) -> (e: Expr)
    ensures
        e matches Expr::Int(s, t, v) && dflt(s) && t is Hole && v@ == i@,
{
    Expr::Int(span(), ty_hole(), i.to_owned())
}

pub fn expr_float(f: &str) -> (e: Expr)
    ensures
        e matches Expr::Float(s, t, v) && dflt(s) && t is Hole && v@ == f@,
{
    Expr::Float(span(), ty_hole(), f.to_owned())
}

pub fn expr_bool(b: bool) -> (e: Expr)
    ensures
        is_bool_expr(e, b),
{
    Expr::Bool(span(), ty_hole(), b)
}

pub fn expr_string(x: &str) -> (e: Expr)
    ensures
        e matches Expr::String(s, t, v) && dflt(s) && t is Hole && v@ == x@,
{
    Expr::String(span(), ty_hole(), x.to_owned())
}

pub fn expr_char(c: char) -> (e: Expr)
    ensures
        e matches Expr::Char(s, t, v) && dflt(s) && t is Hole && v == c,
{
    Expr::Char(span(), ty_hole(), c)
}

pub fn block(ss: Vec<Stmt>, e: Expr) -> (b: Block)
    ensures
        block_is(b, ss@, e),
{
    Block::new(span(), ss, e)
}

pub fn expr_block(ss: Vec<Stmt>, e: Expr) -> (r: Expr)
    ensures
        r matches Expr::Block(s, t, b) && dflt(s) && t is Hole && block_is(b, ss@, e),
{
    Expr::Block(span(), ty_hole(), block(ss, e))
}

/// A block expression at the given span.
pub fn spanned_expr_block(sp: Span, ss: Vec<Stmt>, e: Expr) -> (r: Expr)
    ensures
        r matches Expr::Block(s, t, b) && s == sp && t is Hole && block_is(b, ss@, e),
{
    Expr::Block(sp, ty_hole(), block(ss, e))
}

pub fn expr_err() -> (e: Expr)
    ensures
        e matches Expr::Error(s, t) && dflt(s) && t is Hole,
{
    Expr::Error(span(), ty_hole())
}

/// A lambda whose parameters and result have unknown types.
pub fn expr_fun(ps: Vec<&str>, e: Expr) -> (r: Expr)
    ensures
        r matches Expr::Fun(s, t, ps2, t2, b) && dflt(s) && t is Hole && ps2@.len() == ps@.len()
            && (forall|i: int|
            0 <= i < ps@.len() ==> #[trigger] ps2@[i].name@ == ps@[i]@ && ps2@[i].ty is Hole && dflt(
                ps2@[i].span,
            )) && t2 is Hole && *b == e,
{
    let mut out: Vec<Param> = Vec::new();
    let mut i: usize = 0;
    while i < ps.len()
        invariant
            i <= ps@.len(),
            out@.len() == i,
            forall|j: int|
                0 <= j < i ==> #[trigger] out@[j].name@ == ps@[j]@ && out@[j].ty is Hole && dflt(
                    out@[j].span,
                ),
        decreases ps@.len() - i,
    {
        out.push(Param::new(span(), name(ps[i]), ty_hole()));
        i = i + 1;
    }
    Expr::Fun(span(), ty_hole(), out, ty_hole(), Rc::new(e))
}

pub fn expr_fun_typed(ps: Vec<(&str, Type)>, t: Type, e: Expr) -> (r: Expr)
    ensures
        r matches Expr::Fun(s, t0, ps2, t2, b) && dflt(s) && t0 is Hole && params_are(ps2@, ps@)
            && t2 == t && *b == e,
{
    Expr::Fun(span(), ty_hole(), params(ps), t, Rc::new(e))
}

pub fn expr_return(e: Expr) -> (r: Expr)
    ensures
        r matches Expr::Return(s, t, a) && dflt(s) && t is Hole && *a == e,
{
    Expr::Return(span(), ty_hole(), Rc::new(e))
}

pub fn expr_continue() -> (r: Expr)
    ensures
        r matches Expr::Continue(s, t) && dflt(s) && t is Hole,
{
    Expr::Continue(span(), ty_hole())
}

pub fn expr_break() -> (r: Expr)
    ensures
        r matches Expr::Break(s, t) && dflt(s) && t is Hole,
{
    Expr::Break(span(), ty_hole())
}

pub fn expr_query(qs: Vec<Query>) -> (r: Expr)
    ensures
        r matches Expr::Query(s, t, qs2) && dflt(s) && t is Hole && qs2 == qs,
{
    Expr::Query(span(), ty_hole(), qs)
}

pub fn query_select(xes: Vec<(&str, Expr)>) -> (q: Query)
    ensures
        q matches Query::Select(s, t, m) && dflt(s) && t is Hole && pairs_are(m@, xes@),
{
    Query::Select(span(), ty_hole(), name_map(xes))
}

pub fn query_where(e: Expr) -> (q: Query)
    ensures
        q matches Query::Where(s, t, a) && dflt(s) && t is Hole && *a == e,
{
    Query::Where(span(), ty_hole(), Rc::new(e))
}

pub fn query_from(x: &str, e: Expr) -> (q: Query)
    ensures
        q matches Query::From(s, t, n, a) && dflt(s) && t is Hole && n@ == x@ && *a == e,
{
    Query::From(span(), ty_hole(), name(x), Rc::new(e))
}

pub fn query_into(x: &str, ts: Vec<Type>, es: Vec<Expr>) -> (q: Query)
    ensures
        q matches Query::Into(s, t, n, ts2, es2) && dflt(s) && t is Hole && n@ == x@ && ts2 == ts
            && es2 == es,
{
    Query::Into(span(), ty_hole(), name(x), ts, es)
}

pub fn query_var(x: &str, e: Expr) -> (q: Query)
    ensures
        q matches Query::Var(s, t, n, a) && dflt(s) && t is Hole && n@ == x@ && *a == e,
{
    Query::Var(span(), ty_hole(), name(x), Rc::new(e))
}

pub fn query_join(x: &str, e0: Expr, e1: Expr) -> (q: Query)
    ensures
        q matches Query::Join(s, t, n, a, b) && dflt(s) && t is Hole && n@ == x@ && *a == e0 && *b
            == e1,
{
    Query::Join(span(), ty_hole(), name(x), Rc::new(e0), Rc::new(e1))
}

pub fn query_group(e: Expr, qs: Vec<Query>) -> (q: Query)
    ensures
        q matches Query::Group(s, t, a, qs2) && dflt(s) && t is Hole && *a == e && qs2 == qs,
{
    Query::Group(span(), ty_hole(), Rc::new(e), qs)
}

pub fn query_over(e: Expr, qs: Vec<Query>) -> (q: Query)
    ensures
        q matches Query::Over(s, t, a, qs2) && dflt(s) && t is Hole && *a == e && qs2 == qs,
{
    Query::Over(span(), ty_hole(), Rc::new(e), qs)
}

pub fn query_compute(x: &str, e0: Expr, e1: Expr) -> (q: Query)
    ensures
        q matches Query::Compute(s, t, n, a, b) && dflt(s) && t is Hole && n@ == x@ && *a == e0
            && *b == e1,
{
    Query::Compute(span(), ty_hole(), name(x), Rc::new(e0), Rc::new(e1))
}

pub fn expr_while(e: Expr, b: Block) -> (r: Expr)
    ensures
        r matches Expr::While(s, t, a, b2) && dflt(s) && t is Hole && *a == e && b2 == b,
{
    Expr::While(span(), ty_hole(), Rc::new(e), b)
}

/// A path segment written as a pair: the name and its type arguments.
pub fn seg(x: &str, ts: Vec<Type>) -> (r: (Name, Vec<Type>))
    ensures
        r.0@ == x@,
        r.1 == ts,
{
    (name(x), ts)
}

} // verus!
