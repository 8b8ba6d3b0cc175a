//! Impls and bounds of common traits.
use vstd::prelude::*;

use crate::ast::rc_clone;
use crate::ast::Bound;
use crate::ast::Stmt;
use crate::ast::StmtDef;
use crate::ast::StmtImpl;
use crate::ast::StmtType;
use crate::ast::StmtTypeBody;
use crate::ast::Type;
use crate::dsl::bound;
use crate::dsl::dflt;
use crate::dsl::names;
use crate::dsl::names_are;
use crate::dsl::span;
use crate::dsl::stmt_type;
use crate::dsl::trait_bound_is;
use crate::dsl::ty_assoc;
use std::rc::Rc;

verus! {

/// The bound `x[ts]` with no associated type bindings.
pub open spec fn bound_is(b: Bound, x: Seq<char>, ts: Seq<Type>) -> bool {
    b matches Bound::Trait(s, tb) && dflt(s) && trait_bound_is(tb, x, ts, Seq::empty())
}

/// The type alias statement `type x = t;` without generics.
pub open spec fn type_alias_is(a: StmtType, x: Seq<char>, t: Type) -> bool {
    dflt(a.span) && a.name@ == x && a.generics@.len() == 0 && a.body == StmtTypeBody::UserDefined(t)
}

/// `impl[gs] head where where_clause { defs types }`; `defs` must be definitions and `types`
/// type aliases.
pub fn imp(
    gs: Vec<&str>,
    head: Bound,
    where_clause: Vec<Bound>,
    defs: Vec<Stmt>,
    types: Vec<Stmt>,
) -> (i: StmtImpl)
    requires
        forall|k: int| 0 <= k < defs@.len() ==> #[trigger] defs@[k] is Def,
        forall|k: int| 0 <= k < types@.len() ==> #[trigger] types@[k] is Type,
    ensures
        dflt(i.span),
        names_are(i.generics@, gs@),
        i.head == head,
        i.where_clause == where_clause,
        i.defs@.len() == defs@.len(),
        forall|k: int| 0 <= k < defs@.len() ==> #[trigger] i.defs@[k] == defs@[k]->Def_0,
        i.types@.len() == types@.len(),
        forall|k: int| 0 <= k < types@.len() ==> #[trigger] i.types@[k] == types@[k]->Type_0,
{
    let mut ds: Vec<Rc<StmtDef>> = Vec::new();
    let mut k: usize = 0;
    while k < defs.len()
        invariant
            k <= defs@.len(),
            forall|j: int| 0 <= j < defs@.len() ==> #[trigger] defs@[j] is Def,
            ds@.len() == k,
            forall|j: int| 0 <= j < k ==> #[trigger] ds@[j] == defs@[j]->Def_0,
        decreases defs@.len() - k,
    {
        ds.push(rc_clone(defs[k].as_def()));
        k = k + 1;
    }
    let mut ts: Vec<Rc<StmtType>> = Vec::new();
    let mut k: usize = 0;
    while k < types.len()
        invariant
            k <= types@.len(),
            forall|j: int| 0 <= j < types@.len() ==> #[trigger] types@[j] is Type,
            ts@.len() == k,
            forall|j: int| 0 <= j < k ==> #[trigger] ts@[j] == types@[j]->Type_0,
        decreases types@.len() - k,
    {
        ts.push(rc_clone(types[k].as_type()));
        k = k + 1;
    }
    StmtImpl::new(span(), names(gs), head, where_clause, ds, ts)
}

pub fn impl_clone(gs: Vec<&str>, t: Type, where_clause: Vec<Bound>) -> (i: StmtImpl)
    ensures
        dflt(i.span),
        names_are(i.generics@, gs@),
        bound_is(i.head, "Clone"@, seq![t]),
        i.where_clause == where_clause,
        i.defs@.len() == 0,
        i.types@.len() == 0,
{
    imp(gs, tr_clone(t), where_clause, Vec::new(), Vec::new())
}

pub fn tr_clone(t: Type) -> (b: Bound)
    ensures
        bound_is(b, "Clone"@, seq![t]),
{
    let mut ts = Vec::new();
    ts.push(t);
    let b = bound("Clone", ts, Vec::new());
    assert(ts@ == seq![t]);
    b
}

/// `impl[gs] Iterator[t] where .. { type Item = t1; }`.
pub fn impl_iterator(gs: Vec<&str>, t: Type, t1: Type, where_clause: Vec<Bound>) -> (i: StmtImpl)
    ensures
        dflt(i.span),
        names_are(i.generics@, gs@),
        bound_is(i.head, "Iterator"@, seq![t]),
        i.where_clause == where_clause,
        i.defs@.len() == 0,
        i.types@.len() == 1,
        type_alias_is(*i.types@[0], "Item"@, t1),
{
    let mut tys = Vec::new();
    tys.push(stmt_type("Item", Vec::new(), StmtTypeBody::UserDefined(t1)));
    imp(gs, tr_iterator(t), where_clause, Vec::new(), tys)
}

pub fn tr_iterator(t0: Type) -> (b: Bound)
    ensures
        bound_is(b, "Iterator"@, seq![t0]),
{
    let mut ts = Vec::new();
    ts.push(t0);
    bound("Iterator", ts, Vec::new())
}

/// The type `Iterator[t]::Item`.
pub fn ty_iterator_item(t: Type) -> (r: Type)
    ensures
        r matches Type::Assoc(b, n, ts) && trait_bound_is(b, "Iterator"@, seq![t], Seq::empty())
            && n@ == "Item"@ && ts@.len() == 0,
{
    let mut ts = Vec::new();
    ts.push(t);
    ty_assoc("Iterator", ts, Vec::new(), "Item", Vec::new())
}

/// `impl[gs] Add[ts] where .. { type Output = t; }`; `ts` holds the two operand types.
pub fn impl_add(gs: Vec<&str>, ts: Vec<Type>, t: Type, where_clause: Vec<Bound>) -> (i: StmtImpl)
    requires
        ts@.len() == 2,
    ensures
        dflt(i.span),
        names_are(i.generics@, gs@),
        bound_is(i.head, "Add"@, ts@),
        i.where_clause == where_clause,
        i.defs@.len() == 0,
        i.types@.len() == 1,
        type_alias_is(*i.types@[0], "Output"@, t),
{
    let mut tys = Vec::new();
    tys.push(stmt_type("Output", Vec::new(), StmtTypeBody::UserDefined(t)));
    imp(gs, tr_add(ts), where_clause, Vec::new(), tys)
}

pub fn tr_add(ts: Vec<Type>) -> (b: Bound)
    requires
        ts@.len() == 2,
    ensures
        bound_is(b, "Add"@, ts@),
{
    bound("Add", ts, Vec::new())
}

/// The type `Add[ts]::Output`.
pub fn ty_add_output(ts: Vec<Type>) -> (r: Type)
    requires
        ts@.len() == 2,
    ensures
        r matches Type::Assoc(b, n, ts2) && trait_bound_is(b, "Add"@, ts@, Seq::empty()) && n@
            == "Output"@ && ts2@.len() == 0,
{
    ty_assoc("Add", ts, Vec::new(), "Output", Vec::new())
}

/// `impl[gs] IntoIterator[self_ty] where .. { type Item = item_ty; type IntoIter = intoiter_ty; }`.
pub fn impl_into_iterator(
    gs: Vec<&str>,
    self_ty: Type,
    item_ty: Type,
    intoiter_ty: Type,
    where_clause: Vec<Bound>,
) -> (i: StmtImpl)
    ensures
        dflt(i.span),
        names_are(i.generics@, gs@),
        bound_is(i.head, "IntoIterator"@, seq![self_ty]),
        i.where_clause == where_clause,
        i.defs@.len() == 0,
        i.types@.len() == 2,
        type_alias_is(*i.types@[0], "Item"@, item_ty),
        type_alias_is(*i.types@[1], "IntoIter"@, intoiter_ty),
{
    let mut tys = Vec::new();
    tys.push(stmt_type("Item", Vec::new(), StmtTypeBody::UserDefined(item_ty)));
    tys.push(stmt_type("IntoIter", Vec::new(), StmtTypeBody::UserDefined(intoiter_ty)));
    imp(gs, tr_into_iterator(self_ty), where_clause, Vec::new(), tys)
}

pub fn tr_into_iterator(t0: Type) -> (b: Bound)
    ensures
        bound_is(b, "IntoIterator"@, seq![t0]),
{
    let mut ts = Vec::new();
    ts.push(t0);
    bound("IntoIterator", ts, Vec::new())
}

/// The type `IntoIterator[t0]::Item`.
pub fn ty_intoiterator_item(t0: Type) -> (r: Type)
    ensures
        r matches Type::Assoc(b, n, ts) && trait_bound_is(
            b,
            "IntoIterator"@,
            seq![t0],
            Seq::empty(),
        ) && n@ == "Item"@ && ts@.len() == 0,
{
    let mut ts = Vec::new();
    ts.push(t0);
    ty_assoc("IntoIterator", ts, Vec::new(), "Item", Vec::new())
}

/// The type `IntoIterator[t0]::IntoIter`.
pub fn ty_into_iterator_into_iter(t0: Type) -> (r: Type)
    ensures
        r matches Type::Assoc(b, n, ts) && trait_bound_is(
            b,
            "IntoIterator"@,
            seq![t0],
            Seq::empty(),
        ) && n@ == "IntoIter"@ && ts@.len() == 0,
{
    let mut ts = Vec::new();
    ts.push(t0);
    ty_assoc("IntoIterator", ts, Vec::new(), "IntoIter", Vec::new())
}

} // verus!
