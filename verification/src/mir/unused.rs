//! Removing the locals, and the statements that write them, that the result of a function
//! does not depend on.
use vstd::prelude::*;

use crate::ast_eq::same_type;
use crate::ast_eq::lemma_ty_eq;
use crate::ast_eq::ty_eq;

use super::place::clone_place;
use super::place::key_eq;
use super::place::lemma_key_eq;
use super::place::local_key;
use super::place::place_key;
use super::place::same_place;
use super::place::PlaceKey;
use super::propagate::ops_of;
use super::BasicBlock;
use super::Function;
use super::Local;
use super::Operand;
use super::Operation;
use super::Place;
use super::Rvalue;
use super::Stmt;

verus! {

/// Whether `used` holds a key equal to `k`.
pub open spec fn contains_key(used: Seq<PlaceKey>, k: PlaceKey) -> bool {
    exists|i: int| 0 <= i < used.len() && key_eq(#[trigger] used[i], k)
}

/// The place an operand reads, if any.
pub open spec fn operand_keys(o: Operand) -> Seq<PlaceKey> {
    match o {
        Operand::Copy(p) => seq![place_key(p)],
        Operand::Move(p) => seq![place_key(p)],
        _ => Seq::empty(),
    }
}

/// The places read by a list of operands, in order.
pub open spec fn args_keys(args: Seq<Operand>) -> Seq<PlaceKey>
    decreases args.len(),
{
    if args.len() == 0 {
        Seq::empty()
    } else {
        args_keys(args.drop_last()) + operand_keys(args.last())
    }
}

/// The places an operation marks as used when it matters, in order.
pub open spec fn op_keys(op: Operation) -> Seq<PlaceKey> {
    match op {
        Operation::Assign(_, Rvalue::Use(o)) => operand_keys(o),
        Operation::Assign(_, Rvalue::Ref(_, p)) => seq![place_key(p)],
        Operation::Call(dest, f, args) => seq![place_key(dest)] + operand_keys(f) + args_keys(args@),
        _ => Seq::empty(),
    }
}

/// An operation matters when it is a call, or an assignment to a used place.
pub open spec fn op_matters(used: Seq<PlaceKey>, op: Operation) -> bool {
    match op {
        Operation::Assign(dest, _) => contains_key(used, place_key(dest)),
        Operation::Call(..) => true,
        _ => false,
    }
}

/// Adds `k` unless an equal key is there; says whether it was added.
pub open spec fn insert_key(used: Seq<PlaceKey>, k: PlaceKey) -> (Seq<PlaceKey>, bool) {
    if contains_key(used, k) {
        (used, false)
    } else {
        (used.push(k), true)
    }
}

/// Adds the keys in order; the flag becomes what the last addition said.
pub open spec fn insert_all(used: Seq<PlaceKey>, changed: bool, ks: Seq<PlaceKey>) -> (
    Seq<PlaceKey>,
    bool,
)
    decreases ks.len(),
{
    if ks.len() == 0 {
        (used, changed)
    } else {
        insert_key(insert_all(used, changed, ks.drop_last()).0, ks.last())
    }
}

/// One operation of a sweep.
pub open spec fn pass_op(used: Seq<PlaceKey>, changed: bool, op: Operation) -> (
    Seq<PlaceKey>,
    bool,
) {
    if op_matters(used, op) {
        insert_all(used, changed, op_keys(op))
    } else {
        (used, changed)
    }
}

/// Operations of a sweep, in order.
pub open spec fn pass_ops(used: Seq<PlaceKey>, changed: bool, ops: Seq<Operation>) -> (
    Seq<PlaceKey>,
    bool,
)
    decreases ops.len(),
{
    if ops.len() == 0 {
        (used, changed)
    } else {
        let (u1, c1) = pass_ops(used, changed, ops.drop_last());
        pass_op(u1, c1, ops.last())
    }
}

/// The operations of all blocks, block after block.
pub open spec fn all_ops(blocks: Seq<BasicBlock>) -> Seq<Operation>
    decreases blocks.len(),
{
    if blocks.len() == 0 {
        Seq::empty()
    } else {
        all_ops(blocks.drop_last()) + ops_of(blocks.last())
    }
}

/// Every key that the operations can mark, in order.
pub open spec fn all_keys(ops: Seq<Operation>) -> Seq<PlaceKey>
    decreases ops.len(),
{
    if ops.len() == 0 {
        Seq::empty()
    } else {
        all_keys(ops.drop_last()) + op_keys(ops.last())
    }
}

/// One sweep over all statements; the flag says whether its last addition added a key.
pub open spec fn sweep(used: Seq<PlaceKey>, blocks: Seq<BasicBlock>) -> (Seq<PlaceKey>, bool) {
    pass_ops(used, false, all_ops(blocks))
}

/// Sweeps until one ends with its flag down. A sweep whose flag is up has added a key, and
/// no more keys than `bound` can be added, so the guard only states what always holds.
pub open spec fn sweeps(used: Seq<PlaceKey>, blocks: Seq<BasicBlock>, bound: nat) -> Seq<
    PlaceKey,
>
    decreases bound - used.len(),
{
    let (u2, ch) = sweep(used, blocks);
    if ch && used.len() < u2.len() && u2.len() <= bound {
        sweeps(u2, blocks, bound)
    } else {
        u2
    }
}

/// The keys that can ever be used: the first local, and those the operations can mark.
pub open spec fn candidates(f: Function) -> Seq<PlaceKey> {
    seq![local_key(f.locals@[0])] + all_keys(all_ops(f.blocks@))
}

/// The places the function's result depends on, starting from its first local.
pub open spec fn used_keys(f: Function) -> Seq<PlaceKey> {
    sweeps(seq![local_key(f.locals@[0])], f.blocks@, candidates(f).len())
}

/// The locals whose whole place is used, in order.
pub open spec fn kept_locals(used: Seq<PlaceKey>, ls: Seq<Local>) -> Seq<Local>
    decreases ls.len(),
{
    if ls.len() == 0 {
        ls
    } else {
        let r = kept_locals(used, ls.drop_last());
        if contains_key(used, local_key(ls.last())) {
            r.push(ls.last())
        } else {
            r
        }
    }
}

/// A statement stays unless it writes, or marks the storage of, a place that is not used.
pub open spec fn keep_stmt(used: Seq<PlaceKey>, s: Stmt) -> bool {
    match s.op {
        Operation::Assign(dest, _) => contains_key(used, place_key(dest)),
        Operation::Live(l) => contains_key(used, local_key(l)),
        Operation::Dead(l) => contains_key(used, local_key(l)),
        Operation::Call(dest, _, _) => contains_key(used, place_key(dest)),
        Operation::Noop => true,
    }
}

/// The statements that stay, in order.
pub open spec fn kept_stmts(used: Seq<PlaceKey>, ss: Seq<Stmt>) -> Seq<Stmt>
    decreases ss.len(),
{
    if ss.len() == 0 {
        ss
    } else {
        let r = kept_stmts(used, ss.drop_last());
        if keep_stmt(used, ss.last()) {
            r.push(ss.last())
        } else {
            r
        }
    }
}

proof fn lemma_insert_all(used: Seq<PlaceKey>, changed: bool, ks: Seq<PlaceKey>)
    ensures
        insert_all(used, changed, ks).0.len() >= used.len(),
        insert_all(used, changed, ks).1 ==> insert_all(used, changed, ks).0.len() > used.len()
            || changed,
        used.no_duplicates() ==> insert_all(used, changed, ks).0.no_duplicates(),
        forall|i: int|
            0 <= i < insert_all(used, changed, ks).0.len() ==> used.contains(
                #[trigger] insert_all(used, changed, ks).0[i],
            ) || ks.contains(insert_all(used, changed, ks).0[i]),
    decreases ks.len(),
{
    if ks.len() > 0 {
        let prev = insert_all(used, changed, ks.drop_last()).0;
        lemma_insert_all(used, changed, ks.drop_last());
        let r = insert_all(used, changed, ks).0;
        let k = ks.last();
        if !contains_key(prev, k) {
            assert(r == prev.push(k));
            if prev.no_duplicates() {
                assert forall|i: int, j: int| 0 <= i < j < r.len() implies r[i] != r[j] by {
                    if j == r.len() - 1 && r[i] == r[j] {
                        lemma_key_eq(prev[i], k, k);
                        assert(key_eq(prev[i], k));
                    }
                }
            }
        }
        assert forall|i: int| 0 <= i < r.len() implies used.contains(#[trigger] r[i]) || ks.contains(
            r[i],
        ) by {
            if i < prev.len() {
                assert(r[i] == prev[i]);
                if ks.drop_last().contains(prev[i]) {
                    let j = choose|j: int| 0 <= j < ks.drop_last().len() && ks.drop_last()[j] == prev[i];
                    assert(ks[j] == prev[i]);
                }
            } else {
                assert(ks[ks.len() - 1] == r[i]);
            }
        }
    }
}

proof fn lemma_concat_contains(a: Seq<PlaceKey>, b: Seq<PlaceKey>, x: PlaceKey)
    ensures
        (a + b).contains(x) <==> a.contains(x) || b.contains(x),
{
    if a.contains(x) {
        let i = choose|i: int| 0 <= i < a.len() && a[i] == x;
        assert((a + b)[i] == x);
    }
    if b.contains(x) {
        let i = choose|i: int| 0 <= i < b.len() && b[i] == x;
        assert((a + b)[a.len() + i] == x);
    }
    if (a + b).contains(x) {
        let i = choose|i: int| 0 <= i < (a + b).len() && (a + b)[i] == x;
        if i < a.len() {
            assert(a[i] == x);
        } else {
            assert(b[i - a.len()] == x);
        }
    }
}

proof fn lemma_pass_ops(used: Seq<PlaceKey>, changed: bool, ops: Seq<Operation>)
    ensures
        pass_ops(used, changed, ops).0.len() >= used.len(),
        pass_ops(used, changed, ops).1 ==> pass_ops(used, changed, ops).0.len() > used.len()
            || changed,
        used.no_duplicates() ==> pass_ops(used, changed, ops).0.no_duplicates(),
        forall|i: int|
            0 <= i < pass_ops(used, changed, ops).0.len() ==> used.contains(
                #[trigger] pass_ops(used, changed, ops).0[i],
            ) || all_keys(ops).contains(pass_ops(used, changed, ops).0[i]),
    decreases ops.len(),
{
    if ops.len() > 0 {
        lemma_pass_ops(used, changed, ops.drop_last());
        let (u1, c1) = pass_ops(used, changed, ops.drop_last());
        let op = ops.last();
        let r = pass_ops(used, changed, ops).0;
        if op_matters(u1, op) {
            lemma_insert_all(u1, c1, op_keys(op));
        }
        assert forall|i: int| 0 <= i < r.len() implies used.contains(#[trigger] r[i]) || all_keys(
            ops,
        ).contains(r[i]) by {
            lemma_concat_contains(all_keys(ops.drop_last()), op_keys(op), r[i]);
            if u1.contains(r[i]) {
                let j = choose|j: int| 0 <= j < u1.len() && u1[j] == r[i];
                assert(u1[j] == r[i]);
            }
        }
    }
}

proof fn lemma_bound(s: Seq<PlaceKey>, cand: Seq<PlaceKey>)
    requires
        s.no_duplicates(),
        forall|i: int| 0 <= i < s.len() ==> cand.contains(#[trigger] s[i]),
    ensures
        s.len() <= cand.len(),
{
    broadcast use vstd::seq_lib::seq_to_set_is_finite;

    s.unique_seq_to_set();
    cand.lemma_cardinality_of_set();
    assert forall|x: PlaceKey| s.to_set().contains(x) implies cand.to_set().contains(x) by {
        let i = choose|i: int| 0 <= i < s.len() && s[i] == x;
        assert(cand.contains(s[i]));
    }
    vstd::set_lib::lemma_len_subset(s.to_set(), cand.to_set());
}

/// The places of `e` have, in order, the keys of `s`, up to `key_eq`.
pub open spec fn used_match(e: Seq<Place>, s: Seq<PlaceKey>) -> bool {
    &&& e.len() == s.len()
    &&& forall|i: int| 0 <= i < e.len() ==> key_eq(place_key(#[trigger] e[i]), s[i])
}

/// Whether a place equal to `p` is in `used`.
fn has_place(used: &Vec<Place>, p: &Place, Ghost(su): Ghost<Seq<PlaceKey>>) -> (r: bool)
    requires
        used_match(used@, su),
    ensures
        r == contains_key(su, place_key(*p)),
{
    let mut i: usize = 0;
    while i < used.len()
        invariant
            used_match(used@, su),
            i <= used@.len(),
            forall|j: int| 0 <= j < i ==> !key_eq(#[trigger] su[j], place_key(*p)),
        decreases used@.len() - i,
    {
        let same = same_place(&used[i], p);
        proof {
            assert(key_eq(place_key(used@[i as int]), su[i as int]));
            lemma_key_eq(place_key(used@[i as int]), su[i as int], place_key(*p));
            lemma_key_eq(su[i as int], place_key(used@[i as int]), place_key(*p));
        }
        if same {
            return true;
        }
        i = i + 1;
    }
    false
}

/// Whether the place that is the whole local `l` is in `used`.
fn has_local(used: &Vec<Place>, l: &Local, Ghost(su): Ghost<Seq<PlaceKey>>) -> (r: bool)
    requires
        used_match(used@, su),
    ensures
        r == contains_key(su, local_key(*l)),
{
    let mut i: usize = 0;
    while i < used.len()
        invariant
            used_match(used@, su),
            i <= used@.len(),
            forall|j: int| 0 <= j < i ==> !key_eq(#[trigger] su[j], local_key(*l)),
        decreases used@.len() - i,
    {
        let q = &used[i];
        let same = q.local.name == l.name && same_type(&q.local.ty, &l.ty) && q.elems.len() == 0;
        proof {
            assert(same == key_eq(place_key(used@[i as int]), local_key(*l)));
            lemma_key_eq(place_key(used@[i as int]), su[i as int], local_key(*l));
            lemma_key_eq(su[i as int], place_key(used@[i as int]), local_key(*l));
        }
        if same {
            return true;
        }
        i = i + 1;
    }
    false
}

/// Adds a copy of `p` unless an equal place is there; says whether it was added.
fn insert_place(used: &mut Vec<Place>, p: &Place, Ghost(su): Ghost<Seq<PlaceKey>>) -> (added: bool)
    requires
        used_match(old(used)@, su),
    ensures
        used_match(final(used)@, insert_key(su, place_key(*p)).0),
        added == insert_key(su, place_key(*p)).1,
{
    if has_place(used, p, Ghost(su)) {
        false
    } else {
        let c = clone_place(p);
        proof {
            lemma_key_eq(place_key(*p), place_key(c), place_key(*p));
        }
        used.push(c);
        true
    }
}

/// Adds the place that `o` reads, if any, updating the flag as `insert_all` does.
fn insert_operand(
    used: &mut Vec<Place>,
    changed: &mut bool,
    o: &Operand,
    Ghost(su): Ghost<Seq<PlaceKey>>,
) -> (r: Ghost<Seq<PlaceKey>>)
    requires
        used_match(old(used)@, su),
    ensures
        used_match(final(used)@, r@),
        operand_keys(*o).len() == 0 ==> r@ == su && *final(changed) == *old(changed),
        operand_keys(*o).len() == 1 ==> (r@, *final(changed)) == insert_key(su, operand_keys(*o)[0]),
        operand_keys(*o).len() <= 1,
{
    match o {
        Operand::Copy(p) => {
            *changed = insert_place(used, p, Ghost(su));
            Ghost(insert_key(su, place_key(*p)).0)
        },
        Operand::Move(p) => {
            *changed = insert_place(used, p, Ghost(su));
            Ghost(insert_key(su, place_key(*p)).0)
        },
        _ => Ghost(su),
    }
}

proof fn lemma_insert_all_step(used: Seq<PlaceKey>, changed: bool, ks: Seq<PlaceKey>, more: Seq<PlaceKey>)
    requires
        more.len() <= 1,
    ensures
        more.len() == 0 ==> insert_all(used, changed, ks + more) == insert_all(used, changed, ks),
        more.len() == 1 ==> insert_all(used, changed, ks + more) == insert_key(
            insert_all(used, changed, ks).0,
            more[0],
        ),
{
    if more.len() == 0 {
        assert(ks + more =~= ks);
    } else {
        assert((ks + more).drop_last() =~= ks);
    }
}

/// One operation of a sweep.
fn sweep_op(
    used: &mut Vec<Place>,
    changed: &mut bool,
    op: &Operation,
    Ghost(su): Ghost<Seq<PlaceKey>>,
) -> (r: Ghost<Seq<PlaceKey>>)
    requires
        used_match(old(used)@, su),
    ensures
        used_match(final(used)@, r@),
        (r@, *final(changed)) == pass_op(su, *old(changed), *op),
{
    let ghost c0 = *changed;
    assert(insert_all(su, c0, Seq::<PlaceKey>::empty()) == (su, c0));
    match op {
        Operation::Assign(dest, rv) => {
            if has_place(used, dest, Ghost(su)) {
                match rv {
                    Rvalue::Use(o) => {
                        let r = insert_operand(used, changed, o, Ghost(su));
                        proof {
                            lemma_insert_all_step(su, c0, Seq::empty(), operand_keys(*o));
                            assert(Seq::<PlaceKey>::empty() + operand_keys(*o) =~= operand_keys(*o));
                        }
                        r
                    },
                    Rvalue::Ref(_, p) => {
                        *changed = insert_place(used, p, Ghost(su));
                        proof {
                            assert(seq![place_key(*p)].drop_last() =~= Seq::<PlaceKey>::empty());
                        }
                        Ghost(insert_key(su, place_key(*p)).0)
                    },
                }
            } else {
                Ghost(su)
            }
        },
        Operation::Call(dest, f, args) => {
            let ghost kd = seq![place_key(*dest)];
            *changed = insert_place(used, dest, Ghost(su));
            let ghost s1 = insert_key(su, place_key(*dest)).0;
            proof {
                assert(kd.drop_last() =~= Seq::<PlaceKey>::empty());
                assert((s1, *changed) == insert_all(su, c0, kd));
            }
            let Ghost(s2) = insert_operand(used, changed, f, Ghost(s1));
            proof {
                lemma_insert_all_step(su, c0, kd, operand_keys(*f));
                assert((s2, *changed) == insert_all(su, c0, kd + operand_keys(*f)));
            }
            let ghost pre = kd + operand_keys(*f);
            let ghost mut s = s2;
            let mut m: usize = 0;
            proof {
                assert(args@.take(0) =~= Seq::<Operand>::empty());
                assert(pre + args_keys(args@.take(0)) =~= pre);
            }
            while m < args.len()
                invariant
                    m <= args@.len(),
                    used_match(used@, s),
                    (s, *changed) == insert_all(su, c0, pre + args_keys(args@.take(m as int))),
                decreases args@.len() - m,
            {
                let ghost before = pre + args_keys(args@.take(m as int));
                let Ghost(s3) = insert_operand(used, changed, &args[m], Ghost(s));
                proof {
                    let a = args@[m as int];
                    assert(args@.take(m + 1).drop_last() =~= args@.take(m as int));
                    assert(args@.take(m + 1).last() == a);
                    assert(pre + args_keys(args@.take(m + 1)) =~= before + operand_keys(a));
                    lemma_insert_all_step(su, c0, before, operand_keys(a));
                    s = s3;
                }
                m = m + 1;
            }
            proof {
                assert(args@.take(args@.len() as int) =~= args@);
            }
            Ghost(s)
        },
        _ => Ghost(su),
    }
}

/// A copy of a local.
fn clone_local(l: &Local) -> (r: Local)
    ensures
        r.name@ == l.name@,
        ty_eq(l.ty, r.ty),
{
    Local { name: l.name.clone(), ty: l.ty.deep_clone() }
}

proof fn lemma_insert_all_prefix(used: Seq<PlaceKey>, changed: bool, ks: Seq<PlaceKey>)
    ensures
        insert_all(used, changed, ks).0.len() >= used.len(),
        forall|i: int| 0 <= i < used.len() ==> #[trigger] insert_all(used, changed, ks).0[i] == used[i],
    decreases ks.len(),
{
    if ks.len() > 0 {
        lemma_insert_all_prefix(used, changed, ks.drop_last());
    }
}

proof fn lemma_pass_ops_prefix(used: Seq<PlaceKey>, changed: bool, ops: Seq<Operation>)
    ensures
        pass_ops(used, changed, ops).0.len() >= used.len(),
        forall|i: int| 0 <= i < used.len() ==> #[trigger] pass_ops(used, changed, ops).0[i] == used[i],
    decreases ops.len(),
{
    if ops.len() > 0 {
        lemma_pass_ops_prefix(used, changed, ops.drop_last());
        let (u1, c1) = pass_ops(used, changed, ops.drop_last());
        if op_matters(u1, ops.last()) {
            lemma_insert_all_prefix(u1, c1, op_keys(ops.last()));
        }
    }
}

proof fn lemma_sweeps_prefix(used: Seq<PlaceKey>, blocks: Seq<BasicBlock>, bound: nat)
    ensures
        sweeps(used, blocks, bound).len() >= used.len(),
        forall|i: int| 0 <= i < used.len() ==> #[trigger] sweeps(used, blocks, bound)[i] == used[i],
    decreases bound - used.len(),
{
    let (u2, ch) = sweep(used, blocks);
    lemma_pass_ops_prefix(used, false, all_ops(blocks));
    if ch && used.len() < u2.len() && u2.len() <= bound {
        lemma_sweeps_prefix(u2, blocks, bound);
        assert forall|i: int| 0 <= i < used.len() implies #[trigger] sweeps(used, blocks, bound)[i]
            == used[i] by {
            assert(sweeps(used, blocks, bound)[i] == u2[i]);
        }
    }
}

proof fn lemma_kept_locals_first(used: Seq<PlaceKey>, ls: Seq<Local>)
    requires
        ls.len() > 0,
        contains_key(used, local_key(ls[0])),
    ensures
        kept_locals(used, ls).len() > 0,
        kept_locals(used, ls)[0] == ls[0],
    decreases ls.len(),
{
    let r = kept_locals(used, ls.drop_last());
    if ls.len() > 1 {
        assert(ls.drop_last()[0] == ls[0]);
        lemma_kept_locals_first(used, ls.drop_last());
        assert(r[0] == ls[0]);
        if contains_key(used, local_key(ls.last())) {
            assert(r.push(ls.last())[0] == r[0]);
        }
    } else {
        assert(ls.drop_last() =~= Seq::<Local>::empty());
        assert(r =~= Seq::<Local>::empty());
        assert(ls.last() == ls[0]);
        assert(r.push(ls.last())[0] == ls[0]);
    }
}

/// The first local, where a function's result goes, is never removed: the locals after the
/// removal start with it.
pub proof fn lemma_first_local_kept(f: Function)
    requires
        f.locals@.len() > 0,
    ensures
        kept_locals(used_keys(f), f.locals@).len() > 0,
        kept_locals(used_keys(f), f.locals@)[0] == f.locals@[0],
{
    let init = seq![local_key(f.locals@[0])];
    let used = used_keys(f);
    lemma_sweeps_prefix(init, f.blocks@, candidates(f).len());
    assert(used[0] == init[0]);
    lemma_key_eq(used[0], local_key(f.locals@[0]), local_key(f.locals@[0]));
    assert(key_eq(used[0], local_key(f.locals@[0])));
    lemma_kept_locals_first(used, f.locals@);
}

proof fn lemma_insert_key_adds(used: Seq<PlaceKey>, k: PlaceKey)
    ensures
        contains_key(insert_key(used, k).0, k),
{
    lemma_key_eq(k, k, k);
    if !contains_key(used, k) {
        assert(insert_key(used, k).0[used.len() as int] == k);
    }
}

/// Adding places to the used set never drops one.
proof fn lemma_contains_grows(a: Seq<PlaceKey>, b: Seq<PlaceKey>, q: PlaceKey)
    requires
        a.len() <= b.len(),
        forall|i: int| 0 <= i < a.len() ==> #[trigger] b[i] == a[i],
        contains_key(a, q),
    ensures
        contains_key(b, q),
{
    let i = choose|i: int| 0 <= i < a.len() && key_eq(#[trigger] a[i], q);
    assert(b[i] == a[i]);
}

/// What one operation of a sweep adds: an assignment to a used place marks the place it
/// borrows or copies or moves from, and a call marks its destination; no place leaves the
/// used set.
pub proof fn lemma_pass_op_marks(used: Seq<PlaceKey>, changed: bool, op: Operation, q: PlaceKey)
    ensures
        contains_key(used, q) ==> contains_key(pass_op(used, changed, op).0, q),
        op matches Operation::Assign(dest, Rvalue::Ref(_, p)) ==> (contains_key(
            used,
            place_key(dest),
        ) ==> contains_key(pass_op(used, changed, op).0, place_key(p))),
        op matches Operation::Assign(dest, Rvalue::Use(Operand::Copy(p))) ==> (contains_key(
            used,
            place_key(dest),
        ) ==> contains_key(pass_op(used, changed, op).0, place_key(p))),
        op matches Operation::Assign(dest, Rvalue::Use(Operand::Move(p))) ==> (contains_key(
            used,
            place_key(dest),
        ) ==> contains_key(pass_op(used, changed, op).0, place_key(p))),
        op matches Operation::Call(dest, _, _) ==> contains_key(
            pass_op(used, changed, op).0,
            place_key(dest),
        ),
{
    if op_matters(used, op) {
        lemma_insert_all_prefix(used, changed, op_keys(op));
        if contains_key(used, q) {
            lemma_contains_grows(used, pass_op(used, changed, op).0, q);
        }
        match op {
            Operation::Assign(dest, Rvalue::Ref(_, p)) => {
                let ks = op_keys(op);
                assert(ks.drop_last() =~= Seq::<PlaceKey>::empty());
                assert(insert_all(used, changed, ks.drop_last()) == (used, changed));
                assert(insert_all(used, changed, ks) == insert_key(used, place_key(p)));
                lemma_insert_key_adds(used, place_key(p));
            },
            Operation::Assign(dest, Rvalue::Use(o)) => {
                if o is Copy || o is Move {
                    let ks = op_keys(op);
                    assert(ks.drop_last() =~= Seq::<PlaceKey>::empty());
                    assert(insert_all(used, changed, ks.drop_last()) == (used, changed));
                    assert(insert_all(used, changed, ks) == insert_key(used, ks[0]));
                    lemma_insert_key_adds(used, ks[0]);
                }
            },
            Operation::Call(dest, f, args) => {
                let ks = op_keys(op);
                let k0 = seq![place_key(dest)];
                assert(ks == k0 + operand_keys(f) + args_keys(args@));
                let a = insert_all(used, changed, k0).0;
                assert(k0.drop_last() =~= Seq::<PlaceKey>::empty());
                assert(insert_all(used, changed, k0.drop_last()) == (used, changed));
                assert(insert_all(used, changed, k0) == insert_key(used, place_key(dest)));
                lemma_insert_key_adds(used, place_key(dest));
                assert(ks =~= k0 + (operand_keys(f) + args_keys(args@)));
                lemma_insert_all_concat(used, changed, k0, operand_keys(f) + args_keys(args@));
                lemma_insert_all_prefix(
                    insert_all(used, changed, k0).0,
                    insert_all(used, changed, k0).1,
                    operand_keys(f) + args_keys(args@),
                );
                assert(ks =~= k0 + (operand_keys(f) + args_keys(args@)));
                lemma_contains_grows(a, pass_op(used, changed, op).0, place_key(dest));
            },
            _ => {},
        }
    }
}

proof fn lemma_insert_all_concat(used: Seq<PlaceKey>, changed: bool, a: Seq<PlaceKey>, b: Seq<PlaceKey>)
    ensures
        insert_all(used, changed, a + b) == insert_all(
            insert_all(used, changed, a).0,
            insert_all(used, changed, a).1,
            b,
        ),
    decreases b.len(),
{
    if b.len() == 0 {
        assert(a + b =~= a);
    } else {
        assert((a + b).drop_last() =~= a + b.drop_last());
        lemma_insert_all_concat(used, changed, a, b.drop_last());
    }
}

proof fn lemma_insert_all_has(used: Seq<PlaceKey>, changed: bool, ks: Seq<PlaceKey>)
    ensures
        forall|i: int| 0 <= i < ks.len() ==> contains_key(insert_all(used, changed, ks).0, #[trigger] ks[i]),
    decreases ks.len(),
{
    if ks.len() > 0 {
        let d = ks.drop_last();
        lemma_insert_all_has(used, changed, d);
        let prev = insert_all(used, changed, d).0;
        let r = insert_all(used, changed, ks).0;
        lemma_insert_key_adds(prev, ks.last());
        assert forall|i: int| 0 <= i < ks.len() implies contains_key(r, #[trigger] ks[i]) by {
            if i < d.len() {
                assert(ks[i] == d[i]);
                assert(contains_key(prev, d[i]));
                if contains_key(prev, ks.last()) {
                    assert(r == prev);
                } else {
                    assert(r == prev.push(ks.last()));
                    lemma_contains_grows(prev, r, ks[i]);
                }
            }
        }
    }
}

proof fn lemma_args_keys_has(args: Seq<Operand>, o: Operand, q: Place)
    requires
        args.contains(o),
        o == Operand::Copy(q) || o == Operand::Move(q),
    ensures
        args_keys(args).contains(place_key(q)),
    decreases args.len(),
{
    let d = args.drop_last();
    if args.last() == o {
        assert(operand_keys(o) == seq![place_key(q)]);
        assert(args_keys(args)[args_keys(d).len() as int] == place_key(q));
    } else {
        let k = choose|k: int| 0 <= k < args.len() && args[k] == o;
        assert(d[k] == o);
        lemma_args_keys_has(d, o, q);
        let j = choose|j: int| 0 <= j < args_keys(d).len() && args_keys(d)[j] == place_key(q);
        assert(args_keys(args)[j] == place_key(q));
    }
}

/// A call always stays, and every place it reads, as its callee or as an argument, is
/// marked as used, as is its destination.
pub proof fn lemma_call_marks_reads(
    used: Seq<PlaceKey>,
    changed: bool,
    dest: Place,
    f: Operand,
    args: Vec<Operand>,
    o: Operand,
    q: Place,
)
    requires
        o == f || args@.contains(o),
        o == Operand::Copy(q) || o == Operand::Move(q),
    ensures
        contains_key(pass_op(used, changed, Operation::Call(dest, f, args)).0, place_key(q)),
{
    let op = Operation::Call(dest, f, args);
    let ks = op_keys(op);
    assert(ks == seq![place_key(dest)] + operand_keys(f) + args_keys(args@));
    lemma_insert_all_has(used, changed, ks);
    if o == f {
        assert(operand_keys(f) == seq![place_key(q)]);
        assert(ks[1] == place_key(q));
    } else {
        lemma_args_keys_has(args@, o, q);
        let j = choose|j: int| 0 <= j < args_keys(args@).len() && args_keys(args@)[j] == place_key(q);
        assert(ks[1 + operand_keys(f).len() + j] == place_key(q));
    }
}

/// Within one sweep, a borrow `dest = &p` whose destination is already used when the sweep
/// starts marks `p` as used by the end of the sweep.
pub proof fn lemma_pass_ops_marks_borrow(
    used: Seq<PlaceKey>,
    changed: bool,
    ops: Seq<Operation>,
    j: int,
    dest: Place,
    m: bool,
    p: Place,
)
    requires
        0 <= j < ops.len(),
        ops[j] == Operation::Assign(dest, Rvalue::Ref(m, p)),
        contains_key(used, place_key(dest)),
    ensures
        contains_key(pass_ops(used, changed, ops).0, place_key(p)),
    decreases ops.len(),
{
    let (u1, c1) = pass_ops(used, changed, ops.drop_last());
    lemma_pass_ops_prefix(used, changed, ops.drop_last());
    if j == ops.len() - 1 {
        lemma_contains_grows(used, u1, place_key(dest));
        lemma_pass_op_marks(u1, c1, ops.last(), place_key(p));
    } else {
        assert(ops.drop_last()[j] == ops[j]);
        lemma_pass_ops_marks_borrow(used, changed, ops.drop_last(), j, dest, m, p);
        lemma_pass_op_marks(u1, c1, ops.last(), place_key(p));
    }
}

proof fn lemma_sweeps_marks_borrow(
    used: Seq<PlaceKey>,
    blocks: Seq<BasicBlock>,
    bound: nat,
    j: int,
    dest: Place,
    m: bool,
    p: Place,
)
    requires
        0 <= j < all_ops(blocks).len(),
        all_ops(blocks)[j] == Operation::Assign(dest, Rvalue::Ref(m, p)),
        contains_key(used, place_key(dest)),
    ensures
        contains_key(sweeps(used, blocks, bound), place_key(p)),
    decreases bound - used.len(),
{
    let (u2, ch) = sweep(used, blocks);
    lemma_pass_ops_marks_borrow(used, false, all_ops(blocks), j, dest, m, p);
    if ch && used.len() < u2.len() && u2.len() <= bound {
        lemma_pass_ops_prefix(used, false, all_ops(blocks));
        lemma_contains_grows(used, u2, place_key(dest));
        lemma_sweeps_marks_borrow(u2, blocks, bound, j, dest, m, p);
    }
}

/// A place that the function's result borrows is used, so it and the statements that
/// write it are kept: when some statement assigns `&p` to the first local, `p` is in the
/// used set.
pub proof fn lemma_borrowed_by_result_used(f: Function, j: int, dest: Place, m: bool, p: Place)
    requires
        f.locals@.len() > 0,
        0 <= j < all_ops(f.blocks@).len(),
        all_ops(f.blocks@)[j] == Operation::Assign(dest, Rvalue::Ref(m, p)),
        key_eq(place_key(dest), local_key(f.locals@[0])),
    ensures
        contains_key(used_keys(f), place_key(p)),
{
    let init = seq![local_key(f.locals@[0])];
    lemma_key_eq(place_key(dest), local_key(f.locals@[0]), place_key(dest));
    assert(key_eq(init[0], place_key(dest)));
    lemma_sweeps_marks_borrow(init, f.blocks@, candidates(f).len(), j, dest, m, p);
}

/// Whether a statement stays.
fn keeps(used: &Vec<Place>, st: &Stmt, Ghost(su): Ghost<Seq<PlaceKey>>) -> (r: bool)
    requires
        used_match(used@, su),
    ensures
        r == keep_stmt(su, *st),
{
    match &st.op {
        Operation::Assign(dest, _) => has_place(used, dest, Ghost(su)),
        Operation::Live(l) => has_local(used, l, Ghost(su)),
        Operation::Dead(l) => has_local(used, l, Ghost(su)),
        Operation::Call(dest, _, _) => has_place(used, dest, Ghost(su)),
        Operation::Noop => true,
    }
}

/// The locals whose whole place is in `used`, in order.
fn retain_locals(ls: Vec<Local>, used: &Vec<Place>, Ghost(su): Ghost<Seq<PlaceKey>>) -> (r: Vec<
    Local,
>)
    requires
        used_match(used@, su),
    ensures
        r@ == kept_locals(su, ls@),
{
    let ghost l0 = ls@;
    let n = ls.len();
    let mut rest = ls;
    let mut kept: Vec<Local> = Vec::new();
    let mut j: usize = 0;
    proof {
        assert(rest@ =~= l0.subrange(0, l0.len() as int));
        assert(l0.take(0) =~= Seq::<Local>::empty());
    }
    while rest.len() > 0
        invariant
            used_match(used@, su),
            j <= n,
            l0.len() == n,
            rest@ == l0.subrange(j as int, n as int),
            kept@ == kept_locals(su, l0.take(j as int)),
        decreases rest@.len(),
    {
        let x = rest.remove(0);
        proof {
            assert(x == l0[j as int]);
            assert(l0.take(j + 1).drop_last() =~= l0.take(j as int));
            assert(rest@ =~= l0.subrange(j + 1, n as int));
        }
        if has_local(used, &x, Ghost(su)) {
            kept.push(x);
        }
        j = j + 1;
    }
    proof {
        assert(l0.take(j as int) =~= l0);
    }
    kept
}

/// The statements that stay, in order.
fn retain_stmts(ss: Vec<Stmt>, used: &Vec<Place>, Ghost(su): Ghost<Seq<PlaceKey>>) -> (r: Vec<Stmt>)
    requires
        used_match(used@, su),
    ensures
        r@ == kept_stmts(su, ss@),
{
    let ghost s0 = ss@;
    let n = ss.len();
    let mut rest = ss;
    let mut kept: Vec<Stmt> = Vec::new();
    let mut j: usize = 0;
    proof {
        assert(rest@ =~= s0.subrange(0, s0.len() as int));
        assert(s0.take(0) =~= Seq::<Stmt>::empty());
    }
    while rest.len() > 0
        invariant
            used_match(used@, su),
            j <= n,
            s0.len() == n,
            rest@ == s0.subrange(j as int, n as int),
            kept@ == kept_stmts(su, s0.take(j as int)),
        decreases rest@.len(),
    {
        let x = rest.remove(0);
        proof {
            assert(x == s0[j as int]);
            assert(s0.take(j + 1).drop_last() =~= s0.take(j as int));
            assert(rest@ =~= s0.subrange(j + 1, n as int));
        }
        if keeps(used, &x, Ghost(su)) {
            kept.push(x);
        }
        j = j + 1;
    }
    proof {
        assert(s0.take(j as int) =~= s0);
    }
    kept
}

impl Function {
    /// One sweep over all statements of all blocks, in order.
    fn sweep_all(&self, used: &mut Vec<Place>, changed: &mut bool, Ghost(su): Ghost<Seq<PlaceKey>>) -> (r: Ghost<
        Seq<PlaceKey>,
    >)
        requires
            used_match(old(used)@, su),
            !*old(changed),
        ensures
            used_match(final(used)@, r@),
            (r@, *final(changed)) == sweep(su, self.blocks@),
    {
        let ghost blocks = self.blocks@;
        let ghost mut s = su;
        let mut b: usize = 0;
        proof {
            assert(blocks.take(0) =~= Seq::<BasicBlock>::empty());
        }
        while b < self.blocks.len()
            invariant
                blocks == self.blocks@,
                b <= blocks.len(),
                used_match(used@, s),
                (s, *changed) == pass_ops(su, false, all_ops(blocks.take(b as int))),
            decreases blocks.len() - b,
        {
            let ghost pre = all_ops(blocks.take(b as int));
            let ghost ops0 = ops_of(blocks[b as int]);
            let mut k: usize = 0;
            proof {
                assert(pre + ops0.take(0) =~= pre);
            }
            while k < self.blocks[b].stmts.len()
                invariant
                    blocks == self.blocks@,
                    b < blocks.len(),
                    ops0 == ops_of(blocks[b as int]),
                    k <= blocks[b as int].stmts@.len(),
                    used_match(used@, s),
                    (s, *changed) == pass_ops(su, false, pre + ops0.take(k as int)),
                decreases blocks[b as int].stmts@.len() - k,
            {
                let ghost c = *changed;
                let ghost before = pre + ops0.take(k as int);
                let Ghost(s2) = sweep_op(used, changed, &self.blocks[b].stmts[k].op, Ghost(s));
                proof {
                    assert(ops0[k as int] == self.blocks@[b as int].stmts@[k as int].op);
                    assert(pre + ops0.take(k + 1) =~= before.push(ops0[k as int]));
                    assert(before.push(ops0[k as int]).drop_last() =~= before);
                    s = s2;
                }
                k = k + 1;
            }
            proof {
                assert(ops0.take(k as int) =~= ops0);
                assert(blocks.take(b + 1).drop_last() =~= blocks.take(b as int));
                assert(blocks.take(b + 1).last() == blocks[b as int]);
            }
            b = b + 1;
        }
        proof {
            assert(blocks.take(b as int) =~= blocks);
        }
        Ghost(s)
    }

    /// Finds the places that the function's result depends on: starting from the first
    /// local, an assignment to a place found so marks the places it reads, and a call marks
    /// its destination and what it reads; sweeps over all statements repeat while the last
    /// mark of a sweep was new. Then drops the locals, and the assignments, calls and storage
    /// markers, whose places were not found. Nothing else changes.
    pub fn remove_unused_variables(&mut self)
        requires
            old(self).locals@.len() > 0,
        ensures
            *final(self) == (Function {
                locals: final(self).locals,
                blocks: final(self).blocks,
                ..*old(self)
            }),
            final(self).locals@ == kept_locals(used_keys(*old(self)), old(self).locals@),
            final(self).blocks@.len() == old(self).blocks@.len(),
            forall|k: int|
                0 <= k < old(self).blocks@.len() ==> #[trigger] final(self).blocks@[k] == (
                BasicBlock { stmts: final(self).blocks@[k].stmts, ..old(self).blocks@[k] }),
            forall|k: int|
                0 <= k < old(self).blocks@.len() ==> (#[trigger] final(self).blocks@[k]).stmts@
                    == kept_stmts(used_keys(*old(self)), old(self).blocks@[k].stmts@),
    {
        let ghost cand = candidates(*self);
        let ghost bound = cand.len();
        let ghost blocks = self.blocks@;
        let ghost su0 = seq![local_key(self.locals@[0])];
        let first = Place::of_local(clone_local(&self.locals[0]));
        let mut used: Vec<Place> = Vec::new();
        used.push(first);
        proof {
            lemma_ty_eq(self.locals@[0].ty, first.local.ty, first.local.ty);
            assert(key_eq(place_key(used@[0]), su0[0]));
            assert(cand[0] == su0[0]);
        }
        let ghost mut su = su0;
        let mut changed = true;
        while changed
            invariant
                *self == *old(self),
                blocks == self.blocks@,
                cand == candidates(*self),
                bound == cand.len(),
                su0 == seq![local_key(self.locals@[0])],
                used_match(used@, su),
                su.no_duplicates(),
                forall|i: int| 0 <= i < su.len() ==> cand.contains(#[trigger] su[i]),
                su.len() <= bound,
                changed ==> sweeps(su0, blocks, bound) == sweeps(su, blocks, bound),
                !changed ==> sweeps(su0, blocks, bound) == su,
            decreases bound - su.len() + (if changed {
                1int
            } else {
                0int
            }),
        {
            changed = false;
            let ghost start = su;
            let Ghost(s2) = self.sweep_all(&mut used, &mut changed, Ghost(su));
            proof {
                lemma_pass_ops(start, false, all_ops(blocks));
                assert forall|i: int| 0 <= i < s2.len() implies cand.contains(#[trigger] s2[i]) by {
                    if start.contains(s2[i]) {
                        let j = choose|j: int| 0 <= j < start.len() && start[j] == s2[i];
                        assert(cand.contains(start[j]));
                    } else {
                        let ak = all_keys(all_ops(blocks));
                        let j = choose|j: int| 0 <= j < ak.len() && ak[j] == s2[i];
                        assert(cand[j + 1] == s2[i]);
                    }
                }
                lemma_bound(s2, cand);
                su = s2;
            }
        }
        let ghost fin = su;
        proof {
            assert(fin == used_keys(*old(self)));
        }
        let mut ls: Vec<Local> = Vec::new();
        std::mem::swap(&mut ls, &mut self.locals);
        self.locals = retain_locals(ls, &used, Ghost(fin));
        let n = self.blocks.len();
        let mut b: usize = 0;
        while b < n
            invariant
                n == blocks.len(),
                blocks == old(self).blocks@,
                fin == used_keys(*old(self)),
                used_match(used@, fin),
                self.blocks@.len() == n,
                b <= n,
                *self == (Function {
                    locals: self.locals,
                    blocks: self.blocks,
                    ..*old(self)
                }),
                self.locals@ == kept_locals(fin, old(self).locals@),
                forall|k: int| b <= k < n ==> #[trigger] self.blocks@[k] == blocks[k],
                forall|k: int|
                    0 <= k < b ==> #[trigger] self.blocks@[k] == (BasicBlock {
                        stmts: self.blocks@[k].stmts,
                        ..blocks[k]
                    }),
                forall|k: int|
                    0 <= k < b ==> (#[trigger] self.blocks@[k]).stmts@ == kept_stmts(
                        fin,
                        blocks[k].stmts@,
                    ),
            decreases n - b,
        {
            let mut ss: Vec<Stmt> = Vec::new();
            std::mem::swap(&mut ss, &mut self.blocks[b].stmts);
            let kept = retain_stmts(ss, &used, Ghost(fin));
            self.blocks[b].stmts = kept;
            b = b + 1;
        }
    }

    /// The function without its unused locals and the statements that write them.
    pub fn with_remove_unused_variables(self) -> (f: Self)
        requires
            self.locals@.len() > 0,
        ensures
            f == (Function { locals: f.locals, blocks: f.blocks, ..self }),
            f.locals@ == kept_locals(used_keys(self), self.locals@),
            f.blocks@.len() == self.blocks@.len(),
            forall|k: int|
                0 <= k < self.blocks@.len() ==> #[trigger] f.blocks@[k] == (BasicBlock {
                    stmts: f.blocks@[k].stmts,
                    ..self.blocks@[k]
                }),
            forall|k: int|
                0 <= k < self.blocks@.len() ==> (#[trigger] f.blocks@[k]).stmts@ == kept_stmts(
                    used_keys(self),
                    self.blocks@[k].stmts@,
                ),
    {
        let mut f = self;
        f.remove_unused_variables();
        f
    }
}

} // verus!
