//! Constant propagation: copies of places that hold a known constant become that constant,
//! and branches on a known boolean become jumps.
use vstd::prelude::*;

use super::place::clone_constant;
use super::place::clone_place;
use super::place::lemma_place_eq;
use super::place::place_eq;
use super::place::same_place;
use super::targets;
use super::BasicBlock;
use super::BlockId;
use super::Constant;
use super::Function;
use super::Operand;
use super::Operation;
use super::Place;
use super::Rvalue;
use super::Stmt;
use super::Terminator;

verus! {

/// The constant last recorded for a place equal to `q`, if any.
pub open spec fn env_lookup(env: Seq<(Place, Constant)>, q: Place) -> Option<Constant>
    decreases env.len(),
{
    if env.len() == 0 {
        None
    } else if place_eq(env.last().0, q) {
        Some(env.last().1)
    } else {
        env_lookup(env.drop_last(), q)
    }
}

/// The entries whose places differ from `p`.
pub open spec fn env_remove(env: Seq<(Place, Constant)>, p: Place) -> Seq<(Place, Constant)>
    decreases env.len(),
{
    if env.len() == 0 {
        env
    } else {
        let r = env_remove(env.drop_last(), p);
        if place_eq(env.last().0, p) {
            r
        } else {
            r.push(env.last())
        }
    }
}

/// The entries with `p` now holding `c`.
pub open spec fn env_insert(env: Seq<(Place, Constant)>, p: Place, c: Constant) -> Seq<
    (Place, Constant),
> {
    env_remove(env, p).push((p, c))
}

/// One operation, given the known constants: the constants known after it, and the operation
/// itself, with a copy of a place that holds a known constant replaced by that constant. An
/// assignment of a constant records it; any other assignment or call forgets its destination.
/// A copy, whether replaced or not, records nothing and forgets nothing.
pub open spec fn prop_op(env: Seq<(Place, Constant)>, op: Operation) -> (
    Seq<(Place, Constant)>,
    Operation,
) {
    match op {
        Operation::Assign(p, Rvalue::Use(Operand::Constant(c))) => (env_insert(env, p, c), op),
        Operation::Assign(p, Rvalue::Use(Operand::Copy(src))) => match env_lookup(env, src) {
            Some(c) => (env, Operation::Assign(p, Rvalue::Use(Operand::Constant(c)))),
            None => (env, op),
        },
        Operation::Assign(p, _) => (env_remove(env, p), op),
        Operation::Call(dest, _, _) => (env_remove(env, dest), op),
        _ => (env, op),
    }
}

/// A sequence of operations, in order.
pub open spec fn prop_ops(env: Seq<(Place, Constant)>, ops: Seq<Operation>) -> (
    Seq<(Place, Constant)>,
    Seq<Operation>,
)
    decreases ops.len(),
{
    if ops.len() == 0 {
        (env, ops)
    } else {
        let (e1, os) = prop_ops(env, ops.drop_last());
        let (e2, o) = prop_op(e1, ops.last());
        (e2, os.push(o))
    }
}

/// A terminator, given the known constants: a branch on a copy of a place that holds a known
/// boolean becomes a jump to the branch it takes.
pub open spec fn prop_term(env: Seq<(Place, Constant)>, t: Option<Terminator>) -> Option<
    Terminator,
> {
    match t {
        Some(Terminator::IfElse(Operand::Copy(place), t0, t1)) => match env_lookup(env, place) {
            Some(Constant::Bool(b)) => Some(Terminator::Goto(
                if b {
                    t0
                } else {
                    t1
                },
            )),
            _ => t,
        },
        _ => t,
    }
}

/// The operations of a block's statements.
pub open spec fn ops_of(b: BasicBlock) -> Seq<Operation> {
    b.stmts@.map_values(|s: Stmt| s.op)
}

/// The constants known when block `k` is reached: the blocks are taken in order, and what
/// is known carries over from one block to the next.
pub open spec fn env_before(blocks: Seq<BasicBlock>, k: nat) -> Seq<(Place, Constant)>
    decreases k,
{
    if k == 0 {
        Seq::empty()
    } else {
        prop_ops(env_before(blocks, (k - 1) as nat), ops_of(blocks[k - 1])).0
    }
}

/// The operations of block `k` after propagation.
pub open spec fn new_ops(blocks: Seq<BasicBlock>, k: nat) -> Seq<Operation> {
    prop_ops(env_before(blocks, k), ops_of(blocks[k as int])).1
}

/// The terminator of block `k` after propagation.
pub open spec fn new_term(blocks: Seq<BasicBlock>, k: nat) -> Option<Terminator> {
    prop_term(env_before(blocks, k + 1), blocks[k as int].terminator)
}

/// The entries of `e` have, in order, places equal to and constants the same as those of `s`.
pub open spec fn env_match(e: Seq<(Place, Constant)>, s: Seq<(Place, Constant)>) -> bool {
    &&& e.len() == s.len()
    &&& forall|k: int|
        0 <= k < e.len() ==> place_eq(#[trigger] e[k].0, s[k].0) && e[k].1 == s[k].1
}

proof fn lemma_match_lookup(e: Seq<(Place, Constant)>, s: Seq<(Place, Constant)>, q: Place)
    requires
        env_match(e, s),
    ensures
        env_lookup(e, q) == env_lookup(s, q),
    decreases e.len(),
{
    if e.len() > 0 {
        let k = e.len() - 1;
        assert(place_eq(e[k].0, s[k].0));
        lemma_place_eq(e.last().0, s.last().0, q);
        lemma_place_eq(s.last().0, e.last().0, q);
        assert(env_match(e.drop_last(), s.drop_last())) by {
            assert forall|j: int| 0 <= j < e.drop_last().len() implies place_eq(
                #[trigger] e.drop_last()[j].0,
                s.drop_last()[j].0,
            ) && e.drop_last()[j].1 == s.drop_last()[j].1 by {
                assert(place_eq(e[j].0, s[j].0));
            }
        }
        lemma_match_lookup(e.drop_last(), s.drop_last(), q);
    }
}

proof fn lemma_match_remove(e: Seq<(Place, Constant)>, s: Seq<(Place, Constant)>, p: Place)
    requires
        env_match(e, s),
    ensures
        env_match(env_remove(e, p), env_remove(s, p)),
    decreases e.len(),
{
    if e.len() > 0 {
        let k = e.len() - 1;
        assert(place_eq(e[k].0, s[k].0));
        lemma_place_eq(e.last().0, s.last().0, p);
        lemma_place_eq(s.last().0, e.last().0, p);
        assert(env_match(e.drop_last(), s.drop_last())) by {
            assert forall|j: int| 0 <= j < e.drop_last().len() implies place_eq(
                #[trigger] e.drop_last()[j].0,
                s.drop_last()[j].0,
            ) && e.drop_last()[j].1 == s.drop_last()[j].1 by {
                assert(place_eq(e[j].0, s[j].0));
            }
        }
        lemma_match_remove(e.drop_last(), s.drop_last(), p);
        let re = env_remove(e.drop_last(), p);
        let rs = env_remove(s.drop_last(), p);
        if !place_eq(e.last().0, p) {
            assert forall|j: int| 0 <= j < re.push(e.last()).len() implies place_eq(
                #[trigger] re.push(e.last())[j].0,
                rs.push(s.last())[j].0,
            ) && re.push(e.last())[j].1 == rs.push(s.last())[j].1 by {
                if j < re.len() {
                    assert(place_eq(re[j].0, rs[j].0));
                }
            }
        }
    }
}

/// The constant recorded for a place equal to `q`, if any.
fn env_get(env: &Vec<(Place, Constant)>, q: &Place) -> (r: Option<Constant>)
    ensures
        r == env_lookup(env@, *q),
{
    let mut j: usize = env.len();
    proof {
        assert(env@.take(j as int) =~= env@);
    }
    while j > 0
        invariant
            j <= env@.len(),
            env_lookup(env@, *q) == env_lookup(env@.take(j as int), *q),
        decreases j,
    {
        let ghost t = env@.take(j as int);
        proof {
            assert(t.drop_last() =~= env@.take(j - 1));
        }
        if same_place(&env[j - 1].0, q) {
            return Some(clone_constant(&env[j - 1].1));
        }
        j = j - 1;
    }
    None
}

/// The entries whose places differ from `p`.
fn env_without(env: Vec<(Place, Constant)>, p: &Place) -> (r: Vec<(Place, Constant)>)
    ensures
        r@ == env_remove(env@, *p),
{
    let ghost e0 = env@;
    let n = env.len();
    let mut rest = env;
    let mut kept: Vec<(Place, Constant)> = Vec::new();
    let mut j: usize = 0;
    proof {
        assert(rest@ =~= e0.subrange(0, e0.len() as int));
        assert(e0.take(0) =~= Seq::<(Place, Constant)>::empty());
    }
    while rest.len() > 0
        invariant
            j <= e0.len(),
            e0.len() == n,
            rest@ == e0.subrange(j as int, e0.len() as int),
            kept@ == env_remove(e0.take(j as int), *p),
        decreases rest@.len(),
    {
        let x = rest.remove(0);
        proof {
            assert(x == e0[j as int]);
            assert(e0.take(j + 1).drop_last() =~= e0.take(j as int));
            assert(rest@ =~= e0.subrange(j + 1, e0.len() as int));
        }
        if !same_place(&x.0, p) {
            kept.push(x);
        }
        j = j + 1;
    }
    proof {
        assert(e0.take(j as int) =~= e0);
    }
    kept
}

/// One operation: updates the known constants and returns the operation to keep.
fn prop_one(env: &mut Vec<(Place, Constant)>, op: Operation, Ghost(senv): Ghost<
    Seq<(Place, Constant)>,
>) -> (r: Operation)
    requires
        env_match(old(env)@, senv),
    ensures
        env_match(final(env)@, prop_op(senv, op).0),
        r == prop_op(senv, op).1,
{
    match op {
        Operation::Assign(p, Rvalue::Use(Operand::Constant(c))) => {
            let mut e: Vec<(Place, Constant)> = Vec::new();
            std::mem::swap(&mut e, env);
            let ghost e0 = e@;
            let mut e = env_without(e, &p);
            proof {
                lemma_match_remove(e0, senv, p);
            }
            let key = clone_place(&p);
            let val = clone_constant(&c);
            let ghost before = e@;
            e.push((key, val));
            proof {
                lemma_place_eq(p, key, p);
                let s2 = env_insert(senv, p, c);
                assert forall|k: int| 0 <= k < e@.len() implies place_eq(#[trigger] e@[k].0, s2[k].0)
                    && e@[k].1 == s2[k].1 by {
                    if k < before.len() {
                        assert(e@[k] == before[k]);
                    }
                }
            }
            *env = e;
            Operation::Assign(p, Rvalue::Use(Operand::Constant(c)))
        },
        Operation::Assign(p, Rvalue::Use(Operand::Copy(src))) => {
            let found = env_get(env, &src);
            proof {
                lemma_match_lookup(env@, senv, src);
            }
            match found {
                Some(c) => Operation::Assign(p, Rvalue::Use(Operand::Constant(c))),
                None => Operation::Assign(p, Rvalue::Use(Operand::Copy(src))),
            }
        },
        Operation::Assign(p, rv) => {
            let mut e: Vec<(Place, Constant)> = Vec::new();
            std::mem::swap(&mut e, env);
            let ghost e0 = e@;
            *env = env_without(e, &p);
            proof {
                lemma_match_remove(e0, senv, p);
            }
            Operation::Assign(p, rv)
        },
        Operation::Call(dest, f, args) => {
            let mut e: Vec<(Place, Constant)> = Vec::new();
            std::mem::swap(&mut e, env);
            let ghost e0 = e@;
            *env = env_without(e, &dest);
            proof {
                lemma_match_remove(e0, senv, dest);
            }
            Operation::Call(dest, f, args)
        },
        other => other,
    }
}

/// Propagation changes control flow only by resolving branches: every block that the new
/// terminator of a block can jump to is one that its old terminator could jump to.
pub proof fn lemma_propagation_keeps_targets(f: Function, k: nat)
    requires
        k < f.blocks@.len(),
    ensures
        forall|j: int|
            0 <= j < targets(new_term(f.blocks@, k)).len() ==> targets(
                f.blocks@[k as int].terminator,
            ).contains(#[trigger] targets(new_term(f.blocks@, k))[j]),
{
    let t = f.blocks@[k as int].terminator;
    let nt = new_term(f.blocks@, k);
    if nt != t {
        match t {
            Some(Terminator::IfElse(_, t0, t1)) => {
                assert(targets(t)[0] == t0);
                assert(targets(t)[1] == t1);
            },
            _ => {},
        }
    }
}

/// Forgetting a place forgets every place equal to it and nothing else.
pub proof fn lemma_lookup_remove(env: Seq<(Place, Constant)>, p: Place, q: Place)
    ensures
        env_lookup(env_remove(env, p), q) == (if place_eq(p, q) {
            None::<Constant>
        } else {
            env_lookup(env, q)
        }),
    decreases env.len(),
{
    if env.len() > 0 {
        let a = env.last().0;
        lemma_lookup_remove(env.drop_last(), p, q);
        lemma_place_eq(a, p, q);
        lemma_place_eq(p, a, q);
        lemma_place_eq(a, q, p);
        lemma_place_eq(q, a, p);
        lemma_place_eq(p, q, a);
        lemma_place_eq(q, p, a);
        let r = env_remove(env.drop_last(), p);
        assert(r.push(env.last()).drop_last() =~= r);
        assert(r.push(env.last()).last() == env.last());
    }
}

/// What is known of each place after one operation: an assignment of a constant makes that
/// constant the one known for its destination; a call, or an assignment of anything but a
/// constant or a copy, leaves nothing known for its destination (so a constant known from
/// before is not carried past a call that overwrites the place); every other place keeps
/// what was known of it. A copy changes nothing that is known.
pub proof fn lemma_prop_op_knowledge(env: Seq<(Place, Constant)>, op: Operation, q: Place)
    ensures
        op matches Operation::Assign(p, Rvalue::Use(Operand::Constant(c))) ==> env_lookup(
            prop_op(env, op).0,
            q,
        ) == (if place_eq(p, q) {
            Some(c)
        } else {
            env_lookup(env, q)
        }),
        op matches Operation::Call(dest, _, _) ==> env_lookup(prop_op(env, op).0, q) == (if place_eq(
            dest,
            q,
        ) {
            None::<Constant>
        } else {
            env_lookup(env, q)
        }),
        op matches Operation::Assign(p, Rvalue::Ref(_, _)) ==> env_lookup(prop_op(env, op).0, q)
            == (if place_eq(p, q) {
            None::<Constant>
        } else {
            env_lookup(env, q)
        }),
        op matches Operation::Assign(p, Rvalue::Use(Operand::Move(_))) ==> env_lookup(
            prop_op(env, op).0,
            q,
        ) == (if place_eq(p, q) {
            None::<Constant>
        } else {
            env_lookup(env, q)
        }),
        op matches Operation::Assign(p, Rvalue::Use(Operand::Function(_, _))) ==> env_lookup(
            prop_op(env, op).0,
            q,
        ) == (if place_eq(p, q) {
            None::<Constant>
        } else {
            env_lookup(env, q)
        }),
        op matches Operation::Assign(_, Rvalue::Use(Operand::Copy(_))) ==> prop_op(env, op).0
            == env,
        op is Live || op is Dead || op is Noop ==> prop_op(env, op).0 == env,
{
    match op {
        Operation::Assign(p, Rvalue::Use(Operand::Constant(c))) => {
            lemma_lookup_remove(env, p, q);
            let e2 = env_remove(env, p).push((p, c));
            assert(e2.drop_last() =~= env_remove(env, p));
        },
        Operation::Assign(p, _) => {
            lemma_lookup_remove(env, p, q);
        },
        Operation::Call(dest, _, _) => {
            lemma_lookup_remove(env, dest, q);
        },
        _ => {},
    }
}

/// What propagation does to an operation and a terminator: a copy of a place for which a
/// constant is known becomes an assignment of that constant to the same destination, and a
/// copy of any other place stays; a branch on a copy of a place known to hold `true` jumps
/// to its first target, one known to hold `false` to its second, and any other branch
/// stays; every other operation and terminator stays as it was.
pub proof fn lemma_propagation_rewrites(
    env: Seq<(Place, Constant)>,
    p: Place,
    src: Place,
    t0: BlockId,
    t1: BlockId,
    op: Operation,
    t: Option<Terminator>,
)
    ensures
        prop_op(env, Operation::Assign(p, Rvalue::Use(Operand::Copy(src)))).1 == (match env_lookup(
            env,
            src,
        ) {
            Some(c) => Operation::Assign(p, Rvalue::Use(Operand::Constant(c))),
            None => Operation::Assign(p, Rvalue::Use(Operand::Copy(src))),
        }),
        !(op matches Operation::Assign(_, Rvalue::Use(Operand::Copy(_)))) ==> prop_op(env, op).1
            == op,
        env_lookup(env, src) == Some(Constant::Bool(true)) ==> prop_term(
            env,
            Some(Terminator::IfElse(Operand::Copy(src), t0, t1)),
        ) == Some(Terminator::Goto(t0)),
        env_lookup(env, src) == Some(Constant::Bool(false)) ==> prop_term(
            env,
            Some(Terminator::IfElse(Operand::Copy(src), t0, t1)),
        ) == Some(Terminator::Goto(t1)),
        !(env_lookup(env, src) matches Some(Constant::Bool(_))) ==> prop_term(
            env,
            Some(Terminator::IfElse(Operand::Copy(src), t0, t1)),
        ) == Some(Terminator::IfElse(Operand::Copy(src), t0, t1)),
        !(t matches Some(Terminator::IfElse(Operand::Copy(_), _, _))) ==> prop_term(env, t) == t,
{
}

impl Function {
    /// Propagates constants through the blocks, taken in order with what is known carried
    /// from each block to the next: each operation is rewritten by `prop_op`, and then the
    /// block's terminator by `prop_term`. Nothing else changes.
    pub fn constant_propagation(&mut self)
        ensures
            *final(self) == (Function { blocks: final(self).blocks, ..*old(self) }),
            final(self).blocks@.len() == old(self).blocks@.len(),
            forall|k: int|
                0 <= k < old(self).blocks@.len() ==> #[trigger] final(self).blocks@[k] == (
                BasicBlock {
                    stmts: final(self).blocks@[k].stmts,
                    terminator: new_term(old(self).blocks@, k as nat),
                    ..old(self).blocks@[k]
                }),
            forall|k: int|
                0 <= k < old(self).blocks@.len() ==> (#[trigger] final(self).blocks@[k]).stmts@.len()
                    == old(self).blocks@[k].stmts@.len(),
            forall|k: int, m: int|
                0 <= k < old(self).blocks@.len() && 0 <= m < old(self).blocks@[k].stmts@.len()
                    ==> #[trigger] final(self).blocks@[k].stmts@[m] == (Stmt {
                    op: new_ops(old(self).blocks@, k as nat)[m],
                    ..old(self).blocks@[k].stmts@[m]
                }),
    {
        let n = self.blocks.len();
        let ghost b0 = self.blocks@;
        let mut env: Vec<(Place, Constant)> = Vec::new();
        let mut b: usize = 0;
        while b < n
            invariant
                n == b0.len(),
                b0 == old(self).blocks@,
                self.blocks@.len() == n,
                b <= n,
                *self == (Function { blocks: self.blocks, ..*old(self) }),
                env_match(env@, env_before(b0, b as nat)),
                forall|k: int| b <= k < n ==> #[trigger] self.blocks@[k] == b0[k],
                forall|k: int|
                    0 <= k < b ==> #[trigger] self.blocks@[k] == (BasicBlock {
                        stmts: self.blocks@[k].stmts,
                        terminator: new_term(b0, k as nat),
                        ..b0[k]
                    }),
                forall|k: int|
                    0 <= k < b ==> (#[trigger] self.blocks@[k]).stmts@.len() == b0[k].stmts@.len(),
                forall|k: int, m: int|
                    0 <= k < b && 0 <= m < b0[k].stmts@.len() ==> #[trigger] self.blocks@[k].stmts@[m]
                        == (Stmt { op: new_ops(b0, k as nat)[m], ..b0[k].stmts@[m] }),
            decreases n - b,
        {
            let ghost blk = b0[b as int];
            let ghost ops0 = ops_of(blk);
            let ghost senv0 = env_before(b0, b as nat);
            let mut stmts: Vec<Stmt> = Vec::new();
            std::mem::swap(&mut stmts, &mut self.blocks[b].stmts);
            let mut k: usize = 0;
            proof {
                assert(ops0.take(0) =~= Seq::<Operation>::empty());
            }
            while k < stmts.len()
                invariant
                    stmts@.len() == blk.stmts@.len(),
                    ops0 == ops_of(blk),
                    k <= stmts@.len(),
                    env_match(env@, prop_ops(senv0, ops0.take(k as int)).0),
                    prop_ops(senv0, ops0.take(k as int)).1.len() == k,
                    forall|m: int|
                        0 <= m < k ==> #[trigger] stmts@[m] == (Stmt {
                            op: prop_ops(senv0, ops0.take(k as int)).1[m],
                            ..blk.stmts@[m]
                        }),
                    forall|m: int| k <= m < stmts@.len() ==> #[trigger] stmts@[m] == blk.stmts@[m],
                decreases stmts@.len() - k,
            {
                let ghost before = prop_ops(senv0, ops0.take(k as int));
                let mut op = Operation::Noop;
                std::mem::swap(&mut op, &mut stmts[k].op);
                proof {
                    assert(op == ops0[k as int]);
                }
                let new_op = prop_one(&mut env, op, Ghost(before.0));
                stmts[k].op = new_op;
                k = k + 1;
                proof {
                    assert(ops0.take(k as int).drop_last() =~= ops0.take(k - 1));
                    assert(ops0.take(k as int).last() == ops0[k - 1]);
                }
            }
            proof {
                assert(ops0.take(stmts@.len() as int) =~= ops0);
            }
            self.blocks[b].stmts = stmts;
            let new_t: Option<Option<Terminator>> = match &self.blocks[b].terminator {
                Some(Terminator::IfElse(Operand::Copy(place), t0, t1)) => {
                    let found = env_get(&env, place);
                    proof {
                        lemma_match_lookup(env@, env_before(b0, (b + 1) as nat), *place);
                    }
                    match found {
                        Some(Constant::Bool(v)) => Some(
                            Some(
                                Terminator::Goto(
                                    if v {
                                        *t0
                                    } else {
                                        *t1
                                    },
                                ),
                            ),
                        ),
                        _ => None,
                    }
                },
                _ => None,
            };
            match new_t {
                Some(t) => {
                    self.blocks[b].terminator = t;
                },
                None => {},
            }
            b = b + 1;
        }
    }
}

} // verus!
