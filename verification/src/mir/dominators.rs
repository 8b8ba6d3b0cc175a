//! Dominators: the blocks that every path from the entry to a block passes through.
use vstd::prelude::*;

use super::cfg::lists;
use super::graph_wf;
use super::BasicBlock;
use super::BlockId;
use super::Function;

verus! {

/// One step of the dominator equations at block `b` for block `c`: `c` dominates `b` when
/// it is `b` itself, or when `b` has predecessors and `c` dominates each of them.
pub open spec fn dom_step(d: Seq<Seq<bool>>, preds: Seq<BlockId>, b: int, c: int) -> bool {
    c == b || (preds.len() > 0 && forall|k: int|
        0 <= k < preds.len() ==> #[trigger] d[preds[k] as int][c])
}

/// An `n` by `n` table of flags.
pub open spec fn square(d: Seq<Seq<bool>>, n: nat) -> bool {
    d.len() == n && forall|b: int| 0 <= b < n ==> #[trigger] d[b].len() == n
}

/// The table solves the dominator equations: only the entry dominates the entry, and each
/// other block is dominated by itself and by what dominates all of its predecessors.
pub open spec fn dom_solution(d: Seq<Seq<bool>>, preds: Seq<Seq<BlockId>>, n: nat) -> bool {
    &&& square(d, n)
    &&& forall|c: int| 0 <= c < n ==> d[0][c] == (c == 0)
    &&& forall|b: int, c: int|
        1 <= b < n && 0 <= c < n ==> #[trigger] d[b][c] == dom_step(d, preds[b], b, c)
}

/// A table that could be dominator sets: the entry has no dominator but itself, and each
/// claim about another block is backed by the equations.
pub open spec fn dom_candidate(x: Seq<Seq<bool>>, preds: Seq<Seq<BlockId>>, n: nat) -> bool {
    &&& square(x, n)
    &&& forall|c: int| 0 <= c < n && x[0][c] ==> c == 0
    &&& forall|b: int, c: int|
        1 <= b < n && 0 <= c < n && #[trigger] x[b][c] ==> dom_step(x, preds[b], b, c)
}

/// Every flag set in `x` is set in `d`.
pub open spec fn below(x: Seq<Seq<bool>>, d: Seq<Seq<bool>>, n: nat) -> bool {
    forall|b: int, c: int| 0 <= b < n && 0 <= c < n && #[trigger] x[b][c] ==> d[b][c]
}

/// The table is the greatest solution: it holds every candidate.
pub open spec fn dom_greatest(d: Seq<Seq<bool>>, preds: Seq<Seq<BlockId>>, n: nat) -> bool {
    forall|x: Seq<Seq<bool>>| #[trigger] dom_candidate(x, preds, n) ==> below(x, d, n)
}

/// The flags of a table of vectors.
pub open spec fn bits(d: Seq<Vec<bool>>) -> Seq<Seq<bool>> {
    d.map_values(|v: Vec<bool>| v@)
}

/// The table of the dominator lists of the blocks.
pub open spec fn dom_table(blocks: Seq<BasicBlock>) -> Seq<Seq<bool>> {
    Seq::new(
        blocks.len(),
        |b: int| Seq::new(blocks.len(), |c: int| blocks[b].dom@.contains(c as BlockId)),
    )
}

/// Strictly increasing.
pub open spec fn increasing(s: Seq<BlockId>) -> bool {
    forall|i: int, j: int| 0 <= i < j < s.len() ==> s[i] < s[j]
}

pub open spec fn count_true(v: Seq<bool>) -> nat
    decreases v.len(),
{
    if v.len() == 0 {
        0
    } else {
        count_true(v.drop_last()) + if v.last() {
            1nat
        } else {
            0nat
        }
    }
}

pub open spec fn total(d: Seq<Seq<bool>>) -> nat
    decreases d.len(),
{
    if d.len() == 0 {
        0
    } else {
        total(d.drop_last()) + count_true(d.last())
    }
}

proof fn lemma_count_true_sub(v1: Seq<bool>, v2: Seq<bool>)
    requires
        v1.len() == v2.len(),
        forall|i: int| 0 <= i < v1.len() && v2[i] ==> v1[i],
    ensures
        count_true(v2) <= count_true(v1),
        v1 != v2 ==> count_true(v2) < count_true(v1),
    decreases v1.len(),
{
    if v1.len() > 0 {
        lemma_count_true_sub(v1.drop_last(), v2.drop_last());
        if v1 != v2 && v1.drop_last() =~= v2.drop_last() {
            assert(v1.last() != v2.last()) by {
                if v1.last() == v2.last() {
                    assert(v1 =~= v2) by {
                        assert forall|i: int| 0 <= i < v1.len() implies v1[i] == v2[i] by {
                            if i < v1.len() - 1 {
                                assert(v1.drop_last()[i] == v2.drop_last()[i]);
                            }
                        }
                    }
                }
            }
        }
    } else {
        assert(v1 =~= v2);
    }
}

proof fn lemma_total_update(d: Seq<Seq<bool>>, b: int, v: Seq<bool>)
    requires
        0 <= b < d.len(),
    ensures
        total(d.update(b, v)) + count_true(d[b]) == total(d) + count_true(v),
    decreases d.len(),
{
    let e = d.update(b, v);
    if b < d.len() - 1 {
        assert(e.drop_last() =~= d.drop_last().update(b, v));
        lemma_total_update(d.drop_last(), b, v);
    } else {
        assert(e.drop_last() =~= d.drop_last());
    }
}

proof fn lemma_step_mono(x: Seq<Seq<bool>>, d: Seq<Seq<bool>>, preds: Seq<BlockId>, n: nat, b: int, c: int)
    requires
        below(x, d, n),
        forall|k: int| 0 <= k < preds.len() ==> #[trigger] preds[k] < n,
        0 <= c < n,
        dom_step(x, preds, b, c),
    ensures
        dom_step(d, preds, b, c),
{
    if c != b {
        assert forall|k: int| 0 <= k < preds.len() implies #[trigger] d[preds[k] as int][c] by {
            assert(x[preds[k] as int][c]);
        }
    }
}

/// The increasing list of the positions of the set flags.
pub open spec fn members(v: Seq<bool>) -> Seq<BlockId>
    decreases v.len(),
{
    if v.len() == 0 {
        Seq::empty()
    } else {
        members(v.drop_last()) + if v.last() {
            seq![(v.len() - 1) as BlockId]
        } else {
            Seq::<BlockId>::empty()
        }
    }
}

/// The positions of the set flags, in increasing order.
fn members_of(v: &Vec<bool>) -> (r: Vec<BlockId>)
    ensures
        increasing(r@),
        forall|c: BlockId| r@.contains(c) <==> c < v@.len() && v@[c as int],
        forall|i: int| 0 <= i < r@.len() ==> #[trigger] r@[i] < v@.len(),
{
    let mut r: Vec<BlockId> = Vec::new();
    let mut c: usize = 0;
    while c < v.len()
        invariant
            c <= v@.len(),
            increasing(r@),
            forall|i: int| 0 <= i < r@.len() ==> #[trigger] r@[i] < c,
            forall|x: BlockId| r@.contains(x) <==> x < c && v@[x as int],
        decreases v@.len() - c,
    {
        if v[c] {
            let ghost before = r@;
            r.push(c);
            proof {
                assert forall|x: BlockId| r@.contains(x) <==> x < c + 1 && v@[x as int] by {
                    if x == c {
                        assert(r@[r@.len() - 1] == c);
                    }
                    if r@.contains(x) && x != c {
                        let i = choose|i: int| 0 <= i < r@.len() && r@[i] == x;
                        assert(i < before.len());
                        assert(before[i] == x);
                    }
                    if x < c && v@[x as int] {
                        let i = choose|i: int| 0 <= i < before.len() && before[i] == x;
                        assert(r@[i] == x);
                    }
                }
            }
        }
        c = c + 1;
    }
    r
}

/// Whether `c` dominates `b` by the equations, given the current table `d`.
fn step_value(d: &Vec<Vec<bool>>, preds: &Vec<BlockId>, b: usize, c: usize) -> (r: bool)
    requires
        forall|k: int| 0 <= k < preds@.len() ==> #[trigger] preds@[k] < d@.len(),
        forall|p: int| 0 <= p < d@.len() ==> c < #[trigger] d@[p]@.len(),
    ensures
        r == dom_step(bits(d@), preds@, b as int, c as int),
{
    if c == b {
        return true;
    }
    let np = preds.len();
    if np == 0 {
        return false;
    }
    let mut all = true;
    let mut k: usize = 0;
    while k < np
        invariant
            np == preds@.len(),
            forall|k2: int| 0 <= k2 < preds@.len() ==> #[trigger] preds@[k2] < d@.len(),
            forall|p: int| 0 <= p < d@.len() ==> c < #[trigger] d@[p]@.len(),
            k <= np,
            all == forall|k2: int| 0 <= k2 < k ==> #[trigger] bits(d@)[preds@[k2] as int][c as int],
        decreases np - k,
    {
        let p = preds[k];
        let v = d[p][c];
        proof {
            assert(bits(d@)[p as int] == d@[p as int]@);
        }
        all = all && v;
        proof {
            if !v {
                assert(!bits(d@)[preds@[k as int] as int][c as int]);
            }
        }
        k = k + 1;
    }
    all
}

/// Whether two vectors of flags are equal.
fn same_bits(a: &Vec<bool>, b: &Vec<bool>) -> (r: bool)
    ensures
        r == (a@ == b@),
{
    if a.len() != b.len() {
        return false;
    }
    let mut i: usize = 0;
    while i < a.len()
        invariant
            a@.len() == b@.len(),
            i <= a@.len(),
            forall|j: int| 0 <= j < i ==> a@[j] == b@[j],
        decreases a@.len() - i,
    {
        if a[i] != b[i] {
            return false;
        }
        i = i + 1;
    }
    assert(a@ =~= b@);
    true
}

/// The rows that have been set, for the blocks below `b`: the entry's row holds only the
/// entry, every other row every block.
proof fn lemma_initial_table(d: Seq<Seq<bool>>, preds: Seq<Seq<BlockId>>, n: nat)
    requires
        square(d, n),
        n > 0,
        forall|b: int, c: int| 0 <= b < n && 0 <= c < n ==> #[trigger] d[b][c] == (b != 0 || c
            == 0),
    ensures
        dom_greatest(d, preds, n),
{
    assert forall|x: Seq<Seq<bool>>| #[trigger] dom_candidate(x, preds, n) implies below(
        x,
        d,
        n,
    ) by {
        assert forall|b: int, c: int| 0 <= b < n && 0 <= c < n && #[trigger] x[b][c] implies d[b][c] by {
            if b == 0 {
                assert(c == 0);
            }
        }
    }
}

impl Function {
    /// The dominators of every block: the greatest solution of
    /// `Dom(0) = {0}` and `Dom(b) = {b} ∪ ⋂ {Dom(p) | p a predecessor of b}`, found by
    /// iterating the equations over the blocks in order until nothing changes. Each
    /// block's `dom` lists its dominators in increasing order. The dominator tree follows.
    pub fn compute_dominators(&mut self)
        requires
            old(self).blocks@.len() > 0,
            old(self).predecessors@.len() == old(self).blocks@.len(),
            graph_wf(lists(old(self).predecessors@), old(self).blocks@.len()),
        ensures
            *final(self) == (Function {
                blocks: final(self).blocks,
                domtree: final(self).domtree,
                ..*old(self)
            }),
            final(self).blocks@.len() == old(self).blocks@.len(),
            forall|b: int|
                0 <= b < old(self).blocks@.len() ==> #[trigger] final(self).blocks@[b] == (
                BasicBlock { dom: final(self).blocks@[b].dom, ..old(self).blocks@[b] }),
            forall|b: int|
                0 <= b < old(self).blocks@.len() ==> increasing(
                    #[trigger] final(self).blocks@[b].dom@,
                ),
            dom_solution(
                dom_table(final(self).blocks@),
                lists(old(self).predecessors@),
                old(self).blocks@.len(),
            ),
            dom_greatest(
                dom_table(final(self).blocks@),
                lists(old(self).predecessors@),
                old(self).blocks@.len(),
            ),
            final(self).domtree@.len() == old(self).blocks@.len(),
            forall|d: int|
                0 <= d < old(self).blocks@.len() ==> #[trigger] final(self).domtree@[d]@
                    == tree_children(dom_lists(final(self).blocks@), d as BlockId, old(self).blocks@.len()),
    {
        let n = self.blocks.len();
        let ghost preds = lists(self.predecessors@);
        let mut dom: Vec<Vec<bool>> = Vec::new();
        let mut b: usize = 0;
        while b < n
            invariant
                b <= n,
                dom@.len() == b,
                forall|b2: int| 0 <= b2 < b ==> #[trigger] dom@[b2]@.len() == n,
                forall|b2: int, c: int|
                    0 <= b2 < b && 0 <= c < n ==> #[trigger] dom@[b2]@[c] == (b2 != 0 || c == 0),
            decreases n - b,
        {
            let mut row: Vec<bool> = Vec::new();
            let mut c: usize = 0;
            while c < n
                invariant
                    c <= n,
                    row@.len() == c,
                    forall|c2: int| 0 <= c2 < c ==> #[trigger] row@[c2] == (b != 0 || c2 == 0),
                decreases n - c,
            {
                row.push(b != 0 || c == 0);
                c = c + 1;
            }
            dom.push(row);
            b = b + 1;
        }
        proof {
            assert(square(bits(dom@), n as nat));
            assert forall|b2: int, c: int| 0 <= b2 < n && 0 <= c < n implies #[trigger] bits(
                dom@,
            )[b2][c] == (b2 != 0 || c == 0) by {
                assert(bits(dom@)[b2] == dom@[b2]@);
            }
            lemma_initial_table(bits(dom@), preds, n as nat);
        }
        let mut changed = true;
        while changed
            invariant
                n == self.blocks@.len(),
                n > 0,
                preds == lists(self.predecessors@),
                self.predecessors@.len() == n,
                graph_wf(preds, n as nat),
                square(bits(dom@), n as nat),
                forall|c: int| 0 <= c < n ==> bits(dom@)[0][c] == (c == 0),
                forall|b2: int, c: int|
                    1 <= b2 < n && 0 <= c < n && #[trigger] dom_step(bits(dom@), preds[b2], b2, c)
                        ==> bits(dom@)[b2][c],
                dom_greatest(bits(dom@), preds, n as nat),
                !changed ==> forall|b2: int, c: int|
                    1 <= b2 < n && 0 <= c < n ==> #[trigger] bits(dom@)[b2][c] == dom_step(
                        bits(dom@),
                        preds[b2],
                        b2,
                        c,
                    ),
            decreases total(bits(dom@)) + if changed {
                1nat
            } else {
                0nat
            },
        {
            changed = false;
            let ghost start = bits(dom@);
            let mut b: usize = 1;
            while b < n
                invariant
                    n == self.blocks@.len(),
                    n > 0,
                    preds == lists(self.predecessors@),
                    self.predecessors@.len() == n,
                    graph_wf(preds, n as nat),
                    square(bits(dom@), n as nat),
                    forall|c: int| 0 <= c < n ==> bits(dom@)[0][c] == (c == 0),
                    forall|b2: int, c: int|
                        1 <= b2 < n && 0 <= c < n && #[trigger] dom_step(
                            bits(dom@),
                            preds[b2],
                            b2,
                            c,
                        ) ==> bits(dom@)[b2][c],
                    dom_greatest(bits(dom@), preds, n as nat),
                    1 <= b <= n,
                    total(bits(dom@)) <= total(start),
                    !changed ==> bits(dom@) == start,
                    changed ==> total(bits(dom@)) < total(start),
                    !changed ==> forall|b2: int, c: int|
                        1 <= b2 < b && 0 <= c < n ==> #[trigger] bits(dom@)[b2][c] == dom_step(
                            bits(dom@),
                            preds[b2],
                            b2,
                            c,
                        ),
                decreases n - b,
            {
                let ghost before = bits(dom@);
                let preds_b = &self.predecessors[b];
                proof {
                    assert(preds[b as int] == preds_b@);
                    assert forall|k: int| 0 <= k < preds_b@.len() implies #[trigger] preds_b@[k]
                        < dom@.len() by {
                        assert(preds[b as int][k] == preds_b@[k]);
                    }
                }
                let mut row: Vec<bool> = Vec::new();
                let mut c: usize = 0;
                while c < n
                    invariant
                        n == dom@.len(),
                        before == bits(dom@),
                        square(before, n as nat),
                        preds_b@ == preds[b as int],
                        forall|k: int| 0 <= k < preds_b@.len() ==> #[trigger] preds_b@[k] < n,
                        c <= n,
                        row@.len() == c,
                        forall|c2: int|
                            0 <= c2 < c ==> #[trigger] row@[c2] == dom_step(
                                before,
                                preds_b@,
                                b as int,
                                c2,
                            ),
                    decreases n - c,
                {
                    proof {
                        assert forall|p: int| 0 <= p < dom@.len() implies c < #[trigger] dom@[
                            p]@.len() by {
                            assert(before[p] == dom@[p]@);
                        }
                    }
                    let v = step_value(&dom, preds_b, b, c);
                    row.push(v);
                    c = c + 1;
                }
                proof {
                    assert forall|c2: int| 0 <= c2 < n && row@[c2] implies before[b as int][c2] by {
                        assert(dom_step(before, preds[b as int], b as int, c2));
                    }
                    assert(before[b as int] == dom@[b as int]@);
                }
                if !same_bits(&row, &dom[b]) {
                    let ghost r = row@;
                    dom.set(b, row);
                    changed = true;
                    proof {
                        let after = bits(dom@);
                        assert(after =~= before.update(b as int, r));
                        lemma_count_true_sub(before[b as int], r);
                        lemma_total_update(before, b as int, r);
                        assert(below(after, before, n as nat)) by {
                            assert forall|b2: int, c2: int|
                                0 <= b2 < n && 0 <= c2 < n && #[trigger] after[b2][c2] implies before[b2][c2] by {
                                if b2 == b {
                                    assert(r[c2]);
                                }
                            }
                        }
                        assert forall|b2: int, c2: int|
                            1 <= b2 < n && 0 <= c2 < n && #[trigger] dom_step(
                                after,
                                preds[b2],
                                b2,
                                c2,
                            ) implies after[b2][c2] by {
                            assert forall|k: int| 0 <= k < preds[b2].len() implies #[trigger] preds[b2][k] < n by {
                            }
                            lemma_step_mono(after, before, preds[b2], n as nat, b2, c2);
                        }
                        assert forall|x: Seq<Seq<bool>>| #[trigger] dom_candidate(
                            x,
                            preds,
                            n as nat,
                        ) implies below(x, after, n as nat) by {
                            assert(below(x, before, n as nat));
                            assert forall|b2: int, c2: int|
                                0 <= b2 < n && 0 <= c2 < n && #[trigger] x[b2][c2] implies after[b2][c2] by {
                                if b2 == b {
                                    assert(dom_step(x, preds[b2], b2, c2));
                                    assert forall|k: int| 0 <= k < preds[b2].len() implies #[trigger] preds[b2][k] < n by {
                                    }
                                    lemma_step_mono(x, before, preds[b2], n as nat, b2, c2);
                                    assert(r[c2]);
                                }
                            }
                        }
                        assert forall|c2: int| 0 <= c2 < n implies after[0][c2] == (c2 == 0) by {
                            assert(after[0] == before[0]);
                        }
                    }
                } else {
                    proof {
                        if !changed {
                        assert forall|b2: int, c2: int|
                            1 <= b2 < b + 1 && 0 <= c2 < n implies #[trigger] bits(dom@)[b2][c2]
                            == dom_step(bits(dom@), preds[b2], b2, c2) by {
                            if b2 == b {
                                assert(row@[c2] == dom_step(before, preds[b2], b2, c2));
                            }
                        }
                        }
                    }
                }
                b = b + 1;
            }
        }
        let mut b: usize = 0;
        while b < n
            invariant
                n == self.blocks@.len(),
                n == dom@.len(),
                square(bits(dom@), n as nat),
                b <= n,
                forall|b2: int|
                    0 <= b2 < n ==> #[trigger] self.blocks@[b2] == (BasicBlock {
                        dom: self.blocks@[b2].dom,
                        ..old(self).blocks@[b2]
                    }),
                *self == (Function { blocks: self.blocks, ..*old(self) }),
                forall|b2: int| 0 <= b2 < b ==> increasing(#[trigger] self.blocks@[b2].dom@),
                forall|b2: int, c: BlockId|
                    0 <= b2 < b ==> (#[trigger] self.blocks@[b2].dom@.contains(c) <==> c < n && bits(
                        dom@,
                    )[b2][c as int]),
            decreases n - b,
        {
            let m = members_of(&dom[b]);
            proof {
                assert(bits(dom@)[b as int] == dom@[b as int]@);
            }
            self.blocks[b].dom = m;
            assert(self.blocks@[b as int].dom@ == m@);
            b = b + 1;
        }
        proof {
            let t = dom_table(self.blocks@);
            assert(t =~= bits(dom@)) by {
                assert forall|b2: int| 0 <= b2 < n implies t[b2] =~= bits(dom@)[b2] by {
                    assert(increasing(self.blocks@[b2].dom@));
                }
            }
            assert forall|b2: int, j: int|
                0 <= b2 < n && 0 <= j < self.blocks@[b2].dom@.len() implies #[trigger] self.blocks@[b2].dom@[j]
                    < n by {
                assert(self.blocks@[b2].dom@.contains(self.blocks@[b2].dom@[j]));
            }
        }
        self.compute_dominator_tree();
    }
}

/// Every block dominates itself.
pub proof fn lemma_dominates_self(d: Seq<Seq<bool>>, preds: Seq<Seq<BlockId>>, n: nat, b: int)
    requires
        dom_solution(d, preds, n),
        0 <= b < n,
    ensures
        d[b][b],
{
}

/// The table with, for each block, also the dominators of its dominators.
pub open spec fn dom_closure(d: Seq<Seq<bool>>, n: nat) -> Seq<Seq<bool>> {
    Seq::new(
        n,
        |b: int|
            Seq::new(n, |e: int| d[b][e] || exists|c: int| 0 <= c < n && #[trigger] d[b][c] && d[c][e]),
    )
}

/// Dominance is transitive: what dominates a dominator of a block dominates the block.
pub proof fn lemma_dominance_transitive(
    d: Seq<Seq<bool>>,
    preds: Seq<Seq<BlockId>>,
    n: nat,
    b: int,
    c: int,
    e: int,
)
    requires
        dom_solution(d, preds, n),
        dom_greatest(d, preds, n),
        preds.len() == n,
        graph_wf(preds, n),
        0 <= b < n,
        0 <= c < n,
        0 <= e < n,
        d[b][c],
        d[c][e],
    ensures
        d[b][e],
{
    let x = dom_closure(d, n);
    assert(dom_candidate(x, preds, n)) by {
        assert forall|f: int| 0 <= f < n && x[0][f] implies f == 0 by {
            if !d[0][f] {
                let g = choose|g: int| 0 <= g < n && #[trigger] d[0][g] && d[g][f];
                assert(g == 0);
            }
        }
        assert forall|b1: int, f: int| 1 <= b1 < n && 0 <= f < n && #[trigger] x[b1][f] implies dom_step(
            x,
            preds[b1],
            b1,
            f,
        ) by {
            if d[b1][f] {
                assert(dom_step(d, preds[b1], b1, f));
                if f != b1 {
                    assert forall|k: int| 0 <= k < preds[b1].len() implies #[trigger] x[preds[b1][k] as int][f] by {
                        assert(preds[b1][k] < n);
                        assert(d[preds[b1][k] as int][f]);
                    }
                }
            } else {
                let g = choose|g: int| 0 <= g < n && #[trigger] d[b1][g] && d[g][f];
                assert(dom_step(d, preds[b1], b1, g));
                if g == b1 {
                    assert(false);
                } else {
                    assert forall|k: int| 0 <= k < preds[b1].len() implies #[trigger] x[preds[b1][k] as int][f] by {
                        let p = preds[b1][k] as int;
                        assert(preds[b1][k] < n);
                        assert(d[p][g]);
                        assert(d[p][g] && d[g][f]);
                    }
                }
            }
        }
    }
    assert(x[b][e]) by {
        assert(d[b][c] && d[c][e]);
    }
}

/// When every block but the entry has a predecessor, the entry dominates every block.
pub proof fn lemma_entry_dominates(d: Seq<Seq<bool>>, preds: Seq<Seq<BlockId>>, n: nat, b: int)
    requires
        dom_solution(d, preds, n),
        dom_greatest(d, preds, n),
        preds.len() == n,
        graph_wf(preds, n),
        forall|b1: int| 1 <= b1 < n ==> #[trigger] preds[b1].len() > 0,
        0 <= b < n,
    ensures
        d[b][0],
{
    let x = Seq::new(n, |b1: int| Seq::new(n, |c: int| c == 0 || d[b1][c]));
    assert(dom_candidate(x, preds, n)) by {
        assert forall|b1: int, c: int| 1 <= b1 < n && 0 <= c < n && #[trigger] x[b1][c] implies dom_step(
            x,
            preds[b1],
            b1,
            c,
        ) by {
            assert(preds[b1].len() > 0);
            if c != 0 {
                assert(dom_step(d, preds[b1], b1, c));
                if c != b1 {
                    assert forall|k: int| 0 <= k < preds[b1].len() implies #[trigger] x[preds[b1][k] as int][c] by {
                        assert(preds[b1][k] < n);
                        assert(d[preds[b1][k] as int][c]);
                    }
                }
            } else {
                assert forall|k: int| 0 <= k < preds[b1].len() implies #[trigger] x[preds[b1][k] as int][c] by {
                    assert(preds[b1][k] < n);
                }
            }
        }
    }
    assert(x[b][0]);
}

/// A path from the entry along the predecessor lists: it starts at the entry, and each of
/// its blocks after the first has the block before it among its predecessors.
pub open spec fn is_path(preds: Seq<Seq<BlockId>>, p: Seq<BlockId>, n: nat) -> bool {
    &&& p.len() > 0
    &&& p[0] == 0
    &&& forall|i: int| 0 <= i < p.len() ==> #[trigger] p[i] < n
    &&& forall|i: int| 1 <= i < p.len() ==> preds[#[trigger] p[i] as int].contains(p[i - 1])
}

/// What dominates a block lies on every path from the entry to that block.
pub proof fn lemma_dominators_on_every_path(
    d: Seq<Seq<bool>>,
    preds: Seq<Seq<BlockId>>,
    n: nat,
    p: Seq<BlockId>,
    a: int,
)
    requires
        dom_solution(d, preds, n),
        preds.len() == n,
        is_path(preds, p, n),
        0 <= a < n,
        d[p.last() as int][a],
    ensures
        p.contains(a as BlockId),
    decreases p.len(),
{
    let b = p.last();
    assert(b == p[p.len() - 1]);
    if b as int == a {
        assert(p[p.len() - 1] == a as BlockId);
    } else if b == 0 {
        assert(d[0][a] == (a == 0));
    } else {
        assert(p.len() > 1);
        let q = p[p.len() - 2];
        assert(preds[p[p.len() - 1] as int].contains(p[p.len() - 1 - 1]));
        assert(preds[b as int].contains(q));
        let k = choose|k: int| 0 <= k < preds[b as int].len() && preds[b as int][k] == q;
        assert(d[b as int][a] == dom_step(d, preds[b as int], b as int, a));
        assert(d[preds[b as int][k] as int][a]);
        let r = p.drop_last();
        assert(is_path(preds, r, n)) by {
            assert forall|i: int| 1 <= i < r.len() implies preds[#[trigger] r[i] as int].contains(r[i - 1]) by {
                assert(r[i] == p[i] && r[i - 1] == p[i - 1]);
                assert(preds[p[i] as int].contains(p[i - 1]));
            }
        }
        assert(r.last() == q);
        lemma_dominators_on_every_path(d, preds, n, r, a);
        let j = choose|j: int| 0 <= j < r.len() && r[j] == a as BlockId;
        assert(p[j] == a as BlockId);
    }
}

/// The dominator lists of the blocks.
pub open spec fn dom_lists(blocks: Seq<BasicBlock>) -> Seq<Seq<BlockId>> {
    Seq::new(blocks.len(), |b: int| blocks[b].dom@)
}

/// `b2` may be the immediate dominator of `b1`: another dominator of `b1` that no third
/// dominator of `b1` is dominated by.
pub open spec fn idom_cand(doms: Seq<Seq<BlockId>>, b1: int, b2: BlockId) -> bool {
    b2 != b1 && forall|j: int|
        0 <= j < doms[b1].len() && doms[b1][j] != b1 && doms[b1][j] != b2 ==> !(#[trigger] doms[doms[b1][j] as int]).contains(b2)
}

/// The first candidate for the immediate dominator of `b1` in its dominator list, from
/// position `k` on.
pub open spec fn first_idom(doms: Seq<Seq<BlockId>>, b1: int, k: nat) -> Option<BlockId>
    decreases doms[b1].len() - k,
{
    if k >= doms[b1].len() {
        None
    } else if idom_cand(doms, b1, doms[b1][k as int]) {
        Some(doms[b1][k as int])
    } else {
        first_idom(doms, b1, k + 1)
    }
}

/// The blocks among `1..k` whose immediate dominator is `d`, in increasing order.
pub open spec fn tree_children(doms: Seq<Seq<BlockId>>, d: BlockId, k: nat) -> Seq<BlockId>
    decreases k,
{
    if k <= 1 {
        Seq::empty()
    } else {
        tree_children(doms, d, (k - 1) as nat) + if first_idom(doms, k - 1, 0) == Some(d) {
            seq![(k - 1) as BlockId]
        } else {
            Seq::<BlockId>::empty()
        }
    }
}

fn list_contains(v: &Vec<BlockId>, x: BlockId) -> (r: bool)
    ensures
        r == v@.contains(x),
{
    let mut i: usize = 0;
    while i < v.len()
        invariant
            i <= v@.len(),
            forall|j: int| 0 <= j < i ==> v@[j] != x,
        decreases v@.len() - i,
    {
        if v[i] == x {
            return true;
        }
        i = i + 1;
    }
    false
}

fn is_idom_cand(blocks: &Vec<BasicBlock>, b1: usize, b2: BlockId) -> (r: bool)
    requires
        b1 < blocks@.len(),
        forall|b: int, j: int|
            0 <= b < blocks@.len() && 0 <= j < blocks@[b].dom@.len() ==> #[trigger] blocks@[b].dom@[j]
                < blocks@.len(),
    ensures
        r == idom_cand(dom_lists(blocks@), b1 as int, b2),
{
    let ghost doms = dom_lists(blocks@);
    if b2 == b1 {
        return false;
    }
    let list = &blocks[b1].dom;
    assert(doms[b1 as int] == list@);
    let mut j: usize = 0;
    while j < list.len()
        invariant
            doms == dom_lists(blocks@),
            b1 < blocks@.len(),
            list@ == doms[b1 as int],
            forall|b: int, j2: int|
                0 <= b < blocks@.len() && 0 <= j2 < blocks@[b].dom@.len() ==> #[trigger] blocks@[b].dom@[j2]
                    < blocks@.len(),
            j <= list@.len(),
            forall|j2: int|
                0 <= j2 < j && doms[b1 as int][j2] != b1 && doms[b1 as int][j2] != b2 ==> !(
                #[trigger] doms[doms[b1 as int][j2] as int]).contains(b2),
        decreases list@.len() - j,
    {
        let b3 = list[j];
        assert(b3 < blocks@.len());
        if b3 != b1 && b3 != b2 && list_contains(&blocks[b3].dom, b2) {
            assert(doms[b3 as int] == blocks@[b3 as int].dom@);
            return false;
        }
        assert(doms[b3 as int] == blocks@[b3 as int].dom@);
        j = j + 1;
    }
    true
}

fn find_idom(blocks: &Vec<BasicBlock>, b1: usize) -> (r: Option<BlockId>)
    requires
        b1 < blocks@.len(),
        forall|b: int, j: int|
            0 <= b < blocks@.len() && 0 <= j < blocks@[b].dom@.len() ==> #[trigger] blocks@[b].dom@[j]
                < blocks@.len(),
    ensures
        r == first_idom(dom_lists(blocks@), b1 as int, 0),
        r matches Some(d) ==> d < blocks@.len(),
{
    let ghost doms = dom_lists(blocks@);
    let list = &blocks[b1].dom;
    assert(doms[b1 as int] == list@);
    let mut k: usize = 0;
    while k < list.len()
        invariant
            doms == dom_lists(blocks@),
            b1 < blocks@.len(),
            list@ == doms[b1 as int],
            forall|b: int, j2: int|
                0 <= b < blocks@.len() && 0 <= j2 < blocks@[b].dom@.len() ==> #[trigger] blocks@[b].dom@[j2]
                    < blocks@.len(),
            k <= list@.len(),
            first_idom(doms, b1 as int, 0) == first_idom(doms, b1 as int, k as nat),
        decreases list@.len() - k,
    {
        let b2 = list[k];
        if is_idom_cand(blocks, b1, b2) {
            return Some(b2);
        }
        k = k + 1;
    }
    None
}

impl Function {
    /// The dominator tree: for each block `d`, the blocks other than the entry whose
    /// immediate dominator is `d`, in increasing order. The immediate dominator of a block is
    /// the first, in its dominator list, of its other dominators that no third one of them is
    /// dominated by.
    pub fn compute_dominator_tree(&mut self)
        requires
            old(self).blocks@.len() > 0,
            forall|b: int, j: int|
                0 <= b < old(self).blocks@.len() && 0 <= j < old(self).blocks@[b].dom@.len()
                    ==> #[trigger] old(self).blocks@[b].dom@[j] < old(self).blocks@.len(),
        ensures
            *final(self) == (Function { domtree: final(self).domtree, ..*old(self) }),
            final(self).domtree@.len() == old(self).blocks@.len(),
            forall|d: int|
                0 <= d < old(self).blocks@.len() ==> #[trigger] final(self).domtree@[d]@
                    == tree_children(dom_lists(old(self).blocks@), d as BlockId, old(self).blocks@.len()),
    {
        let n = self.blocks.len();
        let ghost doms = dom_lists(self.blocks@);
        let mut tree: Vec<Vec<BlockId>> = Vec::new();
        let mut i: usize = 0;
        while i < n
            invariant
                i <= n,
                tree@.len() == i,
                forall|j: int| 0 <= j < i ==> #[trigger] tree@[j]@.len() == 0,
            decreases n - i,
        {
            tree.push(Vec::new());
            i = i + 1;
        }
        let mut b: usize = 1;
        proof {
            assert forall|d: int| 0 <= d < n implies #[trigger] tree@[d]@ == tree_children(
                doms,
                d as BlockId,
                1,
            ) by {
                assert(tree@[d]@ =~= Seq::<BlockId>::empty());
            }
        }
        while b < n
            invariant
                n == self.blocks@.len(),
                doms == dom_lists(self.blocks@),
                forall|b2: int, j: int|
                    0 <= b2 < self.blocks@.len() && 0 <= j < self.blocks@[b2].dom@.len()
                        ==> #[trigger] self.blocks@[b2].dom@[j] < self.blocks@.len(),
                1 <= b <= n,
                tree@.len() == n,
                forall|d: int|
                    0 <= d < n ==> #[trigger] tree@[d]@ == tree_children(doms, d as BlockId, b as nat),
            decreases n - b,
        {
            let ghost before = tree@;
            let r = find_idom(&self.blocks, b);
            if let Some(d) = r {
                tree[d].push(b);
            }
            proof {
                assert forall|d2: int| 0 <= d2 < n implies #[trigger] tree@[d2]@ == tree_children(
                    doms,
                    d2 as BlockId,
                    (b + 1) as nat,
                ) by {
                    assert(tree_children(doms, d2 as BlockId, (b + 1) as nat) == tree_children(
                        doms,
                        d2 as BlockId,
                        b as nat,
                    ) + if first_idom(doms, b as int, 0) == Some(d2 as BlockId) {
                        seq![b]
                    } else {
                        Seq::<BlockId>::empty()
                    });
                    if r == Some(d2 as BlockId) {
                        assert(tree@[d2]@ =~= before[d2]@.push(b));
                    } else {
                        assert(tree@[d2]@ =~= before[d2]@);
                    }
                }
            }
            b = b + 1;
        }
        self.domtree = tree;
    }
}

} // verus!
