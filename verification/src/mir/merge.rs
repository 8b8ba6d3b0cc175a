//! Merging each chain of blocks that are joined by unconditional jumps into its first block.
use vstd::prelude::*;

use super::cfg::lists;
use super::cfg_of;
use super::graph_wf;
use super::order::count_false;
use super::order::lemma_count_false_mono;
use super::BasicBlock;
use super::BlockId;
use super::Function;
use super::Stmt;
use super::Terminator;

verus! {

/// What the merge reads and writes, block by block: terminators, statements, successor and
/// predecessor lists, and which blocks a chain has already taken.
#[verifier::ext_equal]
pub struct MergeState {
    pub terms: Seq<Option<Terminator>>,
    pub stmts: Seq<Seq<Stmt>>,
    pub succs: Seq<Seq<BlockId>>,
    pub preds: Seq<Seq<BlockId>>,
    pub vis: Seq<bool>,
}

/// The terminators of the blocks.
pub open spec fn terms_of(blocks: Seq<BasicBlock>) -> Seq<Option<Terminator>> {
    blocks.map_values(|b: BasicBlock| b.terminator)
}

/// The statements of the blocks.
pub open spec fn stmts_of(blocks: Seq<BasicBlock>) -> Seq<Seq<Stmt>> {
    blocks.map_values(|b: BasicBlock| b.stmts@)
}

/// The chain that starts at `p`, and the block it ends at. The chain goes on from a block
/// while that block jumps unconditionally to a block that has exactly one predecessor and
/// that no chain has taken yet; each block it passes is taken.
pub open spec fn walk(
    terms: Seq<Option<Terminator>>,
    preds: Seq<Seq<BlockId>>,
    vis: Seq<bool>,
    p: BlockId,
) -> (Seq<BlockId>, BlockId)
    decreases count_false(vis.update(p as int, true)),
{
    if p < vis.len() && p < terms.len() {
        match terms[p as int] {
            Some(Terminator::Goto(s)) => {
                if s < vis.len() && s < preds.len() && preds[s as int].len() == 1 && !vis[s as int] {
                    if s == p {
                        (seq![p], p)
                    } else {
                        let v = vis.update(p as int, true);
                        proof {
                            assert(!v[s as int] && v.update(s as int, true)[s as int]);
                            lemma_count_false_mono(v, v.update(s as int, true));
                        }
                        let r = walk(terms, preds, v, s);
                        (seq![p] + r.0, r.1)
                    }
                } else {
                    (Seq::empty(), p)
                }
            },
            _ => (Seq::empty(), p),
        }
    } else {
        (Seq::empty(), p)
    }
}

/// The flags with each block of `c` set.
pub open spec fn mark(vis: Seq<bool>, c: Seq<BlockId>) -> Seq<bool> {
    Seq::new(vis.len(), |k: int| vis[k] || c.contains(k as BlockId))
}

/// The statements of block `x` moved to the end of those of block `f`.
pub open spec fn move_stmts(s: Seq<Seq<Stmt>>, f: BlockId, x: BlockId) -> Seq<Seq<Stmt>> {
    let taken = s.update(x as int, Seq::empty());
    taken.update(f as int, taken[f as int] + s[x as int])
}

/// The statements of the blocks of `xs`, one block after the other, moved to block `f`.
pub open spec fn gather(s: Seq<Seq<Stmt>>, f: BlockId, xs: Seq<BlockId>) -> Seq<Seq<Stmt>>
    decreases xs.len(),
{
    if xs.len() == 0 {
        s
    } else {
        move_stmts(gather(s, f, xs.drop_last()), f, xs.last())
    }
}

/// The merge of the chain that starts at block `i`, unless a chain took `i` already. The first
/// block of the chain receives the statements of the others, in order, and the terminator and
/// successors of the last; the second block loses its predecessors.
pub open spec fn merge_step(st: MergeState, i: BlockId) -> MergeState {
    if st.vis[i as int] {
        st
    } else {
        let (c, e) = walk(st.terms, st.preds, st.vis, i);
        if c.len() == 0 {
            st
        } else {
            let full = c.push(e);
            let first = full[0];
            let second = full[1];
            MergeState {
                terms: st.terms.update(e as int, None).update(first as int, st.terms[e as int]),
                stmts: gather(st.stmts, first, full.drop_first()),
                succs: st.succs.update(e as int, Seq::empty()).update(
                    first as int,
                    st.succs[e as int],
                ),
                preds: st.preds.update(second as int, Seq::empty()),
                vis: mark(st.vis, full),
            }
        }
    }
}

/// The merges of the chains that start at blocks `0` to `k - 1`, in that order.
pub open spec fn merge_upto(st: MergeState, k: nat) -> MergeState
    decreases k,
{
    if k == 0 {
        st
    } else {
        merge_step(merge_upto(st, (k - 1) as nat), (k - 1) as BlockId)
    }
}

/// The state of a function before the merge.
pub open spec fn merge_start(f: Function) -> MergeState {
    MergeState {
        terms: terms_of(f.blocks@),
        stmts: stmts_of(f.blocks@),
        succs: lists(f.successors@),
        preds: lists(f.predecessors@),
        vis: Seq::new(f.blocks@.len(), |k: int| false),
    }
}

/// The state of a function after the merge.
pub open spec fn merged(f: Function) -> MergeState {
    merge_upto(merge_start(f), f.blocks@.len())
}

/// The number of statements in all blocks.
pub open spec fn total(s: Seq<Seq<Stmt>>) -> nat
    decreases s.len(),
{
    if s.len() == 0 {
        0
    } else {
        total(s.drop_last()) + s.last().len()
    }
}

proof fn lemma_total_update(s: Seq<Seq<Stmt>>, i: int, v: Seq<Stmt>)
    requires
        0 <= i < s.len(),
    ensures
        total(s.update(i, v)) + s[i].len() == total(s) + v.len(),
    decreases s.len(),
{
    if i == s.len() - 1 {
        assert(s.update(i, v).drop_last() =~= s.drop_last());
    } else {
        lemma_total_update(s.drop_last(), i, v);
        assert(s.update(i, v).drop_last() =~= s.drop_last().update(i, v));
    }
}

proof fn lemma_gather_total(s: Seq<Seq<Stmt>>, f: BlockId, xs: Seq<BlockId>)
    requires
        f < s.len(),
        forall|k: int| 0 <= k < xs.len() ==> #[trigger] xs[k] < s.len(),
    ensures
        gather(s, f, xs).len() == s.len(),
        total(gather(s, f, xs)) == total(s),
    decreases xs.len(),
{
    if xs.len() > 0 {
        lemma_gather_total(s, f, xs.drop_last());
        let g = gather(s, f, xs.drop_last());
        let x = xs.last();
        let taken = g.update(x as int, Seq::empty());
        lemma_total_update(g, x as int, Seq::empty());
        lemma_total_update(taken, f as int, taken[f as int] + g[x as int]);
    }
}

proof fn lemma_walk_range(
    terms: Seq<Option<Terminator>>,
    preds: Seq<Seq<BlockId>>,
    vis: Seq<bool>,
    p: BlockId,
)
    requires
        p < vis.len(),
        vis.len() == terms.len(),
    ensures
        forall|k: int|
            0 <= k < walk(terms, preds, vis, p).0.len() ==> #[trigger] walk(
                terms,
                preds,
                vis,
                p,
            ).0[k] < vis.len(),
        walk(terms, preds, vis, p).1 < vis.len(),
    decreases count_false(vis.update(p as int, true)),
{
    match terms[p as int] {
        Some(Terminator::Goto(s)) => {
            if s < vis.len() && s < preds.len() && preds[s as int].len() == 1 && !vis[s as int]
                && s != p {
                let v = vis.update(p as int, true);
                assert(!v[s as int] && v.update(s as int, true)[s as int]);
                lemma_count_false_mono(v, v.update(s as int, true));
                lemma_walk_range(terms, preds, v, s);
                let r = walk(terms, preds, v, s);
                assert(walk(terms, preds, vis, p).0 == seq![p] + r.0);
            }
        },
        _ => {},
    }
}

/// The blocks of a merge state agree in number.
pub open spec fn state_wf(st: MergeState, n: nat) -> bool {
    st.terms.len() == n && st.stmts.len() == n && st.vis.len() == n
}

proof fn lemma_merge_upto_total(st: MergeState, n: nat, k: nat)
    requires
        state_wf(st, n),
        k <= n,
    ensures
        state_wf(merge_upto(st, k), n),
        total(merge_upto(st, k).stmts) == total(st.stmts),
    decreases k,
{
    if k > 0 {
        lemma_merge_upto_total(st, n, (k - 1) as nat);
        let s0 = merge_upto(st, (k - 1) as nat);
        let i = (k - 1) as BlockId;
        if !s0.vis[i as int] {
            lemma_walk_range(s0.terms, s0.preds, s0.vis, i);
            let (c, e) = walk(s0.terms, s0.preds, s0.vis, i);
            if c.len() > 0 {
                let full = c.push(e);
                assert forall|j: int| 0 <= j < full.len() implies #[trigger] full[j] < n by {
                    if j < c.len() {
                        assert(full[j] == c[j]);
                    }
                }
                let xs = full.drop_first();
                assert forall|j: int| 0 <= j < xs.len() implies #[trigger] xs[j] < n by {
                    assert(xs[j] == full[j + 1]);
                }
                lemma_gather_total(s0.stmts, full[0], xs);
            }
        }
    }
}

/// Merging moves statements from block to block and drops none: after the merge the
/// blocks hold as many statements as before.
pub proof fn lemma_merge_keeps_statements(f: Function)
    ensures
        total(merged(f).stmts) == total(stmts_of(f.blocks@)),
{
    lemma_merge_upto_total(merge_start(f), f.blocks@.len(), f.blocks@.len());
}

/// The statements of the blocks of `xs`, one block after the other.
pub open spec fn concat_of(s: Seq<Seq<Stmt>>, xs: Seq<BlockId>) -> Seq<Stmt>
    decreases xs.len(),
{
    if xs.len() == 0 {
        Seq::empty()
    } else {
        concat_of(s, xs.drop_last()) + s[xs.last() as int]
    }
}

/// Gathering distinct blocks into another block appends their statements to that block's
/// own, in the order of `xs`, and empties them; every other block keeps its statements.
pub proof fn lemma_gather_order(s: Seq<Seq<Stmt>>, f: BlockId, xs: Seq<BlockId>)
    requires
        f < s.len(),
        forall|k: int| 0 <= k < xs.len() ==> #[trigger] xs[k] < s.len(),
        xs.no_duplicates(),
        !xs.contains(f),
    ensures
        gather(s, f, xs).len() == s.len(),
        gather(s, f, xs)[f as int] == s[f as int] + concat_of(s, xs),
        forall|k: int| 0 <= k < xs.len() ==> gather(s, f, xs)[#[trigger] xs[k] as int]
            == Seq::<Stmt>::empty(),
        forall|j: int|
            0 <= j < s.len() && j != f && !xs.contains(j as BlockId) ==> #[trigger] gather(
                s,
                f,
                xs,
            )[j] == s[j],
    decreases xs.len(),
{
    if xs.len() > 0 {
        let d = xs.drop_last();
        let x = xs.last();
        assert forall|k: int| 0 <= k < d.len() implies #[trigger] d[k] < s.len() by {
            assert(d[k] == xs[k]);
        }
        assert(d.no_duplicates()) by {
            assert forall|a: int, b: int| 0 <= a < d.len() && 0 <= b < d.len() && a != b implies d[a]
                != d[b] by {
                assert(d[a] == xs[a] && d[b] == xs[b]);
            }
        }
        assert(!d.contains(f)) by {
            if d.contains(f) {
                let k = choose|k: int| 0 <= k < d.len() && d[k] == f;
                assert(xs[k] == f);
            }
        }
        assert(!d.contains(x)) by {
            if d.contains(x) {
                let k = choose|k: int| 0 <= k < d.len() && d[k] == x;
                assert(xs[k] == x && xs[xs.len() - 1] == x);
            }
        }
        assert(x != f) by {
            assert(xs[xs.len() - 1] == x);
        }
        lemma_gather_order(s, f, d);
        let g = gather(s, f, d);
        assert(g[x as int] == s[x as int]);
        assert(gather(s, f, xs) == move_stmts(g, f, x));
        assert(gather(s, f, xs)[f as int] =~= s[f as int] + concat_of(s, xs));
        assert forall|k: int| 0 <= k < xs.len() implies gather(s, f, xs)[#[trigger] xs[k] as int]
            == Seq::<Stmt>::empty() by {
            if k < d.len() {
                assert(xs[k] == d[k]);
                assert(xs[k] != x);
                assert(xs[k] != f);
            }
        }
        assert forall|j: int|
            0 <= j < s.len() && j != f && !xs.contains(j as BlockId) implies #[trigger] gather(
                s,
                f,
                xs,
            )[j] == s[j] by {
            if d.contains(j as BlockId) {
                let k = choose|k: int| 0 <= k < d.len() && d[k] == j as BlockId;
                assert(xs[k] == j as BlockId);
            }
            assert(xs[xs.len() - 1] == x);
        }
    }
}

/// The chain that the merge step at block `i` takes: the blocks of the walk from `i`, then
/// the block it ends at.
pub open spec fn chain_of(st: MergeState, i: BlockId) -> Seq<BlockId> {
    walk(st.terms, st.preds, st.vis, i).0.push(walk(st.terms, st.preds, st.vis, i).1)
}

/// Block `a` jumps unconditionally to block `b`, which has exactly one predecessor and is
/// not taken.
pub open spec fn link_ok(
    terms: Seq<Option<Terminator>>,
    preds: Seq<Seq<BlockId>>,
    vis: Seq<bool>,
    a: BlockId,
    b: BlockId,
) -> bool {
    terms[a as int] == Some(Terminator::Goto(b)) && b < preds.len() && preds[b as int].len() == 1
        && !vis[b as int]
}

proof fn lemma_walk_links(
    terms: Seq<Option<Terminator>>,
    preds: Seq<Seq<BlockId>>,
    vis: Seq<bool>,
    p: BlockId,
)
    requires
        p < vis.len(),
        vis.len() == terms.len(),
    ensures
        walk(terms, preds, vis, p).0.len() > 0 ==> walk(terms, preds, vis, p).0[0] == p,
        walk(terms, preds, vis, p).0.len() == 0 ==> walk(terms, preds, vis, p).1 == p,
        forall|k: int|
            0 <= k < walk(terms, preds, vis, p).0.len() ==> link_ok(
                terms,
                preds,
                vis,
                #[trigger] walk(terms, preds, vis, p).0.push(walk(terms, preds, vis, p).1)[k],
                walk(terms, preds, vis, p).0.push(walk(terms, preds, vis, p).1)[k + 1],
            ),
    decreases count_false(vis.update(p as int, true)),
{
    let w = walk(terms, preds, vis, p);
    let full = w.0.push(w.1);
    match terms[p as int] {
        Some(Terminator::Goto(s)) => {
            if s < vis.len() && s < preds.len() && preds[s as int].len() == 1 && !vis[s as int] {
                if s == p {
                    assert(w == (seq![p], p));
                    assert(full[0] == p && full[1] == p);
                    assert(link_ok(terms, preds, vis, full[0], full[1]));
                } else {
                    let v = vis.update(p as int, true);
                    assert(!v[s as int] && v.update(s as int, true)[s as int]);
                    lemma_count_false_mono(v, v.update(s as int, true));
                    lemma_walk_links(terms, preds, v, s);
                    lemma_walk_range(terms, preds, v, s);
                    let r = walk(terms, preds, v, s);
                    let rf = r.0.push(r.1);
                    assert(w == (seq![p] + r.0, r.1));
                    assert(rf[0] == s);
                    assert forall|k: int| 0 <= k < w.0.len() implies link_ok(
                        terms,
                        preds,
                        vis,
                        #[trigger] full[k],
                        full[k + 1],
                    ) by {
                        if k > 0 {
                            assert(full[k] == rf[k - 1]);
                            assert(full[k + 1] == rf[k]);
                            assert(link_ok(terms, preds, v, rf[k - 1], rf[k]));
                            if k < r.0.len() {
                                assert(rf[k] == r.0[k]);
                            }
                            assert(rf[k] < vis.len());
                        } else {
                            assert(full[0] == p);
                            assert(full[1] == rf[0]);
                        }
                    }
                }
            }
        },
        _ => {},
    }
}

/// Each block of a chain but the last ends in an unconditional jump to the next block of
/// the chain, which has exactly one predecessor and which no earlier chain had taken.
pub proof fn lemma_chain_links(st: MergeState, n: nat, i: BlockId)
    requires
        state_wf(st, n),
        i < n,
        !st.vis[i as int],
    ensures
        chain_of(st, i)[0] == i,
        forall|k: int|
            0 <= k < chain_of(st, i).len() - 1 ==> link_ok(
                st.terms,
                st.preds,
                st.vis,
                #[trigger] chain_of(st, i)[k],
                chain_of(st, i)[k + 1],
            ),
{
    lemma_walk_links(st.terms, st.preds, st.vis, i);
    let w = walk(st.terms, st.preds, st.vis, i);
    assert(chain_of(st, i) == w.0.push(w.1));
    if w.0.len() > 0 {
        assert(chain_of(st, i)[0] == w.0[0]);
    }
}

/// A merge step keeps the execution order of the statements along its chain: the chain
/// starts at `i`, and afterwards block `i` holds its own statements followed by those of
/// the other blocks of the chain, in chain order; those blocks are left empty, and every
/// block outside the chain keeps its statements. Block `i` ends as the last block of the
/// chain ended, and the last block loses its terminator. (A chain that comes back to a block
/// it has passed, as one from a block that jumps to itself, is left out.)
pub proof fn lemma_merge_step_order(st: MergeState, n: nat, i: BlockId)
    requires
        state_wf(st, n),
        i < n,
        !st.vis[i as int],
        walk(st.terms, st.preds, st.vis, i).0.len() > 0,
        chain_of(st, i).no_duplicates(),
    ensures
        chain_of(st, i)[0] == i,
        merge_step(st, i).stmts.len() == n,
        merge_step(st, i).stmts[i as int] == st.stmts[i as int] + concat_of(
            st.stmts,
            chain_of(st, i).drop_first(),
        ),
        forall|k: int|
            1 <= k < chain_of(st, i).len() ==> merge_step(st, i).stmts[#[trigger] chain_of(
                st,
                i,
            )[k] as int] == Seq::<Stmt>::empty(),
        forall|j: int|
            0 <= j < n && !chain_of(st, i).contains(j as BlockId) ==> #[trigger] merge_step(
                st,
                i,
            ).stmts[j] == st.stmts[j],
        merge_step(st, i).terms[i as int] == st.terms[chain_of(st, i).last() as int],
        merge_step(st, i).terms[chain_of(st, i).last() as int] == None::<Terminator>,
        forall|j: int|
            0 <= j < n && !chain_of(st, i).contains(j as BlockId) ==> #[trigger] merge_step(
                st,
                i,
            ).terms[j] == st.terms[j],
{
    let (c, e) = walk(st.terms, st.preds, st.vis, i);
    let full = c.push(e);
    assert(full == chain_of(st, i));
    lemma_walk_range(st.terms, st.preds, st.vis, i);
    match st.terms[i as int] {
        Some(Terminator::Goto(s)) => {
            if s < st.vis.len() && s < st.preds.len() && st.preds[s as int].len() == 1
                && !st.vis[s as int] && s != i {
                let v = st.vis.update(i as int, true);
                let r = walk(st.terms, st.preds, v, s);
                assert(c == seq![i] + r.0);
            }
        },
        _ => {},
    }
    assert(full[0] == c[0]);
    assert(c[0] == i);
    let xs = full.drop_first();
    assert forall|k: int| 0 <= k < full.len() implies #[trigger] full[k] < n by {
        if k < c.len() {
            assert(full[k] == c[k]);
        }
    }
    assert forall|k: int| 0 <= k < xs.len() implies #[trigger] xs[k] < st.stmts.len() by {
        assert(xs[k] == full[k + 1]);
    }
    assert(xs.no_duplicates()) by {
        assert forall|a: int, b: int| 0 <= a < xs.len() && 0 <= b < xs.len() && a != b implies xs[a]
            != xs[b] by {
            assert(xs[a] == full[a + 1] && xs[b] == full[b + 1]);
        }
    }
    assert(!xs.contains(i)) by {
        if xs.contains(i) {
            let k = choose|k: int| 0 <= k < xs.len() && xs[k] == i;
            assert(full[k + 1] == i && full[0] == i);
        }
    }
    lemma_gather_order(st.stmts, i, xs);
    assert forall|k: int|
        1 <= k < full.len() implies merge_step(st, i).stmts[#[trigger] full[k] as int]
        == Seq::<Stmt>::empty() by {
        assert(xs[k - 1] == full[k]);
    }
    assert forall|j: int|
        0 <= j < n && !full.contains(j as BlockId) implies #[trigger] merge_step(st, i).stmts[j]
        == st.stmts[j] by {
        if xs.contains(j as BlockId) {
            let k = choose|k: int| 0 <= k < xs.len() && xs[k] == j as BlockId;
            assert(full[k + 1] == j as BlockId);
        }
        assert(full[0] == i);
    }
    assert(full.last() == e);
    assert(e != i) by {
        assert(full[full.len() - 1] == e && full[0] == i);
    }
}

/// The state of the blocks, lists and flags of a merge in progress.
pub open spec fn state_of(
    blocks: Seq<BasicBlock>,
    succs: Seq<Vec<BlockId>>,
    preds: Seq<Vec<BlockId>>,
    vis: Seq<bool>,
) -> MergeState {
    MergeState {
        terms: terms_of(blocks),
        stmts: stmts_of(blocks),
        succs: lists(succs),
        preds: lists(preds),
        vis,
    }
}

/// The blocks differ from `old` at most in their terminators and statements.
pub open spec fn same_but_body(blocks: Seq<BasicBlock>, old: Seq<BasicBlock>) -> bool {
    &&& blocks.len() == old.len()
    &&& forall|k: int|
        0 <= k < old.len() ==> #[trigger] blocks[k] == (BasicBlock {
            terminator: blocks[k].terminator,
            stmts: blocks[k].stmts,
            ..old[k]
        })
}

impl Function {
    /// Follows the chain from block `i`, marking the blocks it takes, and returns them and
    /// the block it ends at.
    fn follow_chain(&self, visited: &mut Vec<bool>, i: BlockId) -> (r: (Vec<BlockId>, BlockId))
        requires
            graph_wf(cfg_of(self.blocks@), self.blocks@.len()),
            self.predecessors@.len() >= self.blocks@.len(),
            old(visited)@.len() == self.blocks@.len(),
            i < self.blocks@.len(),
            !old(visited)@[i as int],
        ensures
            walk(terms_of(self.blocks@), lists(self.predecessors@), old(visited)@, i) == (
            r.0@,
            r.1,
            ),
            final(visited)@ == mark(old(visited)@, r.0@),
            r.1 < self.blocks@.len(),
            forall|k: int| 0 <= k < r.0@.len() ==> #[trigger] r.0@[k] < self.blocks@.len(),
    {
        let n = self.blocks.len();
        let ghost terms = terms_of(self.blocks@);
        let ghost preds = lists(self.predecessors@);
        let ghost v0 = visited@;
        let mut chain: Vec<BlockId> = Vec::new();
        let mut pred: BlockId = i;
        proof {
            assert(chain@ + walk(terms, preds, visited@, pred).0 =~= walk(terms, preds, v0, i).0);
            assert(mark(v0, chain@) =~= v0);
        }
        loop
            invariant
                n == self.blocks@.len(),
                terms == terms_of(self.blocks@),
                preds == lists(self.predecessors@),
                graph_wf(cfg_of(self.blocks@), n as nat),
                self.predecessors@.len() >= n,
                visited@.len() == n,
                v0.len() == n,
                pred < n,
                walk(terms, preds, v0, i) == (
                chain@ + walk(terms, preds, visited@, pred).0,
                walk(terms, preds, visited@, pred).1,
                ),
                visited@ == mark(v0, chain@),
                visited@[pred as int] ==> terms[pred as int] == Some(Terminator::Goto(pred)),
                forall|k: int| 0 <= k < chain@.len() ==> #[trigger] chain@[k] < n,
            ensures
                walk(terms, preds, visited@, pred) == (Seq::<BlockId>::empty(), pred),
            decreases count_false(visited@),
        {
            let next: Option<BlockId> = match &self.blocks[pred].terminator {
                Some(Terminator::Goto(s)) => Some(*s),
                _ => None,
            };
            proof {
                assert(terms[pred as int] == self.blocks@[pred as int].terminator);
            }
            match next {
                Some(succ) => {
                    proof {
                        assert(cfg_of(self.blocks@)[pred as int][0] == succ);
                        assert(preds[succ as int] == self.predecessors@[succ as int]@);
                    }
                    if self.predecessors[succ].len() == 1 && !visited[succ] {
                        let ghost vb = visited@;
                        let ghost cb = chain@;
                        let ghost p0 = pred;
                        let ghost w = walk(terms, preds, vb, p0);
                        chain.push(pred);
                        visited.set(pred, true);
                        pred = succ;
                        proof {
                            let v1 = visited@;
                            assert(v1 =~= vb.update(p0 as int, true));
                            let w2 = walk(terms, preds, v1, succ);
                            if succ == p0 {
                                assert(w2 == (Seq::<BlockId>::empty(), p0));
                                assert(w == (seq![p0], p0));
                            } else {
                                assert(w == (seq![p0] + w2.0, w2.1));
                            }
                            assert(cb.push(p0) + w2.0 =~= cb + w.0);
                            assert forall|k: int| 0 <= k < n implies #[trigger] mark(v0, chain@)[k]
                                == mark(v0, cb).update(p0 as int, true)[k] by {
                                if cb.contains(k as BlockId) {
                                    let j = choose|j: int| 0 <= j < cb.len() && cb[j] == k as BlockId;
                                    assert(chain@[j] == k as BlockId);
                                }
                                if chain@.contains(k as BlockId) && k != p0 {
                                    let j = choose|j: int| 0 <= j < chain@.len() && chain@[j] == k as BlockId;
                                    assert(cb[j] == k as BlockId);
                                }
                                assert(chain@[cb.len() as int] == p0);
                            }
                            assert(mark(v0, chain@) =~= mark(v0, cb).update(p0 as int, true));
                            assert(!vb[p0 as int] && v1[p0 as int]);
                            lemma_count_false_mono(vb, v1);
                        }
                    } else {
                        break;
                    }
                },
                None => {
                    break;
                },
            }
        }
        (chain, pred)
    }

    /// Merges the chain `full` into its first block: the first block receives the statements
    /// of the others, in order, and the terminator and successors of the last; the second
    /// block loses its predecessors.
    fn merge_chain(&mut self, full: &Vec<BlockId>)
        requires
            full@.len() >= 2,
            forall|k: int| 0 <= k < full@.len() ==> #[trigger] full@[k] < old(self).blocks@.len(),
            graph_wf(cfg_of(old(self).blocks@), old(self).blocks@.len()),
            old(self).successors@.len() >= old(self).blocks@.len(),
            old(self).predecessors@.len() >= old(self).blocks@.len(),
        ensures
            *final(self) == (Function {
                blocks: final(self).blocks,
                successors: final(self).successors,
                predecessors: final(self).predecessors,
                ..*old(self)
            }),
            same_but_body(final(self).blocks@, old(self).blocks@),
            graph_wf(cfg_of(final(self).blocks@), final(self).blocks@.len()),
            final(self).successors@.len() == old(self).successors@.len(),
            final(self).predecessors@.len() == old(self).predecessors@.len(),
            terms_of(final(self).blocks@) == terms_of(old(self).blocks@).update(
                full@.last() as int,
                None,
            ).update(full@[0] as int, terms_of(old(self).blocks@)[full@.last() as int]),
            stmts_of(final(self).blocks@) == gather(
                stmts_of(old(self).blocks@),
                full@[0],
                full@.drop_first(),
            ),
            lists(final(self).successors@) == lists(old(self).successors@).update(
                full@.last() as int,
                Seq::empty(),
            ).update(full@[0] as int, lists(old(self).successors@)[full@.last() as int]),
            lists(final(self).predecessors@) == lists(old(self).predecessors@).update(
                full@[1] as int,
                Seq::empty(),
            ),
    {
        let n = self.blocks.len();
        let first = full[0];
        let second = full[1];
        let last = full[full.len() - 1];
        let ghost terms0 = terms_of(self.blocks@);
        let ghost stmts0 = stmts_of(self.blocks@);
        let ghost succs0 = lists(self.successors@);
        let ghost preds0 = lists(self.predecessors@);
        let ghost g0 = cfg_of(self.blocks@);
        let mut sv: Vec<BlockId> = Vec::new();
        std::mem::swap(&mut sv, &mut self.successors[last]);
        self.successors.set(first, sv);
        let mut t: Option<Terminator> = None;
        std::mem::swap(&mut t, &mut self.blocks[last].terminator);
        self.blocks[first].terminator = t;
        self.predecessors.set(second, Vec::new());
        proof {
            assert(lists(self.successors@) =~= succs0.update(last as int, Seq::empty()).update(
                first as int,
                succs0[last as int],
            ));
            assert(lists(self.predecessors@) =~= preds0.update(second as int, Seq::empty()));
            assert(terms_of(self.blocks@) =~= terms0.update(last as int, None).update(
                first as int,
                terms0[last as int],
            ));
            assert(stmts_of(self.blocks@) =~= stmts0);
            assert(stmts0 =~= gather(stmts0, first, full@.subrange(1, 1)));
            assert forall|b: int, k: int|
                0 <= b < cfg_of(self.blocks@).len() && 0 <= k < cfg_of(
                    self.blocks@,
                )[b].len() implies #[trigger] cfg_of(self.blocks@)[b][k] < n by {
                if b == first {
                    assert(cfg_of(self.blocks@)[b] == g0[last as int]);
                } else if b != last {
                    assert(cfg_of(self.blocks@)[b] == g0[b]);
                }
            }
        }
        let ghost f1 = *self;
        let ghost terms1 = terms_of(self.blocks@);
        let mut j: usize = 1;
        while j < full.len()
            invariant
                1 <= j <= full@.len(),
                full@.len() >= 2,
                n == self.blocks@.len(),
                forall|k: int| 0 <= k < full@.len() ==> #[trigger] full@[k] < n,
                first == full@[0],
                *self == (Function { blocks: self.blocks, ..f1 }),
                same_but_body(self.blocks@, f1.blocks@),
                terms_of(self.blocks@) == terms1,
                graph_wf(cfg_of(self.blocks@), n as nat),
                stmts_of(self.blocks@) == gather(stmts0, first, full@.subrange(1, j as int)),
            decreases full@.len() - j,
        {
            let x = full[j];
            let ghost b0 = self.blocks@;
            let mut ss: Vec<Stmt> = Vec::new();
            std::mem::swap(&mut ss, &mut self.blocks[x].stmts);
            self.blocks[first].stmts.append(&mut ss);
            j = j + 1;
            proof {
                let xs = full@.subrange(1, j as int);
                assert(xs.drop_last() =~= full@.subrange(1, j - 1));
                assert(stmts_of(self.blocks@) =~= move_stmts(stmts_of(b0), first, x));
                assert(terms_of(self.blocks@) =~= terms_of(b0));
                assert(cfg_of(self.blocks@) =~= cfg_of(b0));
            }
        }
        proof {
            assert(full@.subrange(1, full@.len() as int) =~= full@.drop_first());
        }
    }

    /// Merges each chain of blocks joined by unconditional jumps into the chain's first
    /// block. Block by block, in order, a block that no chain has taken yet starts a chain,
    /// which goes on while its current block ends in a jump to a block that has exactly one
    /// predecessor and that no chain has taken. The first block of a chain of two or more
    /// receives the statements of the others, in order, and the terminator and successors of
    /// the last, whose own are cleared; the second block's predecessors are cleared. The
    /// merged blocks stay in place, with no statements; other fields do not change.
    pub fn merge_blocks(&mut self)
        requires
            graph_wf(cfg_of(old(self).blocks@), old(self).blocks@.len()),
            old(self).successors@.len() >= old(self).blocks@.len(),
            old(self).predecessors@.len() >= old(self).blocks@.len(),
        ensures
            *final(self) == (Function {
                blocks: final(self).blocks,
                successors: final(self).successors,
                predecessors: final(self).predecessors,
                ..*old(self)
            }),
            same_but_body(final(self).blocks@, old(self).blocks@),
            terms_of(final(self).blocks@) == merged(*old(self)).terms,
            stmts_of(final(self).blocks@) == merged(*old(self)).stmts,
            lists(final(self).successors@) == merged(*old(self)).succs,
            lists(final(self).predecessors@) == merged(*old(self)).preds,
    {
        let n = self.blocks.len();
        let ghost st0 = merge_start(*self);
        let mut visited: Vec<bool> = Vec::new();
        let mut i: usize = 0;
        while i < n
            invariant
                i <= n,
                n == self.blocks@.len(),
                visited@.len() == i,
                forall|j: int| 0 <= j < i ==> !#[trigger] visited@[j],
            decreases n - i,
        {
            visited.push(false);
            i = i + 1;
        }
        proof {
            assert(state_of(self.blocks@, self.successors@, self.predecessors@, visited@) =~= st0);
            assert(merge_upto(st0, 0) == st0);
        }
        let mut i: usize = 0;
        while i < n
            invariant
                i <= n,
                n == self.blocks@.len(),
                n == old(self).blocks@.len(),
                st0 == merge_start(*old(self)),
                *self == (Function {
                    blocks: self.blocks,
                    successors: self.successors,
                    predecessors: self.predecessors,
                    ..*old(self)
                }),
                same_but_body(self.blocks@, old(self).blocks@),
                graph_wf(cfg_of(self.blocks@), n as nat),
                self.successors@.len() == old(self).successors@.len(),
                self.predecessors@.len() == old(self).predecessors@.len(),
                self.successors@.len() >= n,
                self.predecessors@.len() >= n,
                visited@.len() == n,
                state_of(self.blocks@, self.successors@, self.predecessors@, visited@)
                    == merge_upto(st0, i as nat),
            decreases n - i,
        {
            let ghost st = state_of(self.blocks@, self.successors@, self.predecessors@, visited@);
            if !visited[i] {
                let (mut chain, last) = self.follow_chain(&mut visited, i);
                if chain.len() > 0 {
                    let ghost c = chain@;
                    chain.push(last);
                    visited.set(last, true);
                    self.merge_chain(&chain);
                    proof {
                        assert(chain@ == c.push(last));
                        assert forall|k: int| 0 <= k < n implies #[trigger] visited@[k] == mark(
                            st.vis,
                            chain@,
                        )[k] by {
                            if c.contains(k as BlockId) {
                                let j = choose|j: int| 0 <= j < c.len() && c[j] == k as BlockId;
                                assert(chain@[j] == k as BlockId);
                            }
                            if chain@.contains(k as BlockId) && k != last {
                                let j = choose|j: int|
                                    0 <= j < chain@.len() && chain@[j] == k as BlockId;
                                assert(c[j] == k as BlockId);
                            }
                            assert(chain@[c.len() as int] == last);
                        }
                        assert(state_of(self.blocks@, self.successors@, self.predecessors@, visited@)
                            =~= merge_step(st, i));
                    }
                } else {
                    proof {
                        assert(visited@ =~= st.vis);
                    }
                }
            }
            proof {
                assert(merge_upto(st0, (i + 1) as nat) == merge_step(merge_upto(st0, i as nat), i));
            }
            i = i + 1;
        }
    }

    /// The function with its chains of blocks merged.
    pub fn with_merge_blocks(self) -> (f: Self)
        requires
            graph_wf(cfg_of(self.blocks@), self.blocks@.len()),
            self.successors@.len() >= self.blocks@.len(),
            self.predecessors@.len() >= self.blocks@.len(),
        ensures
            f == (Function {
                blocks: f.blocks,
                successors: f.successors,
                predecessors: f.predecessors,
                ..self
            }),
            same_but_body(f.blocks@, self.blocks@),
            terms_of(f.blocks@) == merged(self).terms,
            stmts_of(f.blocks@) == merged(self).stmts,
            lists(f.successors@) == merged(self).succs,
            lists(f.predecessors@) == merged(self).preds,
    {
        let mut f = self;
        f.merge_blocks();
        f
    }
}

} // verus!
