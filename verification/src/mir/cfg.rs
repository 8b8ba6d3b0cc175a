//! The successor and predecessor lists of a function's control-flow graph.
use vstd::prelude::*;

use super::cfg_of;
use super::graph_wf;
use super::targets;
use super::BasicBlock;
use super::BlockId;
use super::Function;
use super::Terminator;

verus! {

/// The contents of a vector of adjacency lists.
pub open spec fn lists(v: Seq<Vec<BlockId>>) -> Seq<Seq<BlockId>> {
    v.map_values(|x: Vec<BlockId>| x@)
}

/// `x` once for each occurrence of `b` in `s`.
pub open spec fn hits(s: Seq<BlockId>, b: BlockId, x: BlockId) -> Seq<BlockId>
    decreases s.len(),
{
    if s.len() == 0 {
        Seq::empty()
    } else {
        (if s[0] == b {
            seq![x]
        } else {
            Seq::<BlockId>::empty()
        }) + hits(s.drop_first(), b, x)
    }
}

/// The predecessors of `b` among the first `k` nodes of `g`: each node, in increasing
/// order, once for every edge it has to `b`.
pub open spec fn pred_list(g: Seq<Seq<BlockId>>, b: BlockId, k: nat) -> Seq<BlockId>
    decreases k,
{
    if k == 0 {
        Seq::empty()
    } else {
        pred_list(g, b, (k - 1) as nat) + hits(g[k - 1], b, (k - 1) as BlockId)
    }
}

/// The predecessor lists of a graph on `n` nodes.
pub open spec fn preds_of(g: Seq<Seq<BlockId>>) -> Seq<Seq<BlockId>> {
    Seq::new(g.len(), |b: int| pred_list(g, b as BlockId, g.len()))
}

proof fn lemma_hits_contains(s: Seq<BlockId>, b: BlockId, x: BlockId, y: BlockId)
    ensures
        hits(s, b, x).contains(y) <==> (y == x && s.contains(b)),
    decreases s.len(),
{
    if s.len() > 0 {
        lemma_hits_contains(s.drop_first(), b, x, y);
        let h0 = if s[0] == b {
            seq![x]
        } else {
            Seq::<BlockId>::empty()
        };
        let rest = hits(s.drop_first(), b, x);
        assert(hits(s, b, x) == h0 + rest);
        if hits(s, b, x).contains(y) {
            let i = choose|i: int| 0 <= i < hits(s, b, x).len() && hits(s, b, x)[i] == y;
            if i >= h0.len() {
                assert(rest[i - h0.len()] == y);
                let j = choose|j: int| 0 <= j < s.drop_first().len() && s.drop_first()[j] == b;
                assert(s[j + 1] == b);
            } else {
                assert(s[0] == b);
            }
        }
        if y == x && s.contains(b) {
            let j = choose|j: int| 0 <= j < s.len() && s[j] == b;
            if j == 0 {
                assert((h0 + rest)[0] == y);
            } else {
                assert(s.drop_first()[j - 1] == b);
                assert(rest.contains(y));
                let i = choose|i: int| 0 <= i < rest.len() && rest[i] == y;
                assert((h0 + rest)[h0.len() + i] == y);
            }
        }
    } else {
        assert(!s.contains(b));
    }
}

/// A node is listed as a predecessor of `b` exactly when it has an edge to `b`.
pub proof fn lemma_pred_list_contains(g: Seq<Seq<BlockId>>, b: BlockId, k: nat, y: BlockId)
    requires
        k <= g.len() <= usize::MAX + 1,
    ensures
        pred_list(g, b, k).contains(y) <==> (y < k && g[y as int].contains(b)),
    decreases k,
{
    if k > 0 {
        lemma_pred_list_contains(g, b, (k - 1) as nat, y);
        lemma_hits_contains(g[k - 1], b, (k - 1) as BlockId, y);
        let p = pred_list(g, b, (k - 1) as nat);
        let h = hits(g[k - 1], b, (k - 1) as BlockId);
        if (p + h).contains(y) {
            let i = choose|i: int| 0 <= i < (p + h).len() && (p + h)[i] == y;
            if i < p.len() {
                assert(p[i] == y);
            } else {
                assert(h[i - p.len()] == y);
            }
        }
        if p.contains(y) {
            let i = choose|i: int| 0 <= i < p.len() && p[i] == y;
            assert((p + h)[i] == y);
        }
        if h.contains(y) {
            let i = choose|i: int| 0 <= i < h.len() && h[i] == y;
            assert((p + h)[p.len() + i] == y);
        }
    }
}

/// Predecessors and successors are the two sides of the same edges: `a` is a predecessor of
/// `b` exactly when `b` is a successor of `a`.
pub proof fn lemma_predecessor_successor_duality(g: Seq<Seq<BlockId>>, a: BlockId, b: BlockId)
    requires
        b < g.len() <= usize::MAX + 1,
    ensures
        preds_of(g)[b as int].contains(a) <==> (a < g.len() && g[a as int].contains(b)),
{
    lemma_pred_list_contains(g, b, g.len(), a);
}

/// How many times `x` occurs in `s`.
pub open spec fn occurrences(s: Seq<BlockId>, x: BlockId) -> nat
    decreases s.len(),
{
    if s.len() == 0 {
        0
    } else {
        (if s[0] == x {
            1nat
        } else {
            0nat
        }) + occurrences(s.drop_first(), x)
    }
}

proof fn lemma_occurrences_concat(a: Seq<BlockId>, b: Seq<BlockId>, x: BlockId)
    ensures
        occurrences(a + b, x) == occurrences(a, x) + occurrences(b, x),
    decreases a.len(),
{
    if a.len() > 0 {
        assert((a + b).drop_first() =~= a.drop_first() + b);
        assert((a + b)[0] == a[0]);
        lemma_occurrences_concat(a.drop_first(), b, x);
    } else {
        assert(a + b =~= b);
    }
}

proof fn lemma_hits_occurrences(s: Seq<BlockId>, b: BlockId, x: BlockId, y: BlockId)
    ensures
        occurrences(hits(s, b, x), y) == if y == x {
            occurrences(s, b)
        } else {
            0
        },
    decreases s.len(),
{
    if s.len() > 0 {
        lemma_hits_occurrences(s.drop_first(), b, x, y);
        let h0 = if s[0] == b {
            seq![x]
        } else {
            Seq::<BlockId>::empty()
        };
        lemma_occurrences_concat(h0, hits(s.drop_first(), b, x), y);
        reveal_with_fuel(occurrences, 2);
        assert(h0.len() > 0 ==> h0.drop_first().len() == 0);
    }
}

proof fn lemma_pred_list_counts(g: Seq<Seq<BlockId>>, b: BlockId, k: nat, a: BlockId)
    requires
        k <= g.len() <= usize::MAX + 1,
    ensures
        occurrences(pred_list(g, b, k), a) == if a < k {
            occurrences(g[a as int], b)
        } else {
            0
        },
        forall|i: int, j: int|
            0 <= i < j < pred_list(g, b, k).len() ==> pred_list(g, b, k)[i] <= pred_list(
                g,
                b,
                k,
            )[j],
        forall|i: int| 0 <= i < pred_list(g, b, k).len() ==> pred_list(g, b, k)[i] < k,
    decreases k,
{
    if k > 0 {
        let x = (k - 1) as BlockId;
        lemma_pred_list_counts(g, b, (k - 1) as nat, a);
        let p = pred_list(g, b, (k - 1) as nat);
        let h = hits(g[k - 1], b, x);
        lemma_occurrences_concat(p, h, a);
        lemma_hits_occurrences(g[k - 1], b, x, a);
        assert forall|i: int| 0 <= i < h.len() implies h[i] == x by {
            lemma_hits_contains(g[k - 1], b, x, h[i]);
            assert(h.contains(h[i]));
        }
        assert(pred_list(g, b, k) == p + h);
    }
}

/// Each edge is counted once on each side: block `a` occurs in the predecessor list of `b`
/// as many times as `b` occurs in the successor list of `a`. Each predecessor list is in
/// increasing order, and there is one for each node.
pub proof fn lemma_predecessor_counts(g: Seq<Seq<BlockId>>, a: BlockId, b: BlockId)
    requires
        a < g.len(),
        b < g.len() <= usize::MAX + 1,
    ensures
        preds_of(g).len() == g.len(),
        occurrences(preds_of(g)[b as int], a) == occurrences(g[a as int], b),
        forall|i: int, j: int|
            0 <= i < j < preds_of(g)[b as int].len() ==> preds_of(g)[b as int][i] <= preds_of(
                g,
            )[b as int][j],
{
    lemma_pred_list_counts(g, b, g.len(), a);
}

impl Function {
    /// For each block, the blocks its terminator jumps to: none for `Return` or no
    /// terminator, one for `Goto`, the two branches of `IfElse` in order.
    pub fn compute_successors(&mut self)
        ensures
            *final(self) == (Function { successors: final(self).successors, ..*old(self) }),
            lists(final(self).successors@) == cfg_of(old(self).blocks@),
    {
        let n = self.blocks.len();
        let mut succs: Vec<Vec<BlockId>> = Vec::new();
        let mut b0: usize = 0;
        while b0 < n
            invariant
                n == self.blocks@.len(),
                b0 <= n,
                succs@.len() == b0,
                forall|i: int| 0 <= i < b0 ==> #[trigger] succs@[i]@ == targets(
                    self.blocks@[i].terminator,
                ),
            decreases n - b0,
        {
            let mut v: Vec<BlockId> = Vec::new();
            match &self.blocks[b0].terminator {
                Some(Terminator::Goto(b1)) => {
                    v.push(*b1);
                },
                Some(Terminator::IfElse(_, b1, b2)) => {
                    v.push(*b1);
                    v.push(*b2);
                },
                _ => {},
            }
            assert(v@ =~= targets(self.blocks@[b0 as int].terminator));
            succs.push(v);
            b0 = b0 + 1;
        }
        assert(lists(succs@) =~= cfg_of(self.blocks@));
        self.successors = succs;
    }

    /// For each block, the blocks whose terminators jump to it, in increasing order, a block
    /// listed twice when both branches of its `IfElse` lead there.
    pub fn compute_predecessors(&mut self)
        requires
            graph_wf(cfg_of(old(self).blocks@), old(self).blocks@.len()),
        ensures
            *final(self) == (Function { predecessors: final(self).predecessors, ..*old(self) }),
            lists(final(self).predecessors@) == preds_of(cfg_of(old(self).blocks@)),
    {
        let n = self.blocks.len();
        let ghost g = cfg_of(self.blocks@);
        let mut preds: Vec<Vec<BlockId>> = Vec::new();
        let mut i: usize = 0;
        while i < n
            invariant
                i <= n,
                preds@.len() == i,
                forall|j: int| 0 <= j < i ==> #[trigger] preds@[j]@.len() == 0,
            decreases n - i,
        {
            preds.push(Vec::new());
            i = i + 1;
        }
        let mut b0: usize = 0;
        while b0 < n
            invariant
                n == self.blocks@.len(),
                g == cfg_of(self.blocks@),
                graph_wf(g, n as nat),
                b0 <= n,
                preds@.len() == n,
                forall|b: int| 0 <= b < n ==> #[trigger] preds@[b]@ == pred_list(g, b as BlockId, b0 as nat),
            decreases n - b0,
        {
            let ghost before = preds@;
            let ghost t = g[b0 as int];
            assert(t == targets(self.blocks@[b0 as int].terminator));
            reveal_with_fuel(hits, 3);
            match &self.blocks[b0].terminator {
                Some(Terminator::Goto(b1)) => {
                    assert(t[0] == *b1);
                    let b1 = *b1;
                    preds[b1].push(b0);
                },
                Some(Terminator::IfElse(_, b1, b2)) => {
                    assert(t[0] == *b1 && t[1] == *b2);
                    let b1 = *b1;
                    let b2 = *b2;
                    preds[b1].push(b0);
                    preds[b2].push(b0);
                },
                _ => {},
            }
            assert forall|b: int| 0 <= b < n implies #[trigger] preds@[b]@ == pred_list(
                g,
                b as BlockId,
                (b0 + 1) as nat,
            ) by {
                assert(pred_list(g, b as BlockId, (b0 + 1) as nat) == pred_list(
                    g,
                    b as BlockId,
                    b0 as nat,
                ) + hits(t, b as BlockId, b0));
                assert(t.len() >= 2 ==> t.drop_first()[0] == t[1]);
                assert(preds@[b]@ =~= before[b]@ + hits(t, b as BlockId, b0));
            }
            b0 = b0 + 1;
        }
        assert(lists(preds@) =~= preds_of(g));
        self.predecessors = preds;
    }
}

} // verus!
