//! Removing the blocks that control never reaches from the entry.
use vstd::prelude::*;

use super::blocks_wf;
use super::cfg_of;
use super::dominators::count_true;
use super::order::closed;
use super::order::count_false;
use super::order::lemma_count_false_mono;
use super::order::lemma_reachable_entry;
use super::order::marked;
use super::order::reachable;
use super::order::lemma_reachable_step;
use super::targets;
use super::BasicBlock;
use super::BlockId;
use super::Function;
use super::Terminator;

verus! {

/// The number of set flags before position `t`: the new position of block `t` when only the
/// flagged blocks are kept.
pub open spec fn rank(bits: Seq<bool>, t: int) -> nat {
    count_true(bits.take(t))
}

/// A terminator with its targets renumbered by `rank`.
pub open spec fn remap(t: Option<Terminator>, bits: Seq<bool>) -> Option<Terminator> {
    match t {
        Some(Terminator::Goto(b)) => Some(Terminator::Goto(rank(bits, b as int) as BlockId)),
        Some(Terminator::IfElse(op, b0, b1)) => Some(
            Terminator::IfElse(op, rank(bits, b0 as int) as BlockId, rank(bits, b1 as int) as BlockId),
        ),
        other => other,
    }
}

/// The flags of the blocks reachable from the entry.
pub open spec fn reachable_bits(blocks: Seq<BasicBlock>) -> Seq<bool> {
    Seq::new(blocks.len(), |i: int| reachable(cfg_of(blocks), i as BlockId))
}

impl Function {
    /// Marks the blocks reachable from `b` through terminators, stopping at marked ones.
    fn mark_reachable(&self, visited: &mut Vec<bool>, b: BlockId, Ghost(fuel): Ghost<nat>)
        requires
            blocks_wf(self.blocks@),
            old(visited)@.len() == self.blocks@.len(),
            b < self.blocks@.len(),
            count_false(old(visited)@) <= fuel,
            reachable(cfg_of(self.blocks@), b),
        ensures
            final(visited)@.len() == old(visited)@.len(),
            forall|i: int| 0 <= i < old(visited)@.len() && old(visited)@[i] ==> final(visited)@[i],
            final(visited)@[b as int],
            forall|x: BlockId, k: int|
                x < final(visited)@.len() && final(visited)@[x as int] && !old(visited)@[x as int]
                    && 0 <= k < cfg_of(self.blocks@)[x as int].len() ==> final(visited)@[
                    #[trigger] cfg_of(self.blocks@)[x as int][k] as int],
            forall|x: BlockId|
                x < final(visited)@.len() && final(visited)@[x as int] && !old(visited)@[x as int]
                    ==> reachable(cfg_of(self.blocks@), x),
        decreases fuel,
    {
        if visited[b] {
            return;
        }
        let ghost g = cfg_of(self.blocks@);
        let ghost v0 = visited@;
        visited.set(b, true);
        let ghost v1 = visited@;
        proof {
            assert(!v0[b as int] && v1[b as int]);
            lemma_count_false_mono(v0, v1);
            assert(g[b as int] == targets(self.blocks@[b as int].terminator));
        }
        match &self.blocks[b].terminator {
            Some(Terminator::Goto(t)) => {
                let t = *t;
                proof {
                    assert(g[b as int][0] == t);
                    super::order::lemma_reachable_step(g, b, 0);
                }
                self.mark_reachable(visited, t, Ghost((fuel - 1) as nat));
            },
            Some(Terminator::IfElse(_, t0, t1)) => {
                let t0 = *t0;
                let t1 = *t1;
                proof {
                    assert(g[b as int][0] == t0 && g[b as int][1] == t1);
                    super::order::lemma_reachable_step(g, b, 0);
                    super::order::lemma_reachable_step(g, b, 1);
                }
                self.mark_reachable(visited, t0, Ghost((fuel - 1) as nat));
                let ghost v2 = visited@;
                proof {
                    lemma_count_false_mono(v1, v2);
                }
                self.mark_reachable(visited, t1, Ghost((fuel - 1) as nat));
                proof {
                    assert forall|x: BlockId, k: int|
                        x < visited@.len() && visited@[x as int] && !v0[x as int] && 0 <= k
                            < g[x as int].len() implies visited@[#[trigger] g[x as int][k] as int] by {
                        if x != b && v2[x as int] && !v1[x as int] {
                            assert(v2[g[x as int][k] as int]);
                        }
                    }
                }
            },
            _ => {},
        }
    }

    /// Drops the blocks that cannot be reached from the entry and renumbers the others in
    /// order, together with the targets of their terminators. The successor and predecessor
    /// lists are cleared, as they no longer fit the blocks.
    pub fn remove_unreachable(&mut self)
        requires
            old(self).blocks@.len() > 0,
            blocks_wf(old(self).blocks@),
        ensures
            *final(self) == (Function {
                blocks: final(self).blocks,
                successors: final(self).successors,
                predecessors: final(self).predecessors,
                ..*old(self)
            }),
            final(self).successors@.len() == 0,
            final(self).predecessors@.len() == 0,
            final(self).blocks@.len() == rank(
                reachable_bits(old(self).blocks@),
                old(self).blocks@.len() as int,
            ),
            forall|i: int|
                0 <= i < old(self).blocks@.len() && #[trigger] reachable_bits(old(self).blocks@)[i]
                    ==> final(self).blocks@[rank(reachable_bits(old(self).blocks@), i) as int] == (
                BasicBlock {
                    id: rank(reachable_bits(old(self).blocks@), i) as BlockId,
                    terminator: remap(
                        old(self).blocks@[i].terminator,
                        reachable_bits(old(self).blocks@),
                    ),
                    ..old(self).blocks@[i]
                }),
            forall|j: BlockId|
                j < final(self).blocks@.len() ==> #[trigger] reachable(cfg_of(final(self).blocks@), j),
    {
        let n = self.blocks.len();
        let ghost g = cfg_of(self.blocks@);
        let ghost bits = reachable_bits(self.blocks@);
        let ghost old_blocks = self.blocks@;
        let mut visited: Vec<bool> = Vec::new();
        let mut i: usize = 0;
        while i < n
            invariant
                i <= n,
                visited@.len() == i,
                forall|j: int| 0 <= j < i ==> !#[trigger] visited@[j],
            decreases n - i,
        {
            visited.push(false);
            i = i + 1;
        }
        let ghost v0 = visited@;
        proof {
            lemma_reachable_entry(g);
        }
        let ghost fuel = count_false(visited@);
        self.mark_reachable(&mut visited, 0, Ghost(fuel));
        proof {
            let v = visited@;
            assert(closed(g, marked(v))) by {
                assert forall|x: BlockId, k: int|
                    marked(v).contains(x) && x < g.len() && 0 <= k < g[x as int].len() implies marked(
                    v,
                ).contains(#[trigger] g[x as int][k]) by {
                    assert(!v0[x as int]);
                    assert(g[x as int][k] < n);
                }
            }
            assert(marked(v).contains(0));
            assert forall|x: int| 0 <= x < n implies #[trigger] visited@[x] == bits[x] by {
                if reachable(g, x as BlockId) {
                    assert(marked(v).contains(x as BlockId));
                }
                if visited@[x] {
                    assert(!v0[x]);
                }
            }
            assert(visited@ =~= bits);
        }
        let mut block_map: Vec<BlockId> = Vec::new();
        let mut count: usize = 0;
        let mut i: usize = 0;
        while i < n
            invariant
                n == visited@.len(),
                visited@ == bits,
                i <= n,
                block_map@.len() == i,
                count == rank(bits, i as int),
                count <= i,
                forall|j: int| 0 <= j < i && bits[j] ==> #[trigger] block_map@[j] == rank(bits, j),
            decreases n - i,
        {
            proof {
                let t = bits.take(i + 1);
                assert(t.drop_last() =~= bits.take(i as int));
            }
            if visited[i] {
                block_map.push(count);
                count = count + 1;
            } else {
                block_map.push(0);
            }
            i = i + 1;
        }
        let mut old_list: Vec<BasicBlock> = Vec::new();
        std::mem::swap(&mut old_list, &mut self.blocks);
        let mut new_blocks: Vec<BasicBlock> = Vec::new();
        let mut i: usize = 0;
        while i < n
            invariant
                n == visited@.len(),
                n == old_list@.len(),
                n == block_map@.len(),
                visited@ == bits,
                old_blocks.len() == n,
                bits == reachable_bits(old_blocks),
                g == cfg_of(old_blocks),
                blocks_wf(old_blocks),
                closed(g, marked(bits)),
                forall|j: int| i <= j < n ==> #[trigger] old_list@[j] == old_blocks[j],
                forall|j: int| 0 <= j < n && bits[j] ==> #[trigger] block_map@[j] == rank(bits, j),
                i <= n,
                new_blocks@.len() == rank(bits, i as int),
                forall|j: int|
                    0 <= j < i && #[trigger] bits[j] ==> new_blocks@[rank(bits, j) as int] == (
                    BasicBlock {
                        id: rank(bits, j) as BlockId,
                        terminator: remap(old_blocks[j].terminator, bits),
                        ..old_blocks[j]
                    }),
            decreases n - i,
        {
            proof {
                let t = bits.take(i + 1);
                assert(t.drop_last() =~= bits.take(i as int));
            }
            let mut blk = BasicBlock::new(0, Vec::new(), None);
            std::mem::swap(&mut blk, &mut old_list[i]);
            if visited[i] {
                let ghost ob = blk;
                proof {
                    assert(ob == old_blocks[i as int]);
                    assert(ob.id == i);
                    assert(g[i as int] == targets(ob.terminator));
                    assert(marked(bits).contains(i as BlockId));
                }
                let term = match blk.terminator {
                    Some(Terminator::Goto(t)) => {
                        proof {
                            assert(g[i as int][0] == t);
                            assert(marked(bits).contains(t));
                        }
                        Some(Terminator::Goto(block_map[t]))
                    },
                    Some(Terminator::IfElse(op, t0, t1)) => {
                        proof {
                            assert(g[i as int][0] == t0);
                            assert(g[i as int][1] == t1);
                            assert(marked(bits).contains(t0));
                            assert(marked(bits).contains(t1));
                        }
                        Some(Terminator::IfElse(op, block_map[t0], block_map[t1]))
                    },
                    other => other,
                };
                let nb = BasicBlock {
                    id: block_map[i],
                    stmts: blk.stmts,
                    terminator: term,
                    live_in: blk.live_in,
                    live_out: blk.live_out,
                    dom: blk.dom,
                };
                let ghost before = new_blocks@;
                new_blocks.push(nb);
                proof {
                    assert forall|j: int|
                        0 <= j < i + 1 && #[trigger] bits[j] implies new_blocks@[rank(bits, j) as int]
                        == (BasicBlock {
                        id: rank(bits, j) as BlockId,
                        terminator: remap(old_blocks[j].terminator, bits),
                        ..old_blocks[j]
                    }) by {
                        if j < i {
                            lemma_rank_mono(bits, j + 1, i as int);
                            lemma_rank_step(bits, j);
                            assert(new_blocks@[rank(bits, j) as int] == before[rank(bits, j) as int]);
                        }
                    }
                }
            }
            i = i + 1;
        }
        proof {
            assert(bits.take(n as int) =~= bits);
        }
        proof {
            reveal(renumbered);
            assert(renumbered(old_blocks, new_blocks@));
            lemma_all_reachable(old_blocks, new_blocks@);
        }
        self.blocks = new_blocks;
        self.successors = Vec::new();
        self.predecessors = Vec::new();
    }

    /// The function without the blocks that cannot be reached from the entry.
    pub fn with_remove_unreachable(self) -> (f: Self)
        requires
            self.blocks@.len() > 0,
            blocks_wf(self.blocks@),
        ensures
            f == (Function {
                blocks: f.blocks,
                successors: f.successors,
                predecessors: f.predecessors,
                ..self
            }),
            f.successors@.len() == 0,
            f.predecessors@.len() == 0,
            f.blocks@.len() == rank(reachable_bits(self.blocks@), self.blocks@.len() as int),
            forall|i: int|
                0 <= i < self.blocks@.len() && #[trigger] reachable_bits(self.blocks@)[i]
                    ==> f.blocks@[rank(reachable_bits(self.blocks@), i) as int] == (BasicBlock {
                    id: rank(reachable_bits(self.blocks@), i) as BlockId,
                    terminator: remap(self.blocks@[i].terminator, reachable_bits(self.blocks@)),
                    ..self.blocks@[i]
                }),
            forall|j: BlockId| j < f.blocks@.len() ==> #[trigger] reachable(cfg_of(f.blocks@), j),
    {
        let mut f = self;
        f.remove_unreachable();
        f
    }
}

proof fn lemma_rank_onto(bits: Seq<bool>, t: int, j: nat)
    requires
        0 <= t <= bits.len(),
        j < rank(bits, t),
    ensures
        exists|i: int| 0 <= i < t && bits[i] && #[trigger] rank(bits, i) == j,
    decreases t,
{
    if t > 0 {
        assert(bits.take(t).drop_last() =~= bits.take(t - 1));
        if j < rank(bits, t - 1) {
            lemma_rank_onto(bits, t - 1, j);
            let i = choose|i: int| 0 <= i < t - 1 && bits[i] && #[trigger] rank(bits, i) == j;
            assert(0 <= i < t && bits[i] && rank(bits, i) == j);
        } else {
            assert(bits[t - 1] && rank(bits, t - 1) == j);
        }
    }
}

/// The old blocks that are kept and whose new numbers lie in `s2`.
pub open spec fn pullback(bits: Seq<bool>, s2: Set<BlockId>) -> Set<BlockId> {
    Set::new(
        |x: BlockId| x < bits.len() && bits[x as int] && s2.contains(rank(bits, x as int) as BlockId),
    )
}

/// The new blocks are the kept old blocks, renumbered, with their targets renumbered.
#[verifier::opaque]
pub open spec fn renumbered(old_blocks: Seq<BasicBlock>, new_blocks: Seq<BasicBlock>) -> bool {
    &&& new_blocks.len() == rank(reachable_bits(old_blocks), old_blocks.len() as int)
    &&& forall|i: int|
        0 <= i < old_blocks.len() && #[trigger] reachable_bits(old_blocks)[i]
            ==> new_blocks[rank(reachable_bits(old_blocks), i) as int] == (BasicBlock {
            id: rank(reachable_bits(old_blocks), i) as BlockId,
            terminator: remap(old_blocks[i].terminator, reachable_bits(old_blocks)),
            ..old_blocks[i]
        })
}

proof fn lemma_edge_renumbered(old_blocks: Seq<BasicBlock>, new_blocks: Seq<BasicBlock>, x: BlockId, k: int)
    requires
        renumbered(old_blocks, new_blocks),
        x < old_blocks.len(),
        reachable_bits(old_blocks)[x as int],
        0 <= k < cfg_of(old_blocks)[x as int].len(),
    ensures
        rank(reachable_bits(old_blocks), x as int) < new_blocks.len(),
        k < cfg_of(new_blocks)[rank(reachable_bits(old_blocks), x as int) as int].len(),
        cfg_of(new_blocks)[rank(reachable_bits(old_blocks), x as int) as int][k] == rank(
            reachable_bits(old_blocks),
            cfg_of(old_blocks)[x as int][k] as int,
        ) as BlockId,
{
    let bits = reachable_bits(old_blocks);
    let rx = rank(bits, x as int);
    assert(new_blocks.len() == rank(bits, old_blocks.len() as int) && new_blocks[rx as int].terminator
        == remap(old_blocks[x as int].terminator, bits)) by {
        reveal(renumbered);
    }
    lemma_rank_step(bits, x as int);
    lemma_rank_mono(bits, x + 1, old_blocks.len() as int);
    let t = old_blocks[x as int].terminator;
    let g = cfg_of(old_blocks);
    let g2 = cfg_of(new_blocks);
    assert(g[x as int] == targets(t));
    assert(g2[rx as int] == targets(remap(t, bits)));
    match t {
        Some(Terminator::Goto(b)) => {
            assert(targets(t) == seq![b]);
        },
        Some(Terminator::IfElse(_, b0, b1)) => {
            assert(targets(t) == seq![b0, b1]);
        },
        _ => {},
    }
}

proof fn lemma_pullback_closed(old_blocks: Seq<BasicBlock>, new_blocks: Seq<BasicBlock>, s2: Set<BlockId>)
    requires
        blocks_wf(old_blocks),
        renumbered(old_blocks, new_blocks),
        closed(cfg_of(new_blocks), s2),
        new_blocks.len() <= usize::MAX,
    ensures
        closed(cfg_of(old_blocks), pullback(reachable_bits(old_blocks), s2)),
{
    let bits = reachable_bits(old_blocks);
    let g = cfg_of(old_blocks);
    let g2 = cfg_of(new_blocks);
    let s = pullback(bits, s2);
    assert forall|x: BlockId, k: int|
        s.contains(x) && x < g.len() && 0 <= k < g[x as int].len() implies s.contains(
        #[trigger] g[x as int][k],
    ) by {
        let y = g[x as int][k];
        assert(y < old_blocks.len());
        assert(bits[x as int]);
        assert(reachable(g, x));
        lemma_reachable_step(g, x, k);
        assert(bits[y as int]);
        lemma_edge_renumbered(old_blocks, new_blocks, x, k);
        let rx = rank(bits, x as int) as BlockId;
        assert(s2.contains(rx));
        assert(rx < g2.len() && k < g2[rx as int].len());
        assert(s2.contains(g2[rx as int][k]));
    }
}

/// After the removal, every block can be reached from the entry: a set of new blocks that
/// holds the entry and is closed under their edges gives, through the renumbering, a set of
/// old blocks with the same properties, which holds every reachable old block.
proof fn lemma_all_reachable(old_blocks: Seq<BasicBlock>, new_blocks: Seq<BasicBlock>)
    requires
        old_blocks.len() > 0,
        old_blocks.len() <= usize::MAX,
        new_blocks.len() <= usize::MAX,
        blocks_wf(old_blocks),
        renumbered(old_blocks, new_blocks),
    ensures
        forall|j: BlockId| j < new_blocks.len() ==> #[trigger] reachable(cfg_of(new_blocks), j),
{
    let bits = reachable_bits(old_blocks);
    let n = old_blocks.len() as int;
    let g = cfg_of(old_blocks);
    let g2 = cfg_of(new_blocks);
    assert(new_blocks.len() == rank(bits, n)) by {
        reveal(renumbered);
    }
    lemma_reachable_entry(g);
    assert(bits.take(0) =~= Seq::<bool>::empty());
    assert forall|j: BlockId| j < new_blocks.len() implies #[trigger] reachable(g2, j) by {
        lemma_rank_onto(bits, n, j as nat);
        let i = choose|i: int| 0 <= i < n && bits[i] && #[trigger] rank(bits, i) == j;
        assert(reachable(g, i as BlockId));
        assert forall|s2: Set<BlockId>| #[trigger] closed(g2, s2) && s2.contains(0) implies s2.contains(
            j,
        ) by {
            lemma_pullback_closed(old_blocks, new_blocks, s2);
            assert(pullback(bits, s2).contains(0));
            assert(pullback(bits, s2).contains(i as BlockId));
        }
    }
}

proof fn lemma_rank_step(bits: Seq<bool>, j: int)
    requires
        0 <= j < bits.len(),
        bits[j],
    ensures
        rank(bits, j + 1) == rank(bits, j) + 1,
{
    assert(bits.take(j + 1).drop_last() =~= bits.take(j));
}

proof fn lemma_rank_mono(bits: Seq<bool>, a: int, b: int)
    requires
        0 <= a <= b <= bits.len(),
    ensures
        rank(bits, a) <= rank(bits, b),
    decreases b - a,
{
    if a < b {
        lemma_rank_mono(bits, a, b - 1);
        assert(bits.take(b).drop_last() =~= bits.take(b - 1));
    }
}

} // verus!
