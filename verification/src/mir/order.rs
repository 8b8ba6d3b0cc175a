//! Depth-first orders of the blocks of a function, from its entry block.
use vstd::prelude::*;

use super::cfg::lists;
use super::graph_wf;
use super::BlockId;
use super::Function;

verus! {

/// A set of nodes that contains every successor of each of its nodes.
pub open spec fn closed(g: Seq<Seq<BlockId>>, s: Set<BlockId>) -> bool {
    forall|x: BlockId, k: int|
        s.contains(x) && x < g.len() && 0 <= k < g[x as int].len() ==> s.contains(
            #[trigger] g[x as int][k],
        )
}

/// A node is reachable from node 0 when every set that holds node 0 and is closed under the
/// edges holds it too.
pub open spec fn reachable(g: Seq<Seq<BlockId>>, x: BlockId) -> bool {
    forall|s: Set<BlockId>| #[trigger] closed(g, s) && s.contains(0) ==> s.contains(x)
}

/// The nodes marked in a vector of flags.
pub open spec fn marked(v: Seq<bool>) -> Set<BlockId> {
    Set::new(|x: BlockId| x < v.len() && v[x as int])
}

/// How many flags are still unset.
pub open spec fn count_false(v: Seq<bool>) -> nat
    decreases v.len(),
{
    if v.len() == 0 {
        0
    } else {
        count_false(v.drop_last()) + if v.last() {
            0nat
        } else {
            1nat
        }
    }
}

/// No element occurs twice.
pub open spec fn distinct(s: Seq<BlockId>) -> bool {
    forall|i: int, j: int| 0 <= i < j < s.len() ==> s[i] != s[j]
}

pub proof fn lemma_count_false_mono(v1: Seq<bool>, v2: Seq<bool>)
    requires
        v1.len() == v2.len(),
        forall|i: int| 0 <= i < v1.len() && v1[i] ==> v2[i],
    ensures
        count_false(v2) <= count_false(v1),
        (exists|i: int| 0 <= i < v1.len() && !v1[i] && v2[i]) ==> count_false(v2) < count_false(
            v1,
        ),
    decreases v1.len(),
{
    if v1.len() > 0 {
        let a = v1.drop_last();
        let b = v2.drop_last();
        lemma_count_false_mono(a, b);
        if exists|i: int| 0 <= i < v1.len() && !v1[i] && v2[i] {
            let i = choose|i: int| 0 <= i < v1.len() && !v1[i] && v2[i];
            if i < v1.len() - 1 {
                assert(!a[i] && b[i]);
            }
        }
    }
}

/// A successor of a reachable node is reachable.
pub proof fn lemma_reachable_step(g: Seq<Seq<BlockId>>, x: BlockId, k: int)
    requires
        reachable(g, x),
        x < g.len(),
        0 <= k < g[x as int].len(),
    ensures
        reachable(g, g[x as int][k]),
{
    assert forall|s: Set<BlockId>| #[trigger] closed(g, s) && s.contains(0) implies s.contains(
        g[x as int][k],
    ) by {
        assert(s.contains(x));
    }
}

/// The entry is reachable.
pub proof fn lemma_reachable_entry(g: Seq<Seq<BlockId>>)
    ensures
        reachable(g, 0),
{
}

/// A depth-first search from `b` over `g`, with the flags `vis` of the nodes visited
/// before; it tries the successors of each node in order and enters those not yet visited.
/// It gives the flags after it and the nodes it visited: each after its successors' searches
/// when `post`, else before them. `fuel` bounds the depth; it is enough when it is at least
/// the number of unvisited nodes.
pub open spec fn dfs_from(
    g: Seq<Seq<BlockId>>,
    b: BlockId,
    vis: Seq<bool>,
    post: bool,
    fuel: nat,
) -> (Seq<bool>, Seq<BlockId>)
    decreases fuel, g[b as int].len() + 1,
{
    let (v2, o) = dfs_succs(g, b, 0, vis.update(b as int, true), post, fuel);
    if post {
        (v2, o.push(b))
    } else {
        (v2, seq![b] + o)
    }
}

/// The searches from the successors of `b`, from its `k`th on.
pub open spec fn dfs_succs(
    g: Seq<Seq<BlockId>>,
    b: BlockId,
    k: nat,
    vis: Seq<bool>,
    post: bool,
    fuel: nat,
) -> (Seq<bool>, Seq<BlockId>)
    decreases fuel, g[b as int].len() - k,
{
    if k >= g[b as int].len() {
        (vis, Seq::empty())
    } else {
        let s = g[b as int][k as int];
        if vis[s as int] || fuel == 0 {
            dfs_succs(g, b, k + 1, vis, post, fuel)
        } else {
            let (v2, o1) = dfs_from(g, s, vis, post, (fuel - 1) as nat);
            let (v3, o2) = dfs_succs(g, b, k + 1, v2, post, fuel);
            (v3, o1 + o2)
        }
    }
}

/// No node visited yet.
pub open spec fn none_visited(n: nat) -> Seq<bool> {
    Seq::new(n, |i: int| false)
}

/// The order of a depth-first search of `g` from node 0 that tries successors in order:
/// the order in which it finishes the nodes when `post`, else the order in which it enters
/// them.
pub open spec fn dfs_order(g: Seq<Seq<BlockId>>, post: bool) -> Seq<BlockId> {
    dfs_from(g, 0, none_visited(g.len()), post, count_false(none_visited(g.len()))).1
}

/// Search from `b`, which is not yet visited. Each node that the search visits is added
/// once to `order`: in postorder when `post`, after its successors, else in preorder,
/// before them.
fn dfs(
    b: BlockId,
    visited: &mut Vec<bool>,
    order: &mut Vec<BlockId>,
    succ: &Vec<Vec<BlockId>>,
    post: bool,
    Ghost(fuel): Ghost<nat>,
)
    requires
        count_false(old(visited)@) <= fuel,
        b < old(visited)@.len(),
        old(visited)@.len() == succ@.len(),
        graph_wf(lists(succ@), succ@.len()),
        !old(visited)@[b as int],
        reachable(lists(succ@), b),
    ensures
        final(visited)@.len() == old(visited)@.len(),
        forall|i: int| 0 <= i < old(visited)@.len() && old(visited)@[i] ==> final(visited)@[i],
        final(visited)@[b as int],
        forall|x: BlockId, k: int|
            x < final(visited)@.len() && final(visited)@[x as int] && !old(visited)@[x as int]
                && 0 <= k < succ@[x as int]@.len() ==> final(visited)@[
                #[trigger] succ@[x as int]@[k] as int],
        forall|x: BlockId|
            x < final(visited)@.len() && final(visited)@[x as int] && !old(visited)@[x as int]
                ==> reachable(lists(succ@), x),
        old(order)@.len() < final(order)@.len(),
        final(order)@.subrange(0, old(order)@.len() as int) == old(order)@,
        forall|j: int|
            old(order)@.len() <= j < final(order)@.len() ==> {
                let x = #[trigger] final(order)@[j];
                x < final(visited)@.len() && final(visited)@[x as int] && !old(visited)@[x as int]
            },
        forall|x: BlockId|
            x < final(visited)@.len() && final(visited)@[x as int] && !old(visited)@[x as int]
                ==> final(order)@.subrange(old(order)@.len() as int, final(order)@.len() as int).contains(x),
        distinct(final(order)@.subrange(old(order)@.len() as int, final(order)@.len() as int)),
        post ==> final(order)@.last() == b,
        !post ==> final(order)@[old(order)@.len() as int] == b,
        final(visited)@ == dfs_from(lists(succ@), b, old(visited)@, post, fuel).0,
        final(order)@ == old(order)@ + dfs_from(lists(succ@), b, old(visited)@, post, fuel).1,
    decreases fuel,
{
    let ghost v0 = visited@;
    let ghost o0 = order@;
    let ghost g = lists(succ@);
    visited.set(b, true);
    let ghost v1 = visited@;
    proof {
        assert(!v0[b as int] && v1[b as int]);
        lemma_count_false_mono(v0, v1);
    }
    if !post {
        order.push(b);
    }
    let ghost o1 = order@;
    let ghost goal = dfs_succs(g, b, 0, v1, post, fuel);
    let mut k: usize = 0;
    while k < succ[b].len()
        invariant
            goal == dfs_succs(g, b, 0, v1, post, fuel),
            dfs_succs(g, b, k as nat, visited@, post, fuel).0 == goal.0,
            order@.subrange(o1.len() as int, order@.len() as int) + dfs_succs(
                g,
                b,
                k as nat,
                visited@,
                post,
                fuel,
            ).1 == goal.1,
            b < v0.len(),
            v0.len() == succ@.len(),
            g == lists(succ@),
            graph_wf(g, succ@.len()),
            reachable(g, b),
            v1 == v0.update(b as int, true),
            count_false(v1) < count_false(v0),
            count_false(v0) <= fuel,
            visited@.len() == v0.len(),
            forall|i: int| 0 <= i < v1.len() && v1[i] ==> visited@[i],
            k <= succ@[b as int]@.len(),
            forall|k2: int| 0 <= k2 < k ==> visited@[#[trigger] succ@[b as int]@[k2] as int],
            forall|x: BlockId, k2: int|
                x < visited@.len() && visited@[x as int] && !v0[x as int] && x != b && 0 <= k2
                    < succ@[x as int]@.len() ==> visited@[#[trigger] succ@[x as int]@[k2] as int],
            forall|x: BlockId|
                x < visited@.len() && visited@[x as int] && !v0[x as int] ==> reachable(g, x),
            o1 == (if post {
                o0
            } else {
                o0.push(b)
            }),
            o1.len() <= order@.len(),
            order@.subrange(0, o1.len() as int) == o1,
            forall|j: int|
                o1.len() <= j < order@.len() ==> {
                    let x = #[trigger] order@[j];
                    x < visited@.len() && visited@[x as int] && !v0[x as int] && x != b
                },
            forall|x: BlockId|
                x < visited@.len() && visited@[x as int] && !v0[x as int] && x != b
                    ==> order@.subrange(o1.len() as int, order@.len() as int).contains(x),
            distinct(order@.subrange(o1.len() as int, order@.len() as int)),
        decreases succ@[b as int]@.len() - k,
    {
        let s = succ[b][k];
        proof {
            assert(g[b as int][k as int] == s);
            assert(s < succ@.len());
        }
        if !visited[s] {
            let ghost vb = visited@;
            let ghost ob = order@;
            proof {
                lemma_count_false_mono(v1, vb);
                lemma_reachable_step(g, b, k as int);
            }
            assert(vb[b as int]) by {
                assert(v1[b as int]);
            }
            assert(count_false(visited@) < count_false(v0));
            dfs(s, visited, order, succ, post, Ghost((fuel - 1) as nat));
            proof {
                let r = dfs_from(g, s, vb, post, (fuel - 1) as nat);
                let rest = dfs_succs(g, b, (k + 1) as nat, visited@, post, fuel);
                assert(dfs_succs(g, b, k as nat, vb, post, fuel) == (rest.0, r.1 + rest.1));
                let sb = ob.subrange(o1.len() as int, ob.len() as int);
                assert(order@.subrange(o1.len() as int, order@.len() as int) =~= sb + r.1);
                assert(sb + r.1 + rest.1 =~= sb + (r.1 + rest.1));
                assert forall|x: BlockId, k2: int|
                    x < visited@.len() && visited@[x as int] && !v0[x as int] && x != b && 0 <= k2
                        < succ@[x as int]@.len() implies visited@[#[trigger] succ@[
                    x as int]@[k2] as int] by {
                    let y = succ@[x as int]@[k2];
                    assert(g[x as int][k2] == y);
                    assert(y < vb.len());
                    if vb[x as int] {
                        assert(vb[y as int]);
                        assert(visited@[y as int]);
                    } else {
                        assert(visited@[y as int]);
                    }
                }
                let seg_b = ob.subrange(o1.len() as int, ob.len() as int);
                let seg_c = order@.subrange(ob.len() as int, order@.len() as int);
                let seg = order@.subrange(o1.len() as int, order@.len() as int);
                assert(order@.subrange(0, ob.len() as int) == ob);
                assert(seg =~= seg_b + seg_c) by {
                    assert forall|j: int| 0 <= j < seg_b.len() implies seg[j] == seg_b[j] by {
                        assert(order@.subrange(0, ob.len() as int)[o1.len() + j] == ob[o1.len()
                            + j]);
                    }
                }
                assert(order@.subrange(0, o1.len() as int) =~= o1) by {
                    assert forall|j: int| 0 <= j < o1.len() implies order@[j] == o1[j] by {
                        assert(order@.subrange(0, ob.len() as int)[j] == ob[j]);
                        assert(ob.subrange(0, o1.len() as int)[j] == o1[j]);
                    }
                }
                assert forall|j: int| o1.len() <= j < order@.len() implies {
                    let x = #[trigger] order@[j];
                    x < visited@.len() && visited@[x as int] && !v0[x as int] && x != b
                } by {
                    if j < ob.len() {
                        assert(order@.subrange(0, ob.len() as int)[j] == ob[j]);
                    } else {
                        let x = order@[j];
                        assert(!vb[x as int]);
                        assert(vb[b as int]);
                        if v0[x as int] {
                            assert(v1[x as int]);
                        }
                    }
                }
                assert forall|x: BlockId|
                    x < visited@.len() && visited@[x as int] && !v0[x as int] && x
                        != b implies seg.contains(x) by {
                    if vb[x as int] {
                        assert(seg_b.contains(x));
                        let j = choose|j: int| 0 <= j < seg_b.len() && seg_b[j] == x;
                        assert(seg[j] == x);
                    } else {
                        assert(seg_c.contains(x));
                        let j = choose|j: int| 0 <= j < seg_c.len() && seg_c[j] == x;
                        assert(seg[seg_b.len() + j] == x);
                    }
                }
                assert forall|i: int, j: int| 0 <= i < j < seg.len() implies seg[i] != seg[j] by {
                    if j < seg_b.len() {
                        assert(seg_b[i] != seg_b[j]);
                    } else if i >= seg_b.len() {
                        assert(seg_c[i - seg_b.len()] != seg_c[j - seg_b.len()]);
                    } else {
                        assert(order@[o1.len() + i] == seg_b[i]);
                        assert(order@[o1.len() + j] == seg_c[j - seg_b.len()]);
                        assert(vb[seg_b[i] as int]);
                        assert(!vb[seg_c[j - seg_b.len()] as int]);
                    }
                }
            }
        }
        k = k + 1;
    }
    let ghost o2 = order@;
    proof {
        let seg = o2.subrange(o1.len() as int, o2.len() as int);
        assert(seg + Seq::<BlockId>::empty() =~= seg);
        assert(seg == goal.1);
        assert(o2 =~= o1 + seg);
        let r = dfs_from(g, b, v0, post, fuel);
        assert(r == (if post { (goal.0, goal.1.push(b)) } else { (goal.0, seq![b] + goal.1) }));
        if post {
            assert(o2.push(b) =~= o0 + r.1);
        } else {
            assert(o2 =~= o0 + r.1);
        }
    }
    if post {
        order.push(b);
    }
    proof {
        assert forall|i: int| 0 <= i < v0.len() && v0[i] implies visited@[i] by {
            assert(v1[i]);
        }
        assert(v1[b as int]);
        let seg = order@.subrange(o0.len() as int, order@.len() as int);
        let old_seg = o2.subrange(o1.len() as int, o2.len() as int);
        if post {
            let inner = order@.subrange(o1.len() as int, order@.len() - 1);
            assert(inner =~= old_seg);
            assert(seg =~= inner.push(b));
            assert forall|i: int, j: int| 0 <= i < j < seg.len() implies seg[i] != seg[j] by {
                if j < seg.len() - 1 {
                    assert(inner[i] != inner[j]);
                } else {
                    assert(order@[o0.len() + i] != b);
                }
            }
            assert forall|x: BlockId|
                x < visited@.len() && visited@[x as int] && !v0[x as int] implies seg.contains(
                x,
            ) by {
                if x == b {
                    assert(seg[seg.len() - 1] == b);
                } else {
                    let j = choose|j: int| 0 <= j < inner.len() && inner[j] == x;
                    assert(seg[j] == x);
                }
            }
        } else {
            let inner = order@.subrange(o1.len() as int, order@.len() as int);
            assert(o2.subrange(0, o1.len() as int)[o0.len() as int] == o1[o0.len() as int]);
            assert(seg =~= seq![b] + inner);
            assert forall|i: int, j: int| 0 <= i < j < seg.len() implies seg[i] != seg[j] by {
                if i > 0 {
                    assert(inner[i - 1] != inner[j - 1]);
                } else {
                    assert(order@[o0.len() + j] != b);
                }
            }
            assert forall|x: BlockId|
                x < visited@.len() && visited@[x as int] && !v0[x as int] implies seg.contains(
                x,
            ) by {
                if x == b {
                    assert(seg[0] == b);
                } else {
                    let j = choose|j: int| 0 <= j < inner.len() && inner[j] == x;
                    assert(seg[j + 1] == x);
                }
            }
        }
        assert forall|x: BlockId, k2: int|
            x < visited@.len() && visited@[x as int] && !v0[x as int] && 0 <= k2
                < succ@[x as int]@.len() implies visited@[#[trigger] succ@[x as int]@[k2] as int] by {
            if x == b {
                assert(visited@[succ@[b as int]@[k2] as int]);
            }
        }
    }
}

/// The order holds each node reachable from node 0 exactly once, and nothing else.
pub open spec fn is_search_order(g: Seq<Seq<BlockId>>, o: Seq<BlockId>) -> bool {
    &&& distinct(o)
    &&& forall|i: int| 0 <= i < o.len() ==> #[trigger] o[i] < g.len()
    &&& forall|x: BlockId| x < g.len() ==> (o.contains(x) <==> reachable(g, x))
}

/// The position of the last occurrence of `b` in `s`, or 0 when `b` does not occur.
pub open spec fn last_pos(s: Seq<BlockId>, b: BlockId) -> nat
    decreases s.len(),
{
    if s.len() == 0 {
        0
    } else if s.last() == b {
        (s.len() - 1) as nat
    } else {
        last_pos(s.drop_last(), b)
    }
}

/// In a sequence without repetitions, the position of an element is where it stands.
pub proof fn lemma_last_pos_distinct(s: Seq<BlockId>, i: int)
    requires
        distinct(s),
        0 <= i < s.len(),
    ensures
        last_pos(s, s[i]) == i,
    decreases s.len(),
{
    if i < s.len() - 1 {
        assert(s.last() != s[i]);
        assert(s.drop_last()[i] == s[i]);
        lemma_last_pos_distinct(s.drop_last(), i);
    }
}

/// A search from node 0 with nothing visited yet: the order it produces and its flags.
fn search(succ: &Vec<Vec<BlockId>>, n: usize, post: bool) -> (r: Vec<BlockId>)
    requires
        0 < n,
        succ@.len() == n,
        graph_wf(lists(succ@), n as nat),
    ensures
        is_search_order(lists(succ@), r@),
        r@ == dfs_order(lists(succ@), post),
        post ==> r@.last() == 0,
        !post ==> r@[0] == 0,
        r@.len() > 0,
{
    let ghost g = lists(succ@);
    let mut visited: Vec<bool> = Vec::new();
    let mut i: usize = 0;
    while i < n
        invariant
            i <= n,
            visited@.len() == i,
            forall|j: int| 0 <= j < i ==> !#[trigger] visited@[j],
        decreases n - i,
    {
        visited.push(false);
        i = i + 1;
    }
    let ghost v0 = visited@;
    assert(v0 =~= none_visited(n as nat));
    let mut order: Vec<BlockId> = Vec::new();
    proof {
        lemma_reachable_entry(g);
    }
    let ghost fuel = count_false(visited@);
    dfs(0, &mut visited, &mut order, succ, post, Ghost(fuel));
    proof {
        assert(order@ =~= dfs_order(g, post));
        let v = visited@;
        assert(order@.subrange(0, order@.len() as int) =~= order@);
        assert(closed(g, marked(v))) by {
            assert forall|x: BlockId, k: int|
                marked(v).contains(x) && x < g.len() && 0 <= k < g[x as int].len() implies marked(
                v,
            ).contains(#[trigger] g[x as int][k]) by {
                assert(g[x as int][k] == succ@[x as int]@[k]);
                assert(!v0[x as int]);
            }
        }
        assert(marked(v).contains(0));
        assert forall|x: BlockId| x < g.len() implies (order@.contains(x) <==> reachable(
            g,
            x,
        )) by {
            if reachable(g, x) {
                assert(marked(v).contains(x));
                assert(!v0[x as int]);
            }
            if order@.contains(x) {
                let j = choose|j: int| 0 <= j < order@.len() && order@[j] == x;
                assert(order@[j] == x);
            }
        }
        assert forall|j: int| 0 <= j < order@.len() implies #[trigger] order@[j] < g.len() by {
            assert(order@[j] < v.len());
        }
    }
    order
}

impl Function {
    /// The blocks reachable from the entry, each once, in the order in which a depth-first
    /// search that tries successors in order finishes them; the entry comes last.
    pub fn compute_postorder(&mut self)
        requires
            old(self).blocks@.len() > 0,
            old(self).successors@.len() == old(self).blocks@.len(),
            graph_wf(lists(old(self).successors@), old(self).blocks@.len()),
        ensures
            *final(self) == (Function { postorder: final(self).postorder, ..*old(self) }),
            final(self).postorder@ == dfs_order(lists(old(self).successors@), true),
            is_search_order(lists(old(self).successors@), final(self).postorder@),
            final(self).postorder@.last() == 0,
    {
        let n = self.blocks.len();
        self.postorder = search(&self.successors, n, true);
    }

    /// The blocks reachable from the entry, each once, in the order in which a depth-first
    /// search that tries successors in order enters them; the entry comes first.
    pub fn compute_preorder(&mut self)
        requires
            old(self).blocks@.len() > 0,
            old(self).successors@.len() == old(self).blocks@.len(),
            graph_wf(lists(old(self).successors@), old(self).blocks@.len()),
        ensures
            *final(self) == (Function { preorder: final(self).preorder, ..*old(self) }),
            final(self).preorder@ == dfs_order(lists(old(self).successors@), false),
            is_search_order(lists(old(self).successors@), final(self).preorder@),
            final(self).preorder@[0] == 0,
    {
        let n = self.blocks.len();
        self.preorder = search(&self.successors, n, false);
    }

    /// For each block, its position in the reversed postorder (the last one, should it
    /// occur twice), and 0 for a block that does not occur.
    pub fn compute_reverse_postorder_number(&mut self)
        requires
            forall|i: int|
                0 <= i < old(self).postorder@.len() ==> #[trigger] old(self).postorder@[i] < old(self).blocks@.len(),
        ensures
            *final(self) == (Function {
                reverse_postorder_number: final(self).reverse_postorder_number,
                ..*old(self)
            }),
            final(self).reverse_postorder_number@.len() == old(self).blocks@.len(),
            forall|b: int|
                0 <= b < old(self).blocks@.len() ==> #[trigger] final(self).reverse_postorder_number@[b] == last_pos(
                    old(self).postorder@.reverse(),
                    b as BlockId,
                ),
    {
        let n = self.blocks.len();
        let len = self.postorder.len();
        let ghost rev = self.postorder@.reverse();
        let mut rpn: Vec<BlockId> = Vec::new();
        let mut b: usize = 0;
        while b < n
            invariant
                b <= n,
                rpn@.len() == b,
                forall|j: int| 0 <= j < b ==> #[trigger] rpn@[j] == 0,
            decreases n - b,
        {
            rpn.push(0);
            b = b + 1;
        }
        let mut i: usize = 0;
        while i < len
            invariant
                n == self.blocks@.len(),
                len == self.postorder@.len(),
                rev == self.postorder@.reverse(),
                forall|j: int| 0 <= j < len ==> #[trigger] self.postorder@[j] < n,
                i <= len,
                rpn@.len() == n,
                forall|c: int|
                    0 <= c < n ==> #[trigger] rpn@[c] == last_pos(rev.take(i as int), c as BlockId),
            decreases len - i,
        {
            let c = self.postorder[len - 1 - i];
            assert(rev[i as int] == c);
            rpn.set(c, i);
            proof {
                let t = rev.take(i + 1);
                assert(t.drop_last() =~= rev.take(i as int));
                assert(t.last() == c);
            }
            i = i + 1;
        }
        assert(rev.take(len as int) =~= rev);
        self.reverse_postorder_number = rpn;
    }
}

/// In `o`, the node at `j` has a predecessor before it.
pub open spec fn after_a_predecessor(g: Seq<Seq<BlockId>>, o: Seq<BlockId>, j: int) -> bool {
    exists|i: int| 0 <= i < j && #[trigger] g[o[i] as int].contains(o[j])
}

/// In `o`, the node at `j` has a predecessor after it.
pub open spec fn before_a_predecessor(g: Seq<Seq<BlockId>>, o: Seq<BlockId>, j: int) -> bool {
    exists|i: int| j < i < o.len() && #[trigger] g[o[i] as int].contains(o[j])
}

proof fn lemma_pre_from(g: Seq<Seq<BlockId>>, b: BlockId, vis: Seq<bool>, fuel: nat)
    ensures
        dfs_from(g, b, vis, false, fuel).1.len() > 0,
        dfs_from(g, b, vis, false, fuel).1[0] == b,
        forall|j: int|
            0 < j < dfs_from(g, b, vis, false, fuel).1.len() ==> after_a_predecessor(
                g,
                dfs_from(g, b, vis, false, fuel).1,
                j,
            ),
    decreases fuel, g[b as int].len() + 1,
{
    let o2 = dfs_succs(g, b, 0, vis.update(b as int, true), false, fuel).1;
    lemma_pre_succs(g, b, 0, vis.update(b as int, true), fuel);
    let o = seq![b] + o2;
    assert forall|j: int| 0 < j < o.len() implies after_a_predecessor(g, o, j) by {
        assert(o[j] == o2[j - 1]);
        assert(g[b as int].contains(o2[j - 1]) || after_a_predecessor(g, o2, j - 1));
        if g[b as int].contains(o2[j - 1]) {
            assert(g[o[0] as int].contains(o[j]));
        } else {
            let i = choose|i: int| 0 <= i < j - 1 && #[trigger] g[o2[i] as int].contains(o2[j - 1]);
            assert(o[i + 1] == o2[i]);
            assert(g[o[i + 1] as int].contains(o[j]));
        }
    }
}

proof fn lemma_pre_succs(g: Seq<Seq<BlockId>>, b: BlockId, k: nat, vis: Seq<bool>, fuel: nat)
    ensures
        forall|j: int|
            0 <= j < dfs_succs(g, b, k, vis, false, fuel).1.len() ==> g[b as int].contains(
                dfs_succs(g, b, k, vis, false, fuel).1[j],
            ) || after_a_predecessor(g, dfs_succs(g, b, k, vis, false, fuel).1, j),
    decreases fuel, g[b as int].len() - k,
{
    if k < g[b as int].len() {
        let s = g[b as int][k as int];
        if vis[s as int] || fuel == 0 {
            lemma_pre_succs(g, b, k + 1, vis, fuel);
            assert(dfs_succs(g, b, k, vis, false, fuel) == dfs_succs(g, b, k + 1, vis, false, fuel));
        } else {
            let (v2, o1) = dfs_from(g, s, vis, false, (fuel - 1) as nat);
            let o2 = dfs_succs(g, b, k + 1, v2, false, fuel).1;
            lemma_pre_from(g, s, vis, (fuel - 1) as nat);
            lemma_pre_succs(g, b, k + 1, v2, fuel);
            let o = o1 + o2;
            assert(dfs_succs(g, b, k, vis, false, fuel).1 == o);
            assert forall|j: int| 0 <= j < o.len() implies g[b as int].contains(o[j])
                || after_a_predecessor(g, o, j) by {
                if j == 0 {
                    assert(o[0] == s);
                    assert(g[b as int][k as int] == s);
                } else if j < o1.len() {
                    assert(after_a_predecessor(g, o1, j));
                    let i = choose|i: int| 0 <= i < j && #[trigger] g[o1[i] as int].contains(o1[j]);
                    assert(o[i] == o1[i] && o[j] == o1[j]);
                } else {
                    assert(o[j] == o2[j - o1.len()]);
                    assert(g[b as int].contains(o2[j - o1.len()]) || after_a_predecessor(g, o2, j - o1.len()));
                    if !g[b as int].contains(o[j]) {
                        let i = choose|i: int|
                            0 <= i < j - o1.len() && #[trigger] g[o2[i] as int].contains(
                                o2[j - o1.len()],
                            );
                        assert(o[i + o1.len()] == o2[i]);
                        assert(g[o[i + o1.len()] as int].contains(o[j]));
                    }
                }
            }
        }
    }
}

proof fn lemma_post_from(g: Seq<Seq<BlockId>>, b: BlockId, vis: Seq<bool>, fuel: nat)
    ensures
        dfs_from(g, b, vis, true, fuel).1.len() > 0,
        dfs_from(g, b, vis, true, fuel).1.last() == b,
        forall|j: int|
            0 <= j < dfs_from(g, b, vis, true, fuel).1.len() - 1 ==> before_a_predecessor(
                g,
                dfs_from(g, b, vis, true, fuel).1,
                j,
            ),
    decreases fuel, g[b as int].len() + 1,
{
    let o2 = dfs_succs(g, b, 0, vis.update(b as int, true), true, fuel).1;
    lemma_post_succs(g, b, 0, vis.update(b as int, true), fuel);
    let o = o2.push(b);
    assert forall|j: int| 0 <= j < o.len() - 1 implies before_a_predecessor(g, o, j) by {
        assert(o[j] == o2[j]);
        assert(g[b as int].contains(o2[j]) || before_a_predecessor(g, o2, j));
        if g[b as int].contains(o2[j]) {
            assert(g[o[o.len() - 1] as int].contains(o[j]));
        } else {
            let i = choose|i: int| j < i < o2.len() && #[trigger] g[o2[i] as int].contains(o2[j]);
            assert(o[i] == o2[i]);
        }
    }
}

proof fn lemma_post_succs(g: Seq<Seq<BlockId>>, b: BlockId, k: nat, vis: Seq<bool>, fuel: nat)
    ensures
        forall|j: int|
            0 <= j < dfs_succs(g, b, k, vis, true, fuel).1.len() ==> g[b as int].contains(
                dfs_succs(g, b, k, vis, true, fuel).1[j],
            ) || before_a_predecessor(g, dfs_succs(g, b, k, vis, true, fuel).1, j),
    decreases fuel, g[b as int].len() - k,
{
    if k < g[b as int].len() {
        let s = g[b as int][k as int];
        if vis[s as int] || fuel == 0 {
            lemma_post_succs(g, b, k + 1, vis, fuel);
            assert(dfs_succs(g, b, k, vis, true, fuel) == dfs_succs(g, b, k + 1, vis, true, fuel));
        } else {
            let (v2, o1) = dfs_from(g, s, vis, true, (fuel - 1) as nat);
            let o2 = dfs_succs(g, b, k + 1, v2, true, fuel).1;
            lemma_post_from(g, s, vis, (fuel - 1) as nat);
            lemma_post_succs(g, b, k + 1, v2, fuel);
            let o = o1 + o2;
            assert(dfs_succs(g, b, k, vis, true, fuel).1 == o);
            assert forall|j: int| 0 <= j < o.len() implies g[b as int].contains(o[j])
                || before_a_predecessor(g, o, j) by {
                if j == o1.len() - 1 {
                    assert(o[j] == s);
                    assert(g[b as int][k as int] == s);
                } else if j < o1.len() {
                    assert(before_a_predecessor(g, o1, j));
                    let i = choose|i: int| j < i < o1.len() && #[trigger] g[o1[i] as int].contains(o1[j]);
                    assert(o[i] == o1[i] && o[j] == o1[j]);
                } else {
                    assert(o[j] == o2[j - o1.len()]);
                    assert(g[b as int].contains(o2[j - o1.len()]) || before_a_predecessor(g, o2, j - o1.len()));
                    if !g[b as int].contains(o[j]) {
                        let i = choose|i: int|
                            j - o1.len() < i < o2.len() && #[trigger] g[o2[i] as int].contains(
                                o2[j - o1.len()],
                            );
                        assert(o[i + o1.len()] == o2[i]);
                        assert(g[o[i + o1.len()] as int].contains(o[j]));
                    }
                }
            }
        }
    }
}

/// In the depth-first preorder every block but the entry, which comes first, comes after
/// one of its predecessors; in the postorder every block but the entry, which comes last,
/// comes before one of its predecessors.
pub proof fn lemma_search_orders_follow_edges(g: Seq<Seq<BlockId>>)
    ensures
        dfs_order(g, false)[0] == 0,
        forall|j: int| 0 < j < dfs_order(g, false).len() ==> after_a_predecessor(g, dfs_order(g, false), j),
        dfs_order(g, true).last() == 0,
        forall|j: int|
            0 <= j < dfs_order(g, true).len() - 1 ==> before_a_predecessor(g, dfs_order(g, true), j),
{
    let v = none_visited(g.len());
    lemma_pre_from(g, 0, v, count_false(v));
    lemma_post_from(g, 0, v, count_false(v));
}

} // verus!
