//! Control-flow graph analysis of a region's basic blocks.

use vstd::prelude::*;
use std::collections::{HashMap, HashSet};
use super::types::{BasicBlock, ControlFlowStructure, successors_of};

verus! {

broadcast use vstd::std_specs::hash::group_hash_axioms;

/// The elements of a set of addresses, each once.
fn set_to_vec(s: &HashSet<u32>) -> (v: Vec<u32>)
    ensures
        v@.to_set() == s@,
        v@.no_duplicates(),
{
    let mut v: Vec<u32> = Vec::new();
    for x in it: s.iter()
        invariant
            it.seq().unref().to_set() == s@,
            it.seq().unref().no_duplicates(),
            v@ == it.seq().unref().take(it.index() as int),
            v@.to_set() =~= it.seq().unref().take(it.index() as int).to_set(),
            it.index() == it.seq().len() ==> v@.to_set() == s@ && v@.no_duplicates(),
            v@.no_duplicates(),
    {
        v.push(*x);
        assert(v@ =~= it.seq().unref().take(it.index() + 1));
        assert(it.index() + 1 == it.seq().len() ==> v@ =~= it.seq().unref());
    }
    v
}

/// Control flow graph: the successors of each block, by address.
pub type CfgGraph = HashMap<u32, HashSet<u32>>;

/// The graph of a sequence of blocks: each block's address maps to the set
/// of its successors (a later block with the same address replaces an earlier one).
pub open spec fn cfg_of(blocks: Seq<BasicBlock>) -> Map<u32, Set<u32>>
    decreases blocks.len(),
{
    if blocks.len() == 0 {
        Map::empty()
    } else {
        cfg_of(blocks.drop_last()).insert(blocks.last().addr, successors_of(blocks.last().ty).to_set())
    }
}

/// The edges of a graph.
pub open spec fn edge(g: Map<u32, HashSet<u32>>, a: u32, b: u32) -> bool {
    g.dom().contains(a) && g[a]@.contains(b)
}

/// The nodes of a graph: its keys and every successor named.
pub open spec fn nodes(g: Map<u32, HashSet<u32>>) -> Set<u32> {
    g.dom() + Set::new(|b: u32| exists|a: u32| #[trigger] edge(g, a, b))
}

/// The keys of a graph, each once.
fn keys_of(graph: &CfgGraph) -> (v: Vec<u32>)
    ensures
        v@.to_set() == graph@.dom(),
        v@.no_duplicates(),
{
    let mut v: Vec<u32> = Vec::new();
    for x in it: graph.keys()
        invariant
            it.seq().unref().to_set() == graph@.dom(),
            it.seq().unref().no_duplicates(),
            v@ == it.seq().unref().take(it.index() as int),
            v@.to_set() =~= it.seq().unref().take(it.index() as int).to_set(),
            it.index() == it.seq().len() ==> v@.to_set() == graph@.dom() && v@.no_duplicates(),
            v@.no_duplicates(),
    {
        v.push(*x);
        assert(v@ =~= it.seq().unref().take(it.index() + 1));
        assert(it.index() + 1 == it.seq().len() ==> v@ =~= it.seq().unref());
    }
    v
}

/// The successors of `node`, each once (none when it is not a key).
fn successors_vec(graph: &CfgGraph, node: u32) -> (v: Vec<u32>)
    ensures
        forall|b: u32| v@.contains(b) <==> edge(graph@, node, b),
        v@.no_duplicates(),
{
    match graph.get(&node) {
        Some(succs) => {
            let v = set_to_vec(succs);
            proof {
                assert forall|b: u32| v@.contains(b) <==> edge(graph@, node, b) by {
                    assert(v@.contains(b) <==> v@.to_set().contains(b));
                }
            }
            v
        },
        None => Vec::new(),
    }
}

/// Build the graph of a sequence of blocks.
pub fn build_cfg(blocks: &[BasicBlock]) -> (graph: CfgGraph)
    ensures
        graph@.dom() == cfg_of(blocks@).dom(),
        forall|k: u32| #[trigger] graph@.contains_key(k) ==> graph@[k]@ == cfg_of(blocks@)[k],
{
    let mut graph: CfgGraph = HashMap::new();
    let mut i: usize = 0;
    while i < blocks.len()
        invariant
            i <= blocks@.len(),
            graph@.dom() == cfg_of(blocks@.take(i as int)).dom(),
            forall|k: u32| #[trigger] graph@.contains_key(k) ==> graph@[k]@ == cfg_of(blocks@.take(i as int))[k],
        decreases blocks@.len() - i,
    {
        let succ_vec = blocks[i].successors();
        let mut succs: HashSet<u32> = HashSet::new();
        let mut j: usize = 0;
        while j < succ_vec.len()
            invariant
                j <= succ_vec@.len(),
                succs@ == succ_vec@.take(j as int).to_set(),
            decreases succ_vec@.len() - j,
        {
            succs.insert(succ_vec[j]);
            assert(succ_vec@.take(j + 1) =~= succ_vec@.take(j as int).push(succ_vec@[j as int]));
            proof { succ_vec@.take(j as int).lemma_push_to_set_commute(succ_vec@[j as int]); }
            assert(succs@ =~= succ_vec@.take(j + 1).to_set());
            j = j + 1;
        }
        assert(succ_vec@.take(succ_vec@.len() as int) =~= succ_vec@);
        graph.insert(blocks[i].addr, succs);
        assert(blocks@.take(i + 1).drop_last() =~= blocks@.take(i as int));
        i = i + 1;
    }
    assert(blocks@.take(blocks@.len() as int) =~= blocks@);
    graph
}

/// The graph with every edge reversed; every node of the graph is a key.
fn reverse_graph(graph: &CfgGraph) -> (rev: CfgGraph)
    ensures
        rev@.dom() == nodes(graph@),
        forall|a: u32, b: u32| #[trigger] edge(rev@, b, a) <==> edge(graph@, a, b),
{
    let keys = keys_of(graph);
    let mut rev: CfgGraph = HashMap::new();
    let mut i: usize = 0;
    while i < keys.len()
        invariant
            i <= keys@.len(),
            keys@.to_set() == graph@.dom(),
            rev@.dom() == keys@.take(i as int).to_set(),
            forall|k: u32| #[trigger] rev@.contains_key(k) ==> rev@[k]@ == Set::<u32>::empty(),
        decreases keys@.len() - i,
    {
        let k = keys[i];
        if !rev.contains_key(&k) {
            rev.insert(k, HashSet::new());
        }
        assert(keys@.take(i + 1) =~= keys@.take(i as int).push(k));
        proof { keys@.take(i as int).lemma_push_to_set_commute(k); }
        assert(rev@.dom() =~= keys@.take(i + 1).to_set());
        i = i + 1;
    }
    assert(keys@.take(keys@.len() as int) =~= keys@);
    let mut i: usize = 0;
    while i < keys.len()
        invariant
            i <= keys@.len(),
            keys@.to_set() == graph@.dom(),
            rev@.dom() == graph@.dom() + Set::new(|b: u32| exists|j: int| 0 <= j < i && #[trigger] edge(graph@, keys@[j], b)),
            forall|a: u32, b: u32| #[trigger] edge(rev@, b, a) <==>
                (edge(graph@, a, b) && exists|j: int| 0 <= j < i && keys@[j] == a),
        decreases keys@.len() - i,
    {
        let from = keys[i];
        let tos = successors_vec(graph, from);
        let mut j: usize = 0;
        while j < tos.len()
            invariant
                i < keys@.len(),
                from == keys@[i as int],
                j <= tos@.len(),
                keys@.to_set() == graph@.dom(),
                forall|b: u32| tos@.contains(b) <==> edge(graph@, from, b),
                rev@.dom() == graph@.dom() + Set::new(|b: u32| exists|jj: int| 0 <= jj < i && #[trigger] edge(graph@, keys@[jj], b))
                    + tos@.take(j as int).to_set(),
                forall|a: u32, b: u32| #[trigger] edge(rev@, b, a) <==>
                    (edge(graph@, a, b) && ((exists|jj: int| 0 <= jj < i && keys@[jj] == a)
                        || (a == from && tos@.take(j as int).contains(b)))),
            decreases tos@.len() - j,
        {
            let to = tos[j];
            let ghost before = rev@;
            let mut preds: HashSet<u32> = match rev.remove(&to) {
                Some(p) => p,
                None => HashSet::new(),
            };
            assert(preds@ == if before.contains_key(to) { before[to]@ } else { Set::<u32>::empty() });
            preds.insert(from);
            rev.insert(to, preds);
            assert(tos@.take(j + 1) =~= tos@.take(j as int).push(to));
            proof { tos@.take(j as int).lemma_push_to_set_commute(to); }
            assert(tos@[j as int] == to);
            assert(tos@.contains(to));
            assert(edge(graph@, from, to));
            assert(tos@.take(j + 1)[j as int] == to);
            assert(tos@.take(j + 1).contains(to));
            assert forall|a: u32, b: u32| #[trigger] edge(rev@, b, a) <==>
                (edge(graph@, a, b) && ((exists|jj: int| 0 <= jj < i && keys@[jj] == a)
                    || (a == from && tos@.take(j + 1).contains(b)))) by {
                if b == to {
                    assert(edge(rev@, b, a) <==> (edge(before, b, a) || a == from));
                    if a == from {
                        assert(edge(graph@, a, b));
                    }
                } else {
                    assert(edge(rev@, b, a) <==> edge(before, b, a));
                    assert(tos@.take(j + 1).contains(b) <==> tos@.take(j as int).contains(b));
                }
            }
            assert(rev@.dom() =~= graph@.dom() + Set::new(|b: u32| exists|jj: int| 0 <= jj < i && #[trigger] edge(graph@, keys@[jj], b))
                + tos@.take(j + 1).to_set());
            j = j + 1;
        }
        assert(tos@.take(tos@.len() as int) =~= tos@);
        assert(rev@.dom() =~= graph@.dom() + Set::new(|b: u32| exists|jj: int| 0 <= jj < i + 1 && #[trigger] edge(graph@, keys@[jj], b)));
        i = i + 1;
    }
    assert(rev@.dom() =~= nodes(graph@));
    rev
}

/// A visited set strictly grew: it is strictly bigger (sets of addresses are finite).
pub(crate) proof fn lemma_grew(small: Set<u32>, big: Set<u32>, x: u32)
    requires
        small.subset_of(big),
        !small.contains(x),
        big.contains(x),
    ensures
        small.len() < big.len(),
        big.len() <= Set::<u32>::full().len(),
{
    broadcast use vstd::set_lib::full_set_properties;
    assert(big.subset_of(Set::<u32>::full()));
    vstd::set_lib::lemma_len_subset(big, Set::<u32>::full());
    small.lemma_subset_not_in_lt(big, x);
}

/// The edge from the `i`-th node of `p` to the next is in `g`.
pub open spec fn step_in(g: Map<u32, HashSet<u32>>, p: Seq<u32>, i: int) -> bool {
    edge(g, p[i], p[i + 1])
}

/// `p` is a non-empty path of `g`.
pub open spec fn is_path(g: Map<u32, HashSet<u32>>, p: Seq<u32>) -> bool {
    &&& p.len() >= 1
    &&& forall|i: int| 0 <= i < p.len() - 1 ==> #[trigger] step_in(g, p, i)
}

/// `b` is reachable from `a` in `g` (in zero or more edges).
pub open spec fn reaches(g: Map<u32, HashSet<u32>>, a: u32, b: u32) -> bool {
    exists|p: Seq<u32>| #[trigger] is_path(g, p) && p[0] == a && p.last() == b
}

/// Every node reaches itself.
pub proof fn lemma_reaches_self(g: Map<u32, HashSet<u32>>, a: u32)
    ensures
        reaches(g, a, a),
{
    assert(is_path(g, seq![a]));
}

/// A path to `x` followed by an edge from `x` to `b` reaches `b`.
pub proof fn lemma_reaches_step(g: Map<u32, HashSet<u32>>, a: u32, x: u32, b: u32)
    requires
        reaches(g, a, x),
        edge(g, x, b),
    ensures
        reaches(g, a, b),
{
    let p = choose|p: Seq<u32>| #[trigger] is_path(g, p) && p[0] == a && p.last() == x;
    let q = p.push(b);
    assert forall|i: int| 0 <= i < q.len() - 1 implies #[trigger] step_in(g, q, i) by {
        if i < p.len() - 1 {
            assert(step_in(g, p, i));
            assert(q[i] == p[i] && q[i + 1] == p[i + 1]);
        } else {
            assert(q[i] == x && q[i + 1] == b);
        }
    }
    assert(is_path(g, q));
}

/// Reachability carries over to a graph with at least the same edges.
pub proof fn lemma_reaches_sub(g1: Map<u32, HashSet<u32>>, g2: Map<u32, HashSet<u32>>, a: u32, b: u32)
    requires
        reaches(g1, a, b),
        forall|x: u32, y: u32| #[trigger] edge(g1, x, y) ==> edge(g2, x, y),
    ensures
        reaches(g2, a, b),
{
    let p = choose|p: Seq<u32>| #[trigger] is_path(g1, p) && p[0] == a && p.last() == b;
    assert forall|i: int| 0 <= i < p.len() - 1 implies #[trigger] step_in(g2, p, i) by {
        assert(step_in(g1, p, i));
    }
    assert(is_path(g2, p));
}

/// Paths compose: what `b` reaches, `a` reaches when it reaches `b`.
pub proof fn lemma_reaches_trans(g: Map<u32, HashSet<u32>>, a: u32, b: u32, c: u32)
    requires
        reaches(g, a, b),
        reaches(g, b, c),
    ensures
        reaches(g, a, c),
{
    let p1 = choose|p: Seq<u32>| #[trigger] is_path(g, p) && p[0] == a && p.last() == b;
    let p2 = choose|p: Seq<u32>| #[trigger] is_path(g, p) && p[0] == b && p.last() == c;
    let q = p1 + p2.drop_first();
    assert forall|i: int| 0 <= i < q.len() - 1 implies #[trigger] step_in(g, q, i) by {
        if i < p1.len() - 1 {
            assert(step_in(g, p1, i));
            assert(q[i] == p1[i] && q[i + 1] == p1[i + 1]);
        } else {
            let k = i - (p1.len() - 1);
            assert(step_in(g, p2, k));
            assert(q[i] == p2[k] && q[i + 1] == p2[k + 1]);
        }
    }
    assert(is_path(g, q));
    assert(q[0] == a);
    if p2.len() == 1 {
        assert(q =~= p1);
    } else {
        assert(q.last() == p2.last());
    }
}

/// `a` and `b` reach each other in `g`.
pub open spec fn mutual(g: Map<u32, HashSet<u32>>, a: u32, b: u32) -> bool {
    reaches(g, a, b) && reaches(g, b, a)
}

/// Every node that `x` reaches in `g`.
pub open spec fn reach_set(g: Map<u32, HashSet<u32>>, x: u32) -> Set<u32> {
    Set::new(|y: u32| reaches(g, x, y))
}

/// Nodes that reach each other reach the same nodes.
pub proof fn lemma_mutual_same_reach(g: Map<u32, HashSet<u32>>, a: u32, b: u32)
    requires
        mutual(g, a, b),
    ensures
        reach_set(g, a) == reach_set(g, b),
{
    assert forall|y: u32| reach_set(g, a).contains(y) == reach_set(g, b).contains(y) by {
        if reaches(g, a, y) {
            lemma_reaches_trans(g, b, a, y);
        }
        if reaches(g, b, y) {
            lemma_reaches_trans(g, a, b, y);
        }
    }
    assert(reach_set(g, a) =~= reach_set(g, b));
}

/// Every node of a path starting in a set closed under the edges is in it.
proof fn lemma_path_in(g: Map<u32, HashSet<u32>>, s: Set<u32>, p: Seq<u32>, i: int)
    requires
        is_path(g, p),
        s.contains(p[0]),
        forall|a: u32, b: u32| s.contains(a) && #[trigger] edge(g, a, b) ==> s.contains(b),
        0 <= i < p.len(),
    ensures
        s.contains(p[i]),
    decreases i,
{
    if i > 0 {
        lemma_path_in(g, s, p, i - 1);
        assert(step_in(g, p, i - 1));
    }
}

/// A set holding `x` and closed under the edges holds all that `x` reaches.
proof fn lemma_closed_has_reach(g: Map<u32, HashSet<u32>>, s: Set<u32>, x: u32, y: u32)
    requires
        s.contains(x),
        forall|a: u32, b: u32| s.contains(a) && #[trigger] edge(g, a, b) ==> s.contains(b),
        reaches(g, x, y),
    ensures
        s.contains(y),
{
    let p = choose|p: Seq<u32>| #[trigger] is_path(g, p) && p[0] == x && p.last() == y;
    lemma_path_in(g, s, p, p.len() - 1);
}

/// In a graph whose nodes are all keys, what a key reaches is a key.
proof fn lemma_reach_in_dom(g: Map<u32, HashSet<u32>>, x: u32, y: u32)
    requires
        g.dom().contains(x),
        nodes(g) == g.dom(),
        reaches(g, x, y),
    ensures
        g.dom().contains(y),
{
    let p = choose|p: Seq<u32>| #[trigger] is_path(g, p) && p[0] == x && p.last() == y;
    if p.len() > 1 {
        assert(step_in(g, p, p.len() - 2));
        assert(nodes(g).contains(y));
    }
}

/// Every node that `x` reaches in the graph `g`, whose nodes are all keys.
fn reach_from(g: &CfgGraph, x: u32) -> (r: HashSet<u32>)
    requires
        g@.dom().contains(x),
        nodes(g@) == g@.dom(),
    ensures
        r@ == reach_set(g@, x),
{
    let mut seen: HashSet<u32> = HashSet::new();
    let mut stack: Vec<u32> = Vec::new();
    seen.insert(x);
    stack.push(x);
    proof {
        lemma_reaches_self(g@, x);
        assert(stack@[0] == x);
        assert(stack@.contains(x));
        assert forall|a: u32| seen@.contains(a) implies a == x by {}
    }
    while stack.len() > 0
        invariant
            nodes(g@) == g@.dom(),
            seen@.contains(x),
            forall|y: u32| #[trigger] seen@.contains(y) ==> reaches(g@, x, y),
            forall|y: u32| stack@.contains(y) ==> #[trigger] seen@.contains(y),
            forall|a: u32, b: u32| seen@.contains(a) && !stack@.contains(a) && #[trigger] edge(g@, a, b)
                ==> seen@.contains(b),
        decreases Set::<u32>::full().len() - seen@.len(), stack@.len(),
    {
        let ghost st0 = stack@;
        let y = stack.pop().unwrap();
        proof {
            assert(st0.last() == y);
            assert(stack@ =~= st0.drop_last());
            assert forall|z: u32| st0.contains(z) && z != y implies stack@.contains(z) by {
                let j = choose|j: int| 0 <= j < st0.len() && st0[j] == z;
                assert(j < st0.len() - 1);
                assert(stack@[j] == z);
            }
            assert(st0.contains(y)) by { assert(st0[st0.len() - 1] == y); }
        }
        let succs = successors_vec(g, y);
        proof {
            assert(seen@.contains(y));
            lemma_grew_len(seen@, seen@);
        }
        let ghost seen_start = seen@;
        let ghost stack_start = stack@;
        let mut i: usize = 0;
        while i < succs.len()
            invariant
                nodes(g@) == g@.dom(),
                0 <= i <= succs@.len(),
                forall|b: u32| succs@.contains(b) <==> edge(g@, y, b),
                seen@.contains(y),
                seen@.contains(x),
                reaches(g@, x, y),
                seen_start.subset_of(seen@),
                forall|z: u32| stack_start.contains(z) ==> stack@.contains(z),
                forall|z: u32| #[trigger] seen@.contains(z) ==> reaches(g@, x, z),
                forall|z: u32| stack@.contains(z) ==> #[trigger] seen@.contains(z),
                forall|z: u32| seen@.contains(z) && !seen_start.contains(z) ==> stack@.contains(z),
                forall|j: int| 0 <= j < i ==> seen@.contains(#[trigger] succs@[j]),
                seen_start.len() <= seen@.len(),
                stack@.len() >= stack_start.len(),
                seen@.len() == seen_start.len() ==> stack@ == stack_start,
                seen@.len() <= Set::<u32>::full().len(),
            decreases succs@.len() - i,
        {
            let b = succs[i];
            assert(succs@.contains(b));
            if !seen.contains(&b) {
                let ghost sv = seen@;
                let ghost sk = stack@;
                proof { lemma_reaches_step(g@, x, y, b); }
                seen.insert(b);
                proof { lemma_grew(sv, seen@, b); }
                stack.push(b);
                proof {
                    assert(stack@.last() == b);
                    assert forall|z: u32| sk.contains(z) implies stack@.contains(z) by {
                        let j = choose|j: int| 0 <= j < sk.len() && sk[j] == z;
                        assert(stack@[j] == z);
                    }
                    assert(stack@.contains(b)) by { assert(stack@[stack@.len() - 1] == b); }
                }
            }
            i = i + 1;
        }
        proof {
            assert forall|a: u32, b: u32| seen@.contains(a) && !stack@.contains(a) && #[trigger] edge(g@, a, b)
                implies seen@.contains(b) by {
                if a == y {
                    assert(succs@.contains(b));
                    let j = choose|j: int| 0 <= j < succs@.len() && succs@[j] == b;
                    assert(seen@.contains(succs@[j]));
                } else if seen_start.contains(a) {
                    assert(!st0.contains(a));
                    assert(seen_start.contains(b));
                }
            }
            if seen@.len() == seen_start.len() {
                assert(stack@ == stack_start);
            } else {
                lemma_grew_len(seen_start, seen@);
            }
        }
    }
    proof {
        assert forall|y: u32| seen@.contains(y) == reach_set(g@, x).contains(y) by {
            if reaches(g@, x, y) {
                lemma_closed_has_reach(g@, seen@, x, y);
            }
        }
        assert(seen@ =~= reach_set(g@, x));
    }
    seen
}

/// A set of addresses that gained elements bounded by the full set.
proof fn lemma_grew_len(small: Set<u32>, big: Set<u32>)
    requires
        small.subset_of(big),
    ensures
        big.len() <= Set::<u32>::full().len(),
        small.len() <= big.len(),
{
    broadcast use vstd::set_lib::full_set_properties;
    assert(big.subset_of(Set::<u32>::full()));
    vstd::set_lib::lemma_len_subset(big, Set::<u32>::full());
    vstd::set_lib::lemma_len_subset(small, big);
}

/// The nodes `x` such that `rep` and `x` reach each other are exactly the
/// members of `comp`, all of them keys of `keys`.
pub open spec fn is_class(g: Map<u32, HashSet<u32>>, keys: Seq<u32>, rep: u32, comp: Seq<u32>) -> bool {
    forall|x: u32| #[trigger] comp.contains(x) <==> (keys.contains(x) && mutual(g, rep, x))
}

/// Strongly connected components, in reverse topological order (leaves
/// first): for an edge from one component to another, the target's
/// component comes first. Each component is a maximal set of nodes that
/// reach each other; the components are non-empty, no node is in two of
/// them or twice in one, and together they hold exactly the nodes of the
/// graph. Components are found by increasing number of nodes reached, which
/// puts every component after those it reaches.
pub fn find_sccs(graph: &CfgGraph) -> (sccs: Vec<Vec<u32>>)
    ensures
        forall|k: int| 0 <= k < sccs@.len() ==> #[trigger] sccs@[k]@.len() > 0,
        forall|k: int| 0 <= k < sccs@.len() ==> #[trigger] sccs@[k]@.no_duplicates(),
        forall|k1: int, k2: int, x: u32| 0 <= k1 < sccs@.len() && 0 <= k2 < sccs@.len()
            && #[trigger] sccs@[k1]@.contains(x) && #[trigger] sccs@[k2]@.contains(x) ==> k1 == k2,
        forall|x: u32| nodes(graph@).contains(x)
            ==> exists|k: int| 0 <= k < sccs@.len() && #[trigger] sccs@[k]@.contains(x),
        forall|k: int, x: u32| 0 <= k < sccs@.len() && #[trigger] sccs@[k]@.contains(x) ==> nodes(graph@).contains(x),
        forall|k: int, x: u32, y: u32| 0 <= k < sccs@.len() && #[trigger] sccs@[k]@.contains(x)
            && #[trigger] sccs@[k]@.contains(y) ==> reaches(graph@, x, y),
        forall|k: int, x: u32, y: u32| #![trigger sccs@[k]@.contains(x), mutual(graph@, x, y)]
            0 <= k < sccs@.len() && sccs@[k]@.contains(x) && mutual(graph@, x, y) ==> sccs@[k]@.contains(y),
        forall|i: int, j: int, u: u32, v: u32| 0 <= i < sccs@.len() && 0 <= j < sccs@.len()
            && #[trigger] sccs@[i]@.contains(u) && #[trigger] sccs@[j]@.contains(v) && edge(graph@, u, v) && i != j
            ==> j < i,
{
    let rev = reverse_graph(graph);
    proof {
        assert forall|x: u32| nodes(rev@).contains(x) implies rev@.dom().contains(x) by {
            if !rev@.dom().contains(x) {
                let a = choose|a: u32| #[trigger] edge(rev@, a, x);
                assert(edge(graph@, x, a));
            }
        }
        assert(nodes(rev@) =~= rev@.dom());
    }
    let fwd = reverse_graph(&rev);
    proof {
        assert forall|x: u32| nodes(fwd@).contains(x) implies fwd@.dom().contains(x) by {
            if !fwd@.dom().contains(x) {
                let a = choose|a: u32| #[trigger] edge(fwd@, a, x);
                assert(edge(rev@, x, a));
            }
        }
        assert(nodes(fwd@) =~= fwd@.dom());
        assert forall|x: u32, y: u32| #[trigger] edge(fwd@, x, y) <==> edge(graph@, x, y) by {
            assert(edge(fwd@, x, y) <==> edge(rev@, y, x));
        }
    }
    let keys = keys_of(&fwd);
    let n = keys.len();
    let mut rs: Vec<HashSet<u32>> = Vec::new();
    let mut sz: Vec<usize> = Vec::new();
    let mut maxsz: usize = 0;
    let mut i: usize = 0;
    while i < n
        invariant
            n == keys@.len(),
            keys@.to_set() == fwd@.dom(),
            nodes(fwd@) == fwd@.dom(),
            i <= n,
            rs@.len() == i,
            sz@.len() == i,
            forall|j: int| 0 <= j < i ==> #[trigger] rs@[j]@ == reach_set(fwd@, keys@[j]),
            forall|j: int| 0 <= j < i ==> #[trigger] sz@[j] == reach_set(fwd@, keys@[j]).len(),
            forall|j: int| 0 <= j < i ==> #[trigger] sz@[j] <= maxsz,
        decreases n - i,
    {
        assert(keys@.to_set().contains(keys@[i as int]));
        let r = reach_from(&fwd, keys[i]);
        let l = r.len();
        sz.push(l);
        if l > maxsz {
            maxsz = l;
        }
        rs.push(r);
        i = i + 1;
    }
    let mut assigned: HashSet<u32> = HashSet::new();
    let mut sccs: Vec<Vec<u32>> = Vec::new();
    let ghost mut reps: Seq<u32> = Seq::empty();
    let mut s: usize = 0;
    loop
        invariant
            n == keys@.len(),
            keys@.to_set() == fwd@.dom(),
            keys@.no_duplicates(),
            nodes(fwd@) == fwd@.dom(),
            rs@.len() == n,
            sz@.len() == n,
            forall|j: int| 0 <= j < n ==> #[trigger] rs@[j]@ == reach_set(fwd@, keys@[j]),
            forall|j: int| 0 <= j < n ==> #[trigger] sz@[j] == reach_set(fwd@, keys@[j]).len(),
            forall|j: int| 0 <= j < n ==> #[trigger] sz@[j] <= maxsz,
            s <= maxsz,
            sccs@.len() == reps.len(),
            forall|k: int| 0 <= k < reps.len() ==> keys@.contains(#[trigger] reps[k]),
            forall|k: int| 0 <= k < reps.len() ==> #[trigger] is_class(fwd@, keys@, reps[k], sccs@[k]@),
            forall|k: int| 0 <= k < reps.len() ==> #[trigger] sccs@[k]@.no_duplicates(),
            forall|x: u32| #[trigger] assigned@.contains(x)
                <==> exists|k: int| 0 <= k < reps.len() && #[trigger] sccs@[k]@.contains(x),
            forall|k1: int, k2: int| 0 <= k1 < reps.len() && 0 <= k2 < reps.len() && k1 != k2
                ==> !mutual(fwd@, #[trigger] reps[k1], #[trigger] reps[k2]),
            forall|k: int| 0 <= k < reps.len() ==> reach_set(fwd@, #[trigger] reps[k]).len() <= s,
            forall|k1: int, k2: int| 0 <= k1 <= k2 < reps.len()
                ==> reach_set(fwd@, #[trigger] reps[k1]).len() <= reach_set(fwd@, #[trigger] reps[k2]).len(),
            forall|jj: int| 0 <= jj < n && sz@[jj] < s ==> assigned@.contains(#[trigger] keys@[jj]),
        ensures
            sccs@.len() == reps.len(),
            forall|k: int| 0 <= k < reps.len() ==> keys@.contains(#[trigger] reps[k]),
            forall|k: int| 0 <= k < reps.len() ==> #[trigger] is_class(fwd@, keys@, reps[k], sccs@[k]@),
            forall|k: int| 0 <= k < reps.len() ==> #[trigger] sccs@[k]@.no_duplicates(),
            forall|x: u32| #[trigger] assigned@.contains(x)
                <==> exists|k: int| 0 <= k < reps.len() && #[trigger] sccs@[k]@.contains(x),
            forall|k1: int, k2: int| 0 <= k1 < reps.len() && 0 <= k2 < reps.len() && k1 != k2
                ==> !mutual(fwd@, #[trigger] reps[k1], #[trigger] reps[k2]),
            forall|k1: int, k2: int| 0 <= k1 <= k2 < reps.len()
                ==> reach_set(fwd@, #[trigger] reps[k1]).len() <= reach_set(fwd@, #[trigger] reps[k2]).len(),
            forall|jj: int| 0 <= jj < n ==> assigned@.contains(#[trigger] keys@[jj]),
        decreases maxsz - s,
    {
        let mut j: usize = 0;
        while j < n
            invariant
                n == keys@.len(),
                keys@.to_set() == fwd@.dom(),
                keys@.no_duplicates(),
                nodes(fwd@) == fwd@.dom(),
                rs@.len() == n,
                sz@.len() == n,
                forall|j: int| 0 <= j < n ==> #[trigger] rs@[j]@ == reach_set(fwd@, keys@[j]),
                forall|j: int| 0 <= j < n ==> #[trigger] sz@[j] == reach_set(fwd@, keys@[j]).len(),
                forall|j: int| 0 <= j < n ==> #[trigger] sz@[j] <= maxsz,
                s <= maxsz,
                j <= n,
                sccs@.len() == reps.len(),
                forall|k: int| 0 <= k < reps.len() ==> keys@.contains(#[trigger] reps[k]),
                forall|k: int| 0 <= k < reps.len() ==> #[trigger] is_class(fwd@, keys@, reps[k], sccs@[k]@),
                forall|k: int| 0 <= k < reps.len() ==> #[trigger] sccs@[k]@.no_duplicates(),
                forall|x: u32| #[trigger] assigned@.contains(x)
                    <==> exists|k: int| 0 <= k < reps.len() && #[trigger] sccs@[k]@.contains(x),
                forall|k1: int, k2: int| 0 <= k1 < reps.len() && 0 <= k2 < reps.len() && k1 != k2
                    ==> !mutual(fwd@, #[trigger] reps[k1], #[trigger] reps[k2]),
                forall|k: int| 0 <= k < reps.len() ==> reach_set(fwd@, #[trigger] reps[k]).len() <= s,
                forall|k1: int, k2: int| 0 <= k1 <= k2 < reps.len()
                    ==> reach_set(fwd@, #[trigger] reps[k1]).len() <= reach_set(fwd@, #[trigger] reps[k2]).len(),
                forall|jj: int| 0 <= jj < n && (sz@[jj] < s || (sz@[jj] == s && jj < j))
                    ==> assigned@.contains(#[trigger] keys@[jj]),
            decreases n - j,
        {
            if sz[j] == s && !assigned.contains(&keys[j]) {
                let rep = keys[j];
                let ghost a0 = assigned@;
                let mut comp: Vec<u32> = Vec::new();
                let mut t: usize = 0;
                while t < n
                    invariant
                        n == keys@.len(),
                        keys@.no_duplicates(),
                        rs@.len() == n,
                        forall|j: int| 0 <= j < n ==> #[trigger] rs@[j]@ == reach_set(fwd@, keys@[j]),
                        j < n,
                        rep == keys@[j as int],
                        t <= n,
                        forall|x: u32| #[trigger] comp@.contains(x) <==> (keys@.take(t as int).contains(x) && mutual(fwd@, rep, x)),
                        comp@.no_duplicates(),
                        forall|x: u32| #[trigger] assigned@.contains(x) <==> (a0.contains(x) || comp@.contains(x)),
                    decreases n - t,
                {
                    let x = keys[t];
                    let ghost tk0 = keys@.take(t as int);
                    let ghost tk1 = keys@.take(t + 1);
                    proof {
                        assert(keys@.take(t + 1) =~= keys@.take(t as int).push(x));
                        assert(!keys@.take(t as int).contains(x)) by {
                            if keys@.take(t as int).contains(x) {
                                let q = choose|q: int| 0 <= q < t && keys@.take(t as int)[q] == x;
                                assert(keys@[q] == keys@[t as int]);
                            }
                        }
                    }
                    if rs[j].contains(&x) && rs[t].contains(&rep) {
                        let ghost c0 = comp@;
                        comp.push(x);
                        assigned.insert(x);
                        proof {
                            assert(rs@[j as int]@ == reach_set(fwd@, rep));
                            assert(rs@[t as int]@ == reach_set(fwd@, x));
                            assert(mutual(fwd@, rep, x));
                            assert(keys@.take(t + 1)[t as int] == x);
                            assert(keys@.take(t + 1).contains(x));
                            assert forall|y: u32| tk1.contains(y) && y != x implies tk0.contains(y) by {
                                let q = choose|q: int| 0 <= q < tk1.len() && tk1[q] == y;
                                assert(q < t);
                                assert(tk0[q] == y);
                            }
                            assert forall|y: u32| tk0.contains(y) implies tk1.contains(y) by {
                                let q = choose|q: int| 0 <= q < tk0.len() && tk0[q] == y;
                                assert(tk1[q] == y);
                            }
                            assert(comp@ == c0.push(x));
                            assert forall|y: u32| #[trigger] comp@.contains(y) <==> (keys@.take(t + 1).contains(y) && mutual(fwd@, rep, y)) by {
                                if comp@.contains(y) && y != x {
                                    let q = choose|q: int| 0 <= q < comp@.len() && comp@[q] == y;
                                    assert(c0[q] == y);
                                }
                                if c0.contains(y) {
                                    let q = choose|q: int| 0 <= q < c0.len() && c0[q] == y;
                                    assert(comp@[q] == y);
                                }
                                assert(comp@[c0.len() as int] == x);
                            }
                            assert forall|y: u32| #[trigger] assigned@.contains(y) <==> (a0.contains(y) || comp@.contains(y)) by {
                                if c0.contains(y) {
                                    let q = choose|q: int| 0 <= q < c0.len() && c0[q] == y;
                                    assert(comp@[q] == y);
                                }
                                if comp@.contains(y) && y != x {
                                    let q = choose|q: int| 0 <= q < comp@.len() && comp@[q] == y;
                                    assert(c0[q] == y);
                                }
                                assert(comp@[c0.len() as int] == x);
                            }
                            assert(comp@.no_duplicates()) by {
                                assert(!c0.contains(x));
                                assert forall|a: int, b: int| 0 <= a < b < comp@.len() implies comp@[a] != comp@[b] by {
                                    if b == c0.len() {
                                        assert(comp@[a] == c0[a]);
                                        assert(c0.contains(c0[a]));
                                    }
                                }
                            }
                        }
                    } else {
                        proof {
                            assert forall|y: u32| tk1.contains(y) && y != x implies tk0.contains(y) by {
                                let q = choose|q: int| 0 <= q < tk1.len() && tk1[q] == y;
                                assert(q < t);
                                assert(tk0[q] == y);
                            }
                            assert forall|y: u32| tk0.contains(y) implies tk1.contains(y) by {
                                let q = choose|q: int| 0 <= q < tk0.len() && tk0[q] == y;
                                assert(tk1[q] == y);
                            }
                            assert(!mutual(fwd@, rep, x)) by {
                                assert(rs@[j as int]@ == reach_set(fwd@, rep));
                                assert(rs@[t as int]@ == reach_set(fwd@, x));
                            }
                        }
                    }
                    t = t + 1;
                }
                proof {
                    assert(keys@.take(n as int) =~= keys@);
                    lemma_reaches_self(fwd@, rep);
                    assert(keys@.contains(rep)) by { assert(keys@[j as int] == rep); }
                    assert(comp@.contains(rep));
                    assert forall|k: int| 0 <= k < reps.len() implies !mutual(fwd@, reps[k], rep) by {
                        if mutual(fwd@, reps[k], rep) {
                            assert(is_class(fwd@, keys@, reps[k], sccs@[k]@));
                            assert(sccs@[k]@.contains(rep));
                            assert(a0.contains(rep));
                        }
                    }
                }
                let ghost old_sccs = sccs@;
                let ghost old_reps = reps;
                let ghost cv = comp@;
                sccs.push(comp);
                proof {
                    reps = reps.push(rep);
                    assert(sccs@[old_sccs.len() as int]@ == cv);
                    assert forall|k: int| 0 <= k < old_reps.len() implies #[trigger] sccs@[k] == old_sccs[k] by {}
                    assert(reach_set(fwd@, rep).len() == s) by {
                        assert(sz@[j as int] == reach_set(fwd@, keys@[j as int]).len());
                    }
                    assert forall|x: u32| #[trigger] assigned@.contains(x)
                        <==> exists|k: int| 0 <= k < reps.len() && #[trigger] sccs@[k]@.contains(x) by {
                        if assigned@.contains(x) {
                            if cv.contains(x) {
                                assert(sccs@[old_reps.len() as int]@.contains(x));
                            } else {
                                let k = choose|k: int| 0 <= k < old_reps.len() && #[trigger] old_sccs[k]@.contains(x);
                                assert(sccs@[k] == old_sccs[k]);
                            }
                        }
                        if exists|k: int| 0 <= k < reps.len() && #[trigger] sccs@[k]@.contains(x) {
                            let k = choose|k: int| 0 <= k < reps.len() && #[trigger] sccs@[k]@.contains(x);
                            if k < old_reps.len() {
                                assert(sccs@[k] == old_sccs[k]);
                                assert(a0.contains(x));
                            }
                        }
                    }
                    assert forall|k1: int, k2: int| 0 <= k1 < reps.len() && 0 <= k2 < reps.len() && k1 != k2
                        implies !mutual(fwd@, #[trigger] reps[k1], #[trigger] reps[k2]) by {
                        if k2 == old_reps.len() {
                            assert(!mutual(fwd@, old_reps[k1], rep));
                        } else if k1 == old_reps.len() {
                            assert(!mutual(fwd@, old_reps[k2], rep));
                        } else {
                            assert(reps[k1] == old_reps[k1] && reps[k2] == old_reps[k2]);
                        }
                    }
                    assert forall|k: int| 0 <= k < reps.len() implies #[trigger] is_class(fwd@, keys@, reps[k], sccs@[k]@) by {
                        if k < old_reps.len() {
                            assert(sccs@[k] == old_sccs[k]);
                            assert(reps[k] == old_reps[k]);
                        }
                    }
                }
            }
            j = j + 1;
        }
        if s == maxsz {
            break;
        }
        s = s + 1;
    }
    proof {
        let f = fwd@;
        let g = graph@;
        assert forall|x: u32, y: u32| #[trigger] edge(f, x, y) ==> edge(g, x, y) by {}
        assert forall|x: u32, y: u32| #[trigger] edge(g, x, y) ==> edge(f, x, y) by {}
        assert forall|k: int| 0 <= k < sccs@.len() implies #[trigger] sccs@[k]@.len() > 0 by {
            lemma_reaches_self(f, reps[k]);
            assert(is_class(f, keys@, reps[k], sccs@[k]@));
            assert(sccs@[k]@.contains(reps[k]));
        }
        assert forall|k1: int, k2: int, x: u32| 0 <= k1 < sccs@.len() && 0 <= k2 < sccs@.len()
            && #[trigger] sccs@[k1]@.contains(x) && #[trigger] sccs@[k2]@.contains(x) implies k1 == k2 by {
            assert(is_class(f, keys@, reps[k1], sccs@[k1]@));
            assert(is_class(f, keys@, reps[k2], sccs@[k2]@));
            lemma_reaches_trans(f, reps[k1], x, reps[k2]);
            lemma_reaches_trans(f, reps[k2], x, reps[k1]);
        }
        assert forall|x: u32| nodes(g).contains(x)
            implies exists|k: int| 0 <= k < sccs@.len() && #[trigger] sccs@[k]@.contains(x) by {
            assert(keys@.to_set().contains(x));
            let jj = choose|jj: int| 0 <= jj < keys@.len() && keys@[jj] == x;
            assert(assigned@.contains(keys@[jj]));
        }
        assert forall|k: int, x: u32| 0 <= k < sccs@.len() && #[trigger] sccs@[k]@.contains(x)
            implies nodes(g).contains(x) by {
            assert(is_class(f, keys@, reps[k], sccs@[k]@));
            assert(keys@.to_set().contains(x));
        }
        assert forall|k: int, x: u32, y: u32| 0 <= k < sccs@.len() && #[trigger] sccs@[k]@.contains(x)
            && #[trigger] sccs@[k]@.contains(y) implies reaches(g, x, y) by {
            assert(is_class(f, keys@, reps[k], sccs@[k]@));
            lemma_reaches_trans(f, x, reps[k], y);
            lemma_reaches_sub(f, g, x, y);
        }
        assert forall|k: int, x: u32, y: u32| #![trigger sccs@[k]@.contains(x), mutual(g, x, y)]
            0 <= k < sccs@.len() && sccs@[k]@.contains(x) && mutual(g, x, y) implies sccs@[k]@.contains(y) by {
            assert(is_class(f, keys@, reps[k], sccs@[k]@));
            lemma_reaches_sub(g, f, x, y);
            lemma_reaches_sub(g, f, y, x);
            lemma_reaches_trans(f, reps[k], x, y);
            lemma_reaches_trans(f, y, x, reps[k]);
            assert(keys@.to_set().contains(x));
            lemma_reach_in_dom(f, x, y);
            assert(keys@.to_set().contains(y));
        }
        assert forall|i: int, j: int, u: u32, v: u32| 0 <= i < sccs@.len() && 0 <= j < sccs@.len()
            && #[trigger] sccs@[i]@.contains(u) && #[trigger] sccs@[j]@.contains(v) && edge(g, u, v) && i != j
            implies j < i by {
            assert(is_class(f, keys@, reps[i], sccs@[i]@));
            assert(is_class(f, keys@, reps[j], sccs@[j]@));
            assert(edge(f, u, v));
            lemma_reaches_self(f, u);
            lemma_reaches_step(f, u, u, v);
            lemma_mutual_same_reach(f, reps[i], u);
            lemma_mutual_same_reach(f, reps[j], v);
            assert(reach_set(f, v).subset_of(reach_set(f, u))) by {
                assert forall|y: u32| reach_set(f, v).contains(y) implies reach_set(f, u).contains(y) by {
                    lemma_reaches_trans(f, u, v, y);
                }
            }
            if reaches(f, v, u) {
                lemma_reaches_trans(f, reps[i], u, v);
                lemma_reaches_trans(f, v, u, reps[i]);
                assert(keys@.to_set().contains(v));
                assert(sccs@[i]@.contains(v));
                lemma_reaches_trans(f, reps[i], v, reps[j]);
                lemma_reaches_trans(f, reps[j], v, reps[i]);
            }
            assert(reach_set(f, u).contains(u));
            assert(!reach_set(f, v).contains(u));
            lemma_grew(reach_set(f, v), reach_set(f, u), u);
            if j > i {
                assert(reach_set(f, reps[i]).len() <= reach_set(f, reps[j]).len());
            }
        }
    }
    sccs
}

/// `s` is the structure of the component `scc`: a lone block, a loop of one
/// block with an edge to itself, or a loop of the component's blocks in order.
pub open spec fn structure_of_scc(s: ControlFlowStructure, g: Map<u32, HashSet<u32>>, scc: Seq<u32>) -> bool {
    match s {
        ControlFlowStructure::Block(a) => scc.len() == 1 && a == scc[0] && !edge(g, a, a),
        ControlFlowStructure::Loop(children) => {
            ||| (scc.len() == 1 && edge(g, scc[0], scc[0]) && children@.len() == 1
                && children@[0] == ControlFlowStructure::Block(scc[0]))
            ||| (scc.len() > 1 && children@.len() == scc.len()
                && forall|i: int| 0 <= i < scc.len() ==> #[trigger] children@[i] == ControlFlowStructure::Block(scc[i]))
        },
        _ => false,
    }
}

/// `r` holds one structure for each non-empty component of `sccs`, in order.
pub open spec fn structures_of(r: Seq<ControlFlowStructure>, g: Map<u32, HashSet<u32>>, sccs: Seq<Vec<u32>>) -> bool
    decreases sccs.len(),
{
    if sccs.len() == 0 {
        r.len() == 0
    } else if sccs.last()@.len() == 0 {
        structures_of(r, g, sccs.drop_last())
    } else {
        &&& r.len() > 0
        &&& structure_of_scc(r.last(), g, sccs.last()@)
        &&& structures_of(r.drop_last(), g, sccs.drop_last())
    }
}

/// Structured control flow from the components: a dispatcher when the region
/// has more than one entry point, then per component a block, or a loop when
/// it has more than one block or a block branching to itself.
pub fn structure_sccs(graph: &CfgGraph, sccs: &[Vec<u32>], entry_points: &[u32]) -> (r: Vec<ControlFlowStructure>)
    ensures
        entry_points@.len() > 1 ==> r@.len() > 0 && (r@[0] matches ControlFlowStructure::Dispatcher(v) && v@ == entry_points@),
        structures_of(r@.subrange(if entry_points@.len() > 1 { 1int } else { 0int }, r@.len() as int), graph@, sccs@),
{
    let mut result: Vec<ControlFlowStructure> = Vec::new();
    if entry_points.len() > 1 {
        let mut entries: Vec<u32> = Vec::new();
        let mut k: usize = 0;
        while k < entry_points.len()
            invariant
                k <= entry_points@.len(),
                entries@ == entry_points@.take(k as int),
            decreases entry_points@.len() - k,
        {
            entries.push(entry_points[k]);
            assert(entries@ =~= entry_points@.take(k + 1));
            k = k + 1;
        }
        assert(entries@ =~= entry_points@);
        result.push(ControlFlowStructure::Dispatcher(entries));
    }
    let ghost d: int = if entry_points@.len() > 1 { 1int } else { 0int };
    let mut i: usize = 0;
    while i < sccs.len()
        invariant
            i <= sccs@.len(),
            d == (if entry_points@.len() > 1 { 1int } else { 0int }),
            d <= result@.len(),
            entry_points@.len() > 1 ==> (result@[0] matches ControlFlowStructure::Dispatcher(v) && v@ == entry_points@),
            structures_of(result@.subrange(d, result@.len() as int), graph@, sccs@.take(i as int)),
        decreases sccs@.len() - i,
    {
        let scc = &sccs[i];
        let ghost before = result@;
        assert(sccs@.take(i + 1).drop_last() =~= sccs@.take(i as int));
        if scc.len() == 0 {
        } else if scc.len() == 1 {
            let addr = scc[0];
            let is_self_loop = match graph.get(&addr) {
                Some(succs) => succs.contains(&addr),
                None => false,
            };
            if is_self_loop {
                let mut inner: Vec<ControlFlowStructure> = Vec::new();
                inner.push(ControlFlowStructure::Block(addr));
                result.push(ControlFlowStructure::Loop(inner));
            } else {
                result.push(ControlFlowStructure::Block(addr));
            }
            assert(result@.subrange(d, result@.len() as int).drop_last() =~= before.subrange(d, before.len() as int));
        } else {
            let mut inner: Vec<ControlFlowStructure> = Vec::new();
            let mut j: usize = 0;
            while j < scc.len()
                invariant
                    j <= scc@.len(),
                    inner@.len() == j,
                    forall|k: int| 0 <= k < j ==> #[trigger] inner@[k] == ControlFlowStructure::Block(scc@[k]),
                decreases scc@.len() - j,
            {
                inner.push(ControlFlowStructure::Block(scc[j]));
                j = j + 1;
            }
            result.push(ControlFlowStructure::Loop(inner));
            assert(result@.subrange(d, result@.len() as int).drop_last() =~= before.subrange(d, before.len() as int));
        }
        i = i + 1;
    }
    assert(sccs@.take(sccs@.len() as int) =~= sccs@);
    result
}

} // verus!
