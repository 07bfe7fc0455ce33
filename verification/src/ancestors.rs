//! Ancestors: the nodes from which a node can be reached.

use std::collections::HashSet;
use vstd::prelude::*;
use vstd::set_lib::{lemma_int_range, lemma_len_subset, set_int_range};
use crate::graph::{CausalGraph, GraphModel, NodeIndex};
use crate::store::{dag_incoming, joins, leads_to, ungraph_incoming};

verus! {

broadcast use vstd::std_specs::hash::group_hash_axioms;

/// One step backward along an edge leads from `v` to `u`: an edge runs from
/// `u` to `v`, or, in an undirected graph, joins the two.
pub open spec fn steps_back(g: GraphModel, v: int, u: int) -> bool {
    exists|e: int|
        0 <= e < g.edges.len() && (((#[trigger] g.edges[e]).source == u && g.edges[e].target == v)
            || (!g.directed && g.edges[e].source == v && g.edges[e].target == u))
}

/// Each node of `path` is one step backward from the node in front of it.
pub open spec fn is_backward_walk(g: GraphModel, path: Seq<int>) -> bool {
    forall|i: int| 0 <= i < path.len() - 1 ==> steps_back(g, #[trigger] path[i], path[i + 1])
}

/// Some walk of at least one step leads backward from `s` to `u`.
pub open spec fn reaches_back(g: GraphModel, s: int, u: int) -> bool {
    exists|path: Seq<int>|
        #![trigger is_backward_walk(g, path)]
        path.len() >= 2 && path[0] == s && path.last() == u && is_backward_walk(g, path)
}

/// `u` is an ancestor of `s`: another node, from which `s` can be reached
/// along the edges; in an undirected graph, another node connected to `s`.
pub open spec fn is_ancestor(g: GraphModel, u: int, s: int) -> bool {
    u != s && reaches_back(g, s, u)
}

/// The ancestors of `s`.
pub open spec fn ancestors_of(g: GraphModel, s: int) -> Set<int> {
    Set::new(|u: int| is_ancestor(g, u, s))
}

/// A node is never among its own ancestors.
pub proof fn lemma_no_node_is_its_own_ancestor(g: GraphModel, s: int)
    ensures
        !ancestors_of(g, s).contains(s),
{
}

/// A node one step backward from `s`, or from an ancestor of `s`, can be
/// reached backward from `s`.
pub proof fn lemma_step_extends(g: GraphModel, s: int, v: int, u: int)
    requires
        v == s || is_ancestor(g, v, s),
        steps_back(g, v, u),
    ensures
        reaches_back(g, s, u),
{
    if v == s {
        let path = seq![s, u];
        assert(is_backward_walk(g, path));
    } else {
        let to_v = choose|path: Seq<int>|
            #![trigger is_backward_walk(g, path)]
            path.len() >= 2 && path[0] == s && path.last() == v && is_backward_walk(g, path);
        let path = to_v.push(u);
        assert(is_backward_walk(g, path));
    }
}

/// The node `v` is in `visited`.
pub open spec fn seen(visited: Set<u32>, v: int) -> bool {
    0 <= v <= u32::MAX && visited.contains(v as u32)
}

/// Every step backward from a node of `visited` stays in `visited`.
pub open spec fn closed_backward(g: GraphModel, visited: Set<u32>) -> bool {
    forall|v: int, u: int| seen(visited, v) && #[trigger] steps_back(g, v, u) ==> seen(visited, u)
}

/// A set that holds `s` and is closed under steps backward holds every node
/// of a walk backward from `s`.
pub proof fn lemma_closed_holds_walk(g: GraphModel, visited: Set<u32>, path: Seq<int>, i: int)
    requires
        closed_backward(g, visited),
        is_backward_walk(g, path),
        0 <= i < path.len(),
        seen(visited, path[0]),
    ensures
        seen(visited, path[i]),
    decreases i,
{
    if i > 0 {
        lemma_closed_holds_walk(g, visited, path, i - 1);
    }
}

/// A set that holds `s` and is closed under steps backward holds every
/// ancestor of `s`.
pub proof fn lemma_closed_holds_ancestors(g: GraphModel, visited: Set<u32>, s: int)
    requires
        closed_backward(g, visited),
        seen(visited, s),
    ensures
        forall|u: int| is_ancestor(g, u, s) ==> seen(visited, u),
{
    assert forall|u: int| is_ancestor(g, u, s) implies seen(visited, u) by {
        let path = choose|path: Seq<int>|
            #![trigger is_backward_walk(g, path)]
            path.len() >= 2 && path[0] == s && path.last() == u && is_backward_walk(g, path);
        lemma_closed_holds_walk(g, visited, path, path.len() - 1);
    }
}

impl CausalGraph {
    /// The nodes one step backward from `a`: each is listed at least once,
    /// and no other node is listed.
    pub fn incoming(&self, a: NodeIndex) -> (r: Vec<NodeIndex>)
        ensures
            forall|u: int|
                steps_back(self@, a.ix as int, u) <==> exists|i: int|
                    0 <= i < r@.len() && (#[trigger] r@[i]).ix == u,
    {
        let listed = self.incoming_positions(a);
        let mut r: Vec<NodeIndex> = Vec::new();
        let mut i: usize = 0;
        while i < listed.len()
            invariant
                0 <= i <= listed.len(),
                r@.len() == i,
                forall|k: int| 0 <= k < i ==> (#[trigger] r@[k]).ix == listed@[k],
                forall|u: int| steps_back(self@, a.ix as int, u) <==> seen(listed@.to_set(), u),
            decreases listed.len() - i,
        {
            r.push(NodeIndex { ix: listed[i] });
            i += 1;
        }
        proof {
            assert forall|u: int| steps_back(self@, a.ix as int, u) implies exists|i: int|
                0 <= i < r@.len() && (#[trigger] r@[i]).ix == u by {
                assert(seen(listed@.to_set(), u));
                let k = choose|k: int| 0 <= k < listed@.len() && listed@[k] == u as u32;
                assert(r@[k].ix == u);
            }
            assert forall|u: int|
                (exists|i: int|
                    0 <= i < r@.len() && (#[trigger] r@[i]).ix == u) implies steps_back(
                self@,
                a.ix as int,
                u,
            ) by {
                let k = choose|k: int| 0 <= k < r@.len() && (#[trigger] r@[k]).ix == u;
                assert(seen(listed@.to_set(), u));
            }
        }
        r
    }

    /// The positions of the nodes one step backward from `a`.
    pub(crate) fn incoming_positions(&self, a: NodeIndex) -> (r: Vec<u32>)
        ensures
            forall|u: int| steps_back(self@, a.ix as int, u) <==> seen(r@.to_set(), u),
    {
        let r = match self {
            CausalGraph::Dag(g) => dag_incoming(g, a.ix),
            CausalGraph::Ungraph(g) => ungraph_incoming(g, a.ix),
        };
        proof {
            let edges = self.edges();
            assert forall|u: int| steps_back(self@, a.ix as int, u) implies seen(
                r@.to_set(),
                u,
            ) by {
                let e = choose|e: int|
                    0 <= e < self@.edges.len() && (((#[trigger] self@.edges[e]).source == u
                        && self@.edges[e].target == a.ix) || (!self@.directed
                        && self@.edges[e].source == a.ix && self@.edges[e].target == u));
            }
            assert forall|u: int| seen(r@.to_set(), u) implies steps_back(
                self@,
                a.ix as int,
                u,
            ) by {
                if leads_to(edges, u as u32, a.ix) {
                    let e = choose|e: int|
                        0 <= e < edges.len() && (#[trigger] edges[e]).0 == u as u32 && edges[e].1
                            == a.ix;
                    assert(self@.edges[e] == crate::graph::edge_model(edges[e]));
                } else {
                    let e = choose|e: int|
                        0 <= e < edges.len() && (#[trigger] edges[e]).0 == a.ix && edges[e].1
                            == u as u32;
                    assert(self@.edges[e] == crate::graph::edge_model(edges[e]));
                }
            }
        }
        r
    }
}

/// A place in the list of the nodes one step backward from `origin`.
#[derive(Debug)]
pub struct NeighborCursor {
    origin: u32,
    neighbors: Vec<u32>,
    next: usize,
}

impl NeighborCursor {
    /// The cursor belongs to the traversal: its node is visited, its list
    /// holds the nodes one step backward from that node, and what it has
    /// passed is visited.
    spec fn fits(&self, g: GraphModel, visited: Set<u32>) -> bool {
        self.fits_up_to(g, visited, self.next as int)
    }

    /// As `fits`, of the first `passed` nodes of the list only.
    spec fn fits_up_to(&self, g: GraphModel, visited: Set<u32>, passed: int) -> bool {
        &&& passed <= self.next <= self.neighbors.len()
        &&& visited.contains(self.origin)
        &&& forall|u: int|
            steps_back(g, self.origin as int, u) <==> seen(self.neighbors@.to_set(), u)
        &&& forall|k: int| 0 <= k < passed ==> visited.contains(#[trigger] self.neighbors@[k])
    }
}

/// Every step backward from `v` stays in `visited`, or a cursor of `v` is
/// pending.
spec fn covered(g: GraphModel, visited: Set<u32>, pending: Seq<NeighborCursor>, v: u32) -> bool {
    (exists|i: int| 0 <= i < pending.len() && (#[trigger] pending[i]).origin == v) || forall|
        u: int,
    |
        #[trigger] steps_back(g, v as int, u) ==> seen(visited, u)
}

/// Ancestors is an structure containing all nodes that are ancestors of a particular one.
///
/// It walks backward from the start node and hands out each ancestor once,
/// one with each call of `next`.
#[derive(Debug)]
pub struct Ancestors<'a> {
    g: &'a CausalGraph,
    start: u32,
    visited: HashSet<u32>,
    pending_neighbors: Vec<NeighborCursor>,
}

impl<'a> Ancestors<'a> {
    /// The graph that is walked.
    pub closed spec fn graph(&self) -> GraphModel {
        self.g@
    }

    /// The node whose ancestors are sought.
    pub closed spec fn start(&self) -> int {
        self.start as int
    }

    /// The nodes handed out so far.
    pub closed spec fn yielded(&self) -> Set<int> {
        Set::new(|u: int| u != self.start && seen(self.visited@, u))
    }

    /// The traversal is consistent: it has handed out ancestors only, and
    /// knows where to look for those still missing.
    pub closed spec fn inv(&self) -> bool {
        &&& self.g.well_formed()
        &&& self.visited@.contains(self.start)
        &&& forall|v: u32| #[trigger]
            self.visited@.contains(v) ==> v == self.start || is_ancestor(
                self.g@,
                v as int,
                self.start as int,
            )
        &&& forall|i: int|
            0 <= i < self.pending_neighbors@.len() ==> (#[trigger] self.pending_neighbors@[i]).fits(
                self.g@,
                self.visited@,
            )
        &&& forall|v: u32| #[trigger]
            self.visited@.contains(v) ==> covered(
                self.g@,
                self.visited@,
                self.pending_neighbors@,
                v,
            )
    }

    /// What was handed out is an ancestor of the start node.
    pub proof fn lemma_yielded_are_ancestors(&self)
        requires
            self.inv(),
        ensures
            self.yielded().subset_of(ancestors_of(self.graph(), self.start())),
    {
    }

    pub(crate) fn new(g: &'a CausalGraph, node: NodeIndex) -> (r: Self)
        requires
            g.well_formed(),
        ensures
            r.inv(),
            r.graph() == g@,
            r.start() == node.ix,
            r.yielded() == Set::<int>::empty(),
    {
        let mut visited: HashSet<u32> = HashSet::new();
        visited.insert(node.ix);
        let cursor = NeighborCursor { origin: node.ix, neighbors: g.incoming_positions(node), next: 0 };
        let mut pending_neighbors: Vec<NeighborCursor> = Vec::new();
        pending_neighbors.push(cursor);
        let r = Ancestors { g, start: node.ix, visited, pending_neighbors };
        proof {
            assert(r.pending_neighbors@[0] == cursor);
        }
        r
    }

    /// Hands out an ancestor of the start node that was not handed out
    /// before, or nothing once all of them were.
    pub fn next(&mut self) -> (r: Option<NodeIndex>)
        requires
            old(self).inv(),
        ensures
            final(self).inv(),
            final(self).graph() == old(self).graph(),
            final(self).start() == old(self).start(),
            match r {
                Some(node) => {
                    &&& !old(self).yielded().contains(node.ix as int)
                    &&& ancestors_of(old(self).graph(), old(self).start()).contains(node.ix as int)
                    &&& final(self).yielded() == old(self).yielded().insert(node.ix as int)
                },
                None => {
                    &&& final(self).yielded() == old(self).yielded()
                    &&& old(self).yielded() == ancestors_of(old(self).graph(), old(self).start())
                },
            },
    {
        let ghost g = self.g@;
        let ghost s = self.start;
        let ghost visited_before = self.visited@;
        let mut found: Option<u32> = None;
        loop
            invariant
                self.inv(),
                self.g@ == g,
                self.start == s,
                found is None,
                self.visited@ == visited_before,
                g == old(self).g@,
                s == old(self).start,
                visited_before == old(self).visited@,
            ensures
                self.pending_neighbors@.len() == 0,
            decreases self.pending_neighbors.len(),
        {
            let ghost pending_before = self.pending_neighbors@;
            let mut cursor = match self.pending_neighbors.pop() {
                Some(cursor) => cursor,
                None => {
                    break;
                },
            };
            let ghost rest = self.pending_neighbors@;
            assert(forall|i: int| 0 <= i < rest.len() ==> rest[i] == pending_before[i]);
            let ghost origin = cursor.origin;
            while found.is_none() && cursor.next < cursor.neighbors.len()
                invariant
                    match found {
                        Some(u) => cursor.next > 0 && cursor.fits_up_to(
                            g,
                            self.visited@,
                            cursor.next - 1,
                        ) && u == cursor.neighbors@[cursor.next - 1] && !self.visited@.contains(u),
                        None => cursor.fits(g, self.visited@),
                    },
                    cursor.origin == origin,
                    self.visited@ == visited_before,
                    self.pending_neighbors@ == rest,
                    self.g@ == g,
                    self.start == s,
                decreases cursor.neighbors.len() - cursor.next + if found is None { 1int } else { 0 },
            {
                let u = cursor.neighbors[cursor.next];
                cursor.next += 1;
                if !self.visited.contains(&u) {
                    found = Some(u);
                }
            }
            match found {
                Some(node) => {
                    proof {
                        lemma_step_extends(g, s as int, cursor.origin as int, node as int);
                    }
                    self.visited.insert(node);
                    let fresh = NeighborCursor {
                        origin: node,
                        neighbors: self.g.incoming_positions(NodeIndex { ix: node }),
                        next: 0,
                    };
                    self.pending_neighbors.push(fresh);
                    self.pending_neighbors.insert(0, cursor);
                    proof {
                        let pending = self.pending_neighbors@;
                        let visited = self.visited@;
                        assert(pending[0] == cursor);
                        assert(pending[pending.len() - 1] == fresh);
                        assert forall|v: u32| #[trigger] visited.contains(v) implies covered(
                            g,
                            visited,
                            pending,
                            v,
                        ) by {
                            if v == node {
                            } else {
                                if exists|i: int|
                                    0 <= i < pending_before.len() && (
                                    #[trigger] pending_before[i]).origin == v {
                                    let i = choose|i: int|
                                        0 <= i < pending_before.len() && (
                                        #[trigger] pending_before[i]).origin == v;
                                    if i == pending_before.len() - 1 {
                                    } else {
                                        assert(pending[i + 1].origin == v);
                                    }
                                }
                            }
                        }
                    }
                    return Some(NodeIndex { ix: node });
                },
                None => {
                    proof {
                        let pending = self.pending_neighbors@;
                        let visited = self.visited@;
                        assert forall|u: int| #[trigger]
                            steps_back(g, cursor.origin as int, u) implies seen(visited, u) by {
                            let k = choose|k: int|
                                0 <= k < cursor.neighbors@.len() && cursor.neighbors@[k]
                                    == u as u32;
                        }
                        assert forall|v: u32| #[trigger] visited.contains(v) implies covered(
                            g,
                            visited,
                            pending,
                            v,
                        ) by {
                            if exists|i: int|
                                0 <= i < pending_before.len() && (
                                #[trigger] pending_before[i]).origin == v {
                                let i = choose|i: int|
                                    0 <= i < pending_before.len() && (
                                    #[trigger] pending_before[i]).origin == v;
                            }
                        }
                    }
                },
            }
        }
        proof {
            let visited = self.visited@;
            lemma_closed_holds_ancestors(g, visited, s as int);
            self.lemma_yielded_are_ancestors();
        }
        None
    }
}

/// The nodes of `g` that are not in `yielded`.
spec fn remaining(g: GraphModel, yielded: Set<int>) -> Set<int> {
    Set::new(|u: int| 0 <= u < g.nodes.len() && !yielded.contains(u))
}

/// In a consistent graph every ancestor is a node of the graph.
proof fn lemma_ancestor_is_node(graph: &CausalGraph, u: int, s: int)
    requires
        graph.well_formed(),
        is_ancestor(graph@, u, s),
    ensures
        0 <= u < graph@.nodes.len(),
{
    let g = graph@;
    let path = choose|path: Seq<int>|
        #![trigger is_backward_walk(g, path)]
        path.len() >= 2 && path[0] == s && path.last() == u && is_backward_walk(g, path);
    let last = path.len() - 2;
    let e = choose|e: int|
        0 <= e < g.edges.len() && (((#[trigger] g.edges[e]).source == u && g.edges[e].target
            == path[last]) || (!g.directed && g.edges[e].source == path[last] && g.edges[e].target
            == u));
}

impl<'a> Ancestors<'a> {
    /// Hands out, in one vector, all ancestors of the start node that were
    /// not handed out before: each of them once, and nothing else.
    pub fn into_vec(self) -> (r: Vec<NodeIndex>)
        requires
            self.inv(),
        ensures
            forall|i: int, j: int| 0 <= i < j < r@.len() ==> r@[i] != r@[j],
            forall|u: int|
                (exists|i: int| 0 <= i < r@.len() && (#[trigger] r@[i]).ix == u) <==> ancestors_of(
                    self.graph(),
                    self.start(),
                ).contains(u) && !self.yielded().contains(u),
    {
        let mut this = self;
        let mut out: Vec<NodeIndex> = Vec::new();
        proof {
            lemma_int_range(0, this.g@.nodes.len() as int);
            lemma_len_subset(
                remaining(this.g@, this.yielded()),
                set_int_range(0, this.g@.nodes.len() as int),
            );
        }
        loop
            invariant
                this.inv(),
                this.graph() == self.graph(),
                this.start() == self.start(),
                remaining(this.g@, this.yielded()).finite(),
                self.yielded().subset_of(this.yielded()),
                forall|i: int, j: int| 0 <= i < j < out@.len() ==> out@[i] != out@[j],
                forall|u: int|
                    (exists|i: int| 0 <= i < out@.len() && (#[trigger] out@[i]).ix == u)
                        <==> this.yielded().contains(u) && !self.yielded().contains(u),
            ensures
                this.yielded() == ancestors_of(self.graph(), self.start()),
            decreases remaining(this.g@, this.yielded()).len(),
        {
            let ghost before = this;
            match this.next() {
                Some(node) => {
                    proof {
                        lemma_ancestor_is_node(this.g, node.ix as int, this.start as int);
                        assert(remaining(this.g@, this.yielded()) =~= remaining(
                            before.g@,
                            before.yielded(),
                        ).remove(node.ix as int));
                        let grown = out@.push(node);
                        assert forall|u: int|
                            this.yielded().contains(u) && !self.yielded().contains(
                                u,
                            ) implies exists|i: int|
                            0 <= i < grown.len() && (#[trigger] grown[i]).ix == u by {
                            if u == node.ix {
                                assert(grown[grown.len() - 1].ix == u);
                            } else {
                                let i = choose|i: int|
                                    0 <= i < out@.len() && (#[trigger] out@[i]).ix == u;
                                assert(grown[i].ix == u);
                            }
                        }
                    }
                    out.push(node);
                },
                None => {
                    break;
                },
            }
        }
        out
    }
}

impl CausalGraph {
    /// Return all ancestors from a given node: a traversal that hands them
    /// out one by one.
    pub fn ancestors(&self, node: NodeIndex) -> (r: Ancestors<'_>)
        requires
            self.well_formed(),
        ensures
            r.inv(),
            r.graph() == self@,
            r.start() == node.ix,
            r.yielded() == Set::<int>::empty(),
    {
        Ancestors::new(self, node)
    }
}

} // verus!
