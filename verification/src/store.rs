//! The petgraph storage behind the graph model.
//!
//! Nothing can be proved of a [`Graph`] of petgraph from its code. What it
//! holds is named here by two sequences, its node weights and its edges in
//! index order, and each method that the model calls is given a contract
//! over them. These contracts are taken from petgraph's source and
//! documentation; they are believed, not proved.

use vstd::prelude::*;
use petgraph::graph::Graph;
use petgraph::{Directed, Undirected};
use crate::dagitty::{EdgeInfo, NodeInfo};

verus! {

/// petgraph's `Graph`, of which nothing is known but what the names and
/// contracts below say.
#[verifier::external_type_specification]
#[verifier::external_body]
#[verifier::reject_recursive_types(N)]
#[verifier::reject_recursive_types(E)]
#[verifier::reject_recursive_types(Ty)]
#[verifier::reject_recursive_types(Ix)]
pub struct ExGraph<N, E, Ty, Ix>(Graph<N, E, Ty, Ix>);

/// petgraph's marker for graphs with directed edges.
#[verifier::external_type_specification]
#[verifier::external_body]
pub struct ExDirected(Directed);

/// petgraph's marker for graphs with undirected edges.
#[verifier::external_type_specification]
#[verifier::external_body]
pub struct ExUndirected(Undirected);

/// The node weights of a directed graph, in index order.
pub uninterp spec fn dag_nodes(g: Graph<NodeInfo, EdgeInfo, Directed, u32>) -> Seq<NodeInfo>;

/// The edges of a directed graph, in index order: the index of the source,
/// the index of the target, and the weight.
pub uninterp spec fn dag_edges(g: Graph<NodeInfo, EdgeInfo, Directed, u32>) -> Seq<
    (u32, u32, EdgeInfo),
>;

/// The node weights of an undirected graph, in index order.
pub uninterp spec fn ungraph_nodes(g: Graph<NodeInfo, EdgeInfo, Undirected, u32>) -> Seq<
    NodeInfo,
>;

/// The edges of an undirected graph, in index order: the indices of the two
/// endpoints as they were given when the edge was added, and the weight.
pub uninterp spec fn ungraph_edges(g: Graph<NodeInfo, EdgeInfo, Undirected, u32>) -> Seq<
    (u32, u32, EdgeInfo),
>;

/// Some edge of `edges` leads from `u` to `v`.
pub open spec fn leads_to(edges: Seq<(u32, u32, EdgeInfo)>, u: u32, v: u32) -> bool {
    exists|e: int| 0 <= e < edges.len() && (#[trigger] edges[e]).0 == u && edges[e].1 == v
}

/// Some edge of `edges` has `u` and `v` as its endpoints, in either order.
pub open spec fn joins(edges: Seq<(u32, u32, EdgeInfo)>, u: u32, v: u32) -> bool {
    leads_to(edges, u, v) || leads_to(edges, v, u)
}

/// petgraph's `Graph::new`: the result has no node and no edge.
#[verifier::external_body]
pub(crate) fn dag_new() -> (g: Graph<NodeInfo, EdgeInfo, Directed, u32>)
    ensures
        dag_nodes(g) == Seq::<NodeInfo>::empty(),
        dag_edges(g) == Seq::<(u32, u32, EdgeInfo)>::empty(),
{
    Graph::new()
}

/// petgraph's `Graph::node_count`: the number of node weights.
#[verifier::external_body]
pub(crate) fn dag_node_count(g: &Graph<NodeInfo, EdgeInfo, Directed, u32>) -> (r: usize)
    ensures
        r == dag_nodes(*g).len(),
{
    g.node_count()
}

/// petgraph's `Graph::edge_count`: the number of edges.
#[verifier::external_body]
pub(crate) fn dag_edge_count(g: &Graph<NodeInfo, EdgeInfo, Directed, u32>) -> (r: usize)
    ensures
        r == dag_edges(*g).len(),
{
    g.edge_count()
}

/// petgraph's `Graph::add_node`: the weight is appended, the edges stay, and
/// the index returned is the one the new node has. The call panics when no
/// index is left for the node, which `requires` excludes.
#[verifier::external_body]
pub(crate) fn dag_add_node(
    g: &mut Graph<NodeInfo, EdgeInfo, Directed, u32>,
    weight: NodeInfo,
) -> (r: u32)
    requires
        dag_nodes(*old(g)).len() < u32::MAX,
    ensures
        r == dag_nodes(*old(g)).len(),
        dag_nodes(*final(g)) == dag_nodes(*old(g)).push(weight),
        dag_edges(*final(g)) == dag_edges(*old(g)),
{
    g.add_node(weight).index() as u32
}

/// petgraph's `Graph::add_edge`: the edge from `a` to `b` is appended, the
/// nodes stay, and the index returned is the one the new edge has. The call
/// panics when an endpoint does not exist or no index is left for the edge,
/// which `requires` excludes.
#[verifier::external_body]
pub(crate) fn dag_add_edge(
    g: &mut Graph<NodeInfo, EdgeInfo, Directed, u32>,
    a: u32,
    b: u32,
    weight: EdgeInfo,
) -> (r: u32)
    requires
        a < dag_nodes(*old(g)).len(),
        b < dag_nodes(*old(g)).len(),
        dag_edges(*old(g)).len() < u32::MAX,
    ensures
        r == dag_edges(*old(g)).len(),
        dag_edges(*final(g)) == dag_edges(*old(g)).push((a, b, weight)),
        dag_nodes(*final(g)) == dag_nodes(*old(g)),
{
    let a = petgraph::graph::NodeIndex::new(a as usize);
    let b = petgraph::graph::NodeIndex::new(b as usize);
    g.add_edge(a, b, weight).index() as u32
}

/// petgraph's `Graph::node_weight`: the weight at index `a`, or nothing when
/// the graph has no such node.
#[verifier::external_body]
pub(crate) fn dag_node_weight(g: &Graph<NodeInfo, EdgeInfo, Directed, u32>, a: u32) -> (r:
    Option<&NodeInfo>)
    ensures
        r is Some <==> a < dag_nodes(*g).len(),
        r is Some ==> *r->0 == dag_nodes(*g)[a as int],
{
    g.node_weight(petgraph::graph::NodeIndex::new(a as usize))
}

/// petgraph's `Graph::edge_weight`: the weight of the edge at index `e`, or
/// nothing when the graph has no such edge.
#[verifier::external_body]
pub(crate) fn dag_edge_weight(g: &Graph<NodeInfo, EdgeInfo, Directed, u32>, e: u32) -> (r:
    Option<&EdgeInfo>)
    ensures
        r is Some <==> e < dag_edges(*g).len(),
        r is Some ==> *r->0 == dag_edges(*g)[e as int].2,
{
    g.edge_weight(petgraph::graph::EdgeIndex::new(e as usize))
}

/// petgraph's `Graph::edge_endpoints`: source and target of the edge at
/// index `e`, or nothing when the graph has no such edge.
#[verifier::external_body]
pub(crate) fn dag_edge_endpoints(g: &Graph<NodeInfo, EdgeInfo, Directed, u32>, e: u32) -> (r:
    Option<(u32, u32)>)
    ensures
        r is Some <==> e < dag_edges(*g).len(),
        r is Some ==> r->0 == (dag_edges(*g)[e as int].0, dag_edges(*g)[e as int].1),
{
    let ends = g.edge_endpoints(petgraph::graph::EdgeIndex::new(e as usize));
    ends.map(|(a, b)| (a.index() as u32, b.index() as u32))
}

/// petgraph's `Graph::neighbors_directed` with `Incoming`, on a directed
/// graph: a node is listed exactly if an edge leads from it to `a`. Nothing
/// is claimed of the order or of how often a node is listed.
#[verifier::external_body]
pub(crate) fn dag_incoming(g: &Graph<NodeInfo, EdgeInfo, Directed, u32>, a: u32) -> (r: Vec<u32>)
    ensures
        forall|u: u32| r@.contains(u) <==> leads_to(dag_edges(*g), u, a),
{
    let a = petgraph::graph::NodeIndex::new(a as usize);
    g.neighbors_directed(a, petgraph::Direction::Incoming).map(|n| n.index() as u32).collect()
}

/// petgraph's `Graph::new_undirected`: the result has no node and no edge.
#[verifier::external_body]
pub(crate) fn ungraph_new() -> (g: Graph<NodeInfo, EdgeInfo, Undirected, u32>)
    ensures
        ungraph_nodes(g) == Seq::<NodeInfo>::empty(),
        ungraph_edges(g) == Seq::<(u32, u32, EdgeInfo)>::empty(),
{
    Graph::new_undirected()
}

/// petgraph's `Graph::node_count`: the number of node weights.
#[verifier::external_body]
pub(crate) fn ungraph_node_count(g: &Graph<NodeInfo, EdgeInfo, Undirected, u32>) -> (r: usize)
    ensures
        r == ungraph_nodes(*g).len(),
{
    g.node_count()
}

/// petgraph's `Graph::edge_count`: the number of edges.
#[verifier::external_body]
pub(crate) fn ungraph_edge_count(g: &Graph<NodeInfo, EdgeInfo, Undirected, u32>) -> (r: usize)
    ensures
        r == ungraph_edges(*g).len(),
{
    g.edge_count()
}

/// petgraph's `Graph::add_node`: the weight is appended, the edges stay, and
/// the index returned is the one the new node has. The call panics when no
/// index is left for the node, which `requires` excludes.
#[verifier::external_body]
pub(crate) fn ungraph_add_node(
    g: &mut Graph<NodeInfo, EdgeInfo, Undirected, u32>,
    weight: NodeInfo,
) -> (r: u32)
    requires
        ungraph_nodes(*old(g)).len() < u32::MAX,
    ensures
        r == ungraph_nodes(*old(g)).len(),
        ungraph_nodes(*final(g)) == ungraph_nodes(*old(g)).push(weight),
        ungraph_edges(*final(g)) == ungraph_edges(*old(g)),
{
    g.add_node(weight).index() as u32
}

/// petgraph's `Graph::add_edge`: the edge between `a` and `b` is appended,
/// the nodes stay, and the index returned is the one the new edge has. The
/// call panics when an endpoint does not exist or no index is left for the
/// edge, which `requires` excludes.
#[verifier::external_body]
pub(crate) fn ungraph_add_edge(
    g: &mut Graph<NodeInfo, EdgeInfo, Undirected, u32>,
    a: u32,
    b: u32,
    weight: EdgeInfo,
) -> (r: u32)
    requires
        a < ungraph_nodes(*old(g)).len(),
        b < ungraph_nodes(*old(g)).len(),
        ungraph_edges(*old(g)).len() < u32::MAX,
    ensures
        r == ungraph_edges(*old(g)).len(),
        ungraph_edges(*final(g)) == ungraph_edges(*old(g)).push((a, b, weight)),
        ungraph_nodes(*final(g)) == ungraph_nodes(*old(g)),
{
    let a = petgraph::graph::NodeIndex::new(a as usize);
    let b = petgraph::graph::NodeIndex::new(b as usize);
    g.add_edge(a, b, weight).index() as u32
}

/// petgraph's `Graph::node_weight`: the weight at index `a`, or nothing when
/// the graph has no such node.
#[verifier::external_body]
pub(crate) fn ungraph_node_weight(g: &Graph<NodeInfo, EdgeInfo, Undirected, u32>, a: u32) -> (r:
    Option<&NodeInfo>)
    ensures
        r is Some <==> a < ungraph_nodes(*g).len(),
        r is Some ==> *r->0 == ungraph_nodes(*g)[a as int],
{
    g.node_weight(petgraph::graph::NodeIndex::new(a as usize))
}

/// petgraph's `Graph::edge_weight`: the weight of the edge at index `e`, or
/// nothing when the graph has no such edge.
#[verifier::external_body]
pub(crate) fn ungraph_edge_weight(g: &Graph<NodeInfo, EdgeInfo, Undirected, u32>, e: u32) -> (r:
    Option<&EdgeInfo>)
    ensures
        r is Some <==> e < ungraph_edges(*g).len(),
        r is Some ==> *r->0 == ungraph_edges(*g)[e as int].2,
{
    g.edge_weight(petgraph::graph::EdgeIndex::new(e as usize))
}

/// petgraph's `Graph::edge_endpoints`: the two endpoints of the edge at
/// index `e`, in the order in which they were given, or nothing when the
/// graph has no such edge.
#[verifier::external_body]
pub(crate) fn ungraph_edge_endpoints(g: &Graph<NodeInfo, EdgeInfo, Undirected, u32>, e: u32) -> (r:
    Option<(u32, u32)>)
    ensures
        r is Some <==> e < ungraph_edges(*g).len(),
        r is Some ==> r->0 == (ungraph_edges(*g)[e as int].0, ungraph_edges(*g)[e as int].1),
{
    let ends = g.edge_endpoints(petgraph::graph::EdgeIndex::new(e as usize));
    ends.map(|(a, b)| (a.index() as u32, b.index() as u32))
}

/// petgraph's `Graph::neighbors_directed` with `Incoming`, on an undirected
/// graph, where the direction is ignored: a node is listed exactly if an
/// edge joins it and `a`. Nothing is claimed of the order or of how often a
/// node is listed.
#[verifier::external_body]
pub(crate) fn ungraph_incoming(g: &Graph<NodeInfo, EdgeInfo, Undirected, u32>, a: u32) -> (r:
    Vec<u32>)
    ensures
        forall|u: u32| r@.contains(u) <==> joins(ungraph_edges(*g), u, a),
{
    let a = petgraph::graph::NodeIndex::new(a as usize);
    g.neighbors_directed(a, petgraph::Direction::Incoming).map(|n| n.index() as u32).collect()
}

} // verus!
