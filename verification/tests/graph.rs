use std::collections::HashSet;

use why_rs::coordinate::Coordinate;
use why_rs::dagitty::{EdgeInfo, EdgeType, NodeInfo, VertexType};
use why_rs::graph::{CausalGraph, EdgeIndex, NodeIndex};

fn node(id: &str) -> NodeInfo {
    NodeInfo::new(id, Coordinate::zero(), Coordinate::zero(), VertexType::Unspecified)
}

fn edge() -> EdgeInfo {
    EdgeInfo::new("", None, EdgeType::Directed)
}

/// Nodes A, B, D, E, Z with the edges A→E, A→Z, B→D, B→Z, E→D.
fn sample(mut g: CausalGraph) -> (CausalGraph, [NodeIndex; 5]) {
    let a = g.add_node(node("A"));
    let b = g.add_node(node("B"));
    let d = g.add_node(node("D"));
    let e = g.add_node(node("E"));
    let z = g.add_node(node("Z"));

    g.add_edge(a, e, edge());
    g.add_edge(a, z, edge());
    g.add_edge(b, d, edge());
    g.add_edge(b, z, edge());
    g.add_edge(e, d, edge());
    (g, [a, b, d, e, z])
}

fn ancestor_set(g: &CausalGraph, of: NodeIndex) -> HashSet<NodeIndex> {
    g.ancestors(of).into_vec().into_iter().collect::<HashSet<NodeIndex>>()
}

#[test]
fn test_ancestors() {
    let mut g = CausalGraph::new_dag();

    let a = g.add_node(node("A"));
    let b = g.add_node(node("B"));
    let d = g.add_node(node("D"));
    let e = g.add_node(node("E"));
    let z = g.add_node(node("Z"));

    g.add_edge(a, e, edge());
    g.add_edge(a, z, edge());
    g.add_edge(b, d, edge());
    g.add_edge(b, z, edge());
    g.add_edge(e, d, edge());

    let mut iter = g.ancestors(a);

    assert_eq!(None, iter.next());

    let iter = g.ancestors(z);
    let nodes = iter.into_vec().into_iter().collect::<HashSet<NodeIndex>>();
    assert_eq!(HashSet::from([a, b]), nodes);
}

#[test]
fn ancestors_of_a_node_with_a_chain_behind_it() {
    let (g, [a, b, d, e, _z]) = sample(CausalGraph::new_dag());
    assert_eq!(HashSet::from([a, b, e]), ancestor_set(&g, d));
    assert_eq!(HashSet::from([a]), ancestor_set(&g, e));
    assert_eq!(HashSet::new(), ancestor_set(&g, b));
}

#[test]
fn ancestors_are_handed_out_once_each() {
    let (g, [_a, _b, d, _e, _z]) = sample(CausalGraph::new_dag());
    let all = g.ancestors(d).into_vec();
    assert_eq!(3, all.len());
    let mut iter = g.ancestors(d);
    let mut count = 0;
    while let Some(found) = iter.next() {
        assert!(all.contains(&found));
        count += 1;
    }
    assert_eq!(3, count);
    assert_eq!(None, iter.next());
}

#[test]
fn ancestors_never_hold_the_start_node() {
    let (mut g, nodes) = sample(CausalGraph::new_dag());
    // a cycle through D, and a loop at Z
    g.add_edge(nodes[2], nodes[0], edge());
    g.add_edge(nodes[4], nodes[4], edge());
    for start in nodes {
        assert!(!ancestor_set(&g, start).contains(&start));
    }
    assert_eq!(HashSet::from([nodes[1], nodes[2], nodes[3]]), ancestor_set(&g, nodes[0]));
}

#[test]
fn ancestors_in_an_undirected_graph_are_the_connected_nodes() {
    let mut g = CausalGraph::new_ungraph();
    let a = g.add_node(node("A"));
    let b = g.add_node(node("B"));
    let c = g.add_node(node("C"));
    let d = g.add_node(node("D"));
    g.add_edge(a, b, edge());
    g.add_edge(c, b, edge());
    assert_eq!(HashSet::from([b, c]), ancestor_set(&g, a));
    assert_eq!(HashSet::from([a, c]), ancestor_set(&g, b));
    assert_eq!(HashSet::from([a, b]), ancestor_set(&g, c));
    assert_eq!(HashSet::new(), ancestor_set(&g, d));
}

#[test]
fn ancestors_of_a_node_that_is_not_there() {
    let (g, _) = sample(CausalGraph::new_dag());
    assert_eq!(HashSet::new(), ancestor_set(&g, NodeIndex::new(17)));
}

fn sorted(mut nodes: Vec<NodeIndex>) -> Vec<NodeIndex> {
    nodes.sort_by_key(|n| n.index());
    nodes
}

#[test]
fn incoming_lists_the_sources_of_a_directed_graph() {
    let (g, [a, b, d, e, z]) = sample(CausalGraph::new_dag());
    assert_eq!(vec![a, b], sorted(g.incoming(z)));
    assert_eq!(vec![b, e], sorted(g.incoming(d)));
    assert_eq!(Vec::<NodeIndex>::new(), g.incoming(a));
    assert_eq!(Vec::<NodeIndex>::new(), g.incoming(NodeIndex::new(9)));
}

#[test]
fn incoming_lists_both_sides_of_an_undirected_graph() {
    let (g, [a, b, d, e, z]) = sample(CausalGraph::new_ungraph());
    assert_eq!(vec![e, z], sorted(g.incoming(a)));
    assert_eq!(vec![a, b], sorted(g.incoming(z)));
    assert_eq!(vec![b, e], sorted(g.incoming(d)));
}

#[test]
fn a_loop_lists_the_node_itself() {
    let mut g = CausalGraph::new_ungraph();
    let a = g.add_node(node("A"));
    let b = g.add_node(node("B"));
    g.add_edge(a, a, edge());
    g.add_edge(b, a, edge());
    assert_eq!(vec![a, b], sorted(g.incoming(a)));
    let mut h = CausalGraph::new_dag();
    let c = h.add_node(node("C"));
    h.add_edge(c, c, edge());
    assert_eq!(vec![c], h.incoming(c));
    assert_eq!(Vec::<NodeIndex>::new(), h.ancestors(c).into_vec());
}

#[test]
fn nodes_and_edges_are_numbered_in_order() {
    let mut g = CausalGraph::new_dag();
    assert!(g.is_directed());
    assert_eq!(0, g.node_count());
    let a = g.add_node(node("first"));
    let b = g.add_node(node("second"));
    assert_eq!(0, a.index());
    assert_eq!(1, b.index());
    assert_eq!(2, g.node_count());
    let e = g.add_edge(b, a, EdgeInfo::new("", None, EdgeType::Undirected));
    assert_eq!(0, e.index());
    assert_eq!(1, g.edge_count());
    assert_eq!(Some((b, a)), g.edge_endpoints(e));
    assert_eq!(None, g.edge_endpoints(EdgeIndex::new(1)));
    assert_eq!("second", g.node_weight(b).unwrap().id);
    assert_eq!("first", g.node_weight(a).unwrap().id);
    assert!(g.node_weight(NodeIndex::new(2)).is_none());
    assert_eq!(EdgeType::Undirected, g.edge_weight(e).unwrap().edge_type);
    assert!(g.edge_weight(EdgeIndex::new(1)).is_none());
}

#[test]
fn an_undirected_graph_keeps_its_kind() {
    let mut g = CausalGraph::new_ungraph();
    assert!(!g.is_directed());
    let a = g.add_node(node("A"));
    let b = g.add_node(node("B"));
    g.add_edge(a, b, edge());
    assert!(!g.is_directed());
    assert_eq!(Some((a, b)), g.edge_endpoints(EdgeIndex::new(0)));
    assert_eq!(2, g.node_count());
    assert_eq!(1, g.edge_count());
}

#[test]
fn add_edges_appends_in_order() {
    let mut g = CausalGraph::new_dag();
    let a = g.add_node(node("A"));
    let b = g.add_node(node("B"));
    let c = g.add_node(node("C"));
    g.add_edges(vec![(a, b, edge()), (b, c, edge()), (a, c, edge())]);
    assert_eq!(3, g.edge_count());
    assert_eq!(Some((a, b)), g.edge_endpoints(EdgeIndex::new(0)));
    assert_eq!(Some((b, c)), g.edge_endpoints(EdgeIndex::new(1)));
    assert_eq!(Some((a, c)), g.edge_endpoints(EdgeIndex::new(2)));
}

#[test]
fn indices_keep_the_low_32_bits() {
    assert_eq!(5, NodeIndex::new(5).index());
    assert_eq!(7, EdgeIndex::new(7).index());
    assert_eq!(NodeIndex::new(3), NodeIndex { ix: 3 });
}
