//! The causal graph: one model for directed and undirected graphs.

use vstd::prelude::*;
use petgraph::graph::Graph;
use petgraph::{Directed, Undirected};
use crate::dagitty::{EdgeInfo, EdgeInfoModel, NodeInfo, NodeModel};
use crate::store::{
    dag_add_edge, dag_add_node, dag_edge_count, dag_edge_endpoints, dag_edge_weight, dag_edges,
    dag_new, dag_node_count, dag_node_weight, dag_nodes, ungraph_add_edge, ungraph_add_node,
    ungraph_edge_count, ungraph_edge_endpoints, ungraph_edge_weight, ungraph_edges, ungraph_new,
    ungraph_node_count, ungraph_node_weight, ungraph_nodes,
};

verus! {

/// Node identifier: the position of a node among the nodes of its graph.
#[derive(Clone, Copy, Debug, PartialEq, Eq, Hash, Structural)]
pub struct NodeIndex {
    pub ix: u32,
}

impl NodeIndex {
    /// The identifier of the node at position `x`. Positions are 32 bits
    /// wide: of a larger `x` only the low 32 bits are kept.
    pub fn new(x: usize) -> (r: Self)
        ensures
            r.ix == x as int % 0x1_0000_0000,
    {
        NodeIndex { ix: (x as u64 % 0x1_0000_0000u64) as u32 }
    }

    /// The position of the node.
    pub fn index(self) -> (r: usize)
        ensures
            r == self.ix,
    {
        self.ix as usize
    }
}

/// Edge identifier: the position of an edge among the edges of its graph.
#[derive(Clone, Copy, Debug, PartialEq, Eq, Hash, Structural)]
pub struct EdgeIndex {
    pub ix: u32,
}

impl EdgeIndex {
    /// The identifier of the edge at position `x`. Positions are 32 bits
    /// wide: of a larger `x` only the low 32 bits are kept.
    pub fn new(x: usize) -> (r: Self)
        ensures
            r.ix == x as int % 0x1_0000_0000,
    {
        EdgeIndex { ix: (x as u64 % 0x1_0000_0000u64) as u32 }
    }

    /// The position of the edge.
    pub fn index(self) -> (r: usize)
        ensures
            r == self.ix,
    {
        self.ix as usize
    }
}

/// An edge of the model: the positions of its endpoints and its record.
pub struct EdgeModel {
    pub source: int,
    pub target: int,
    pub info: EdgeInfoModel,
}

/// What a causal graph holds: its kind, its nodes and its edges, both in the
/// order in which they were added.
pub struct GraphModel {
    pub directed: bool,
    pub nodes: Seq<NodeModel>,
    pub edges: Seq<EdgeModel>,
}

/// The model of a stored edge.
pub open spec fn edge_model(edge: (u32, u32, EdgeInfo)) -> EdgeModel {
    EdgeModel { source: edge.0 as int, target: edge.1 as int, info: edge.2@ }
}

/// Causal Graph
#[derive(Debug)]
pub enum CausalGraph {
    /// Dag
    Dag(Graph<NodeInfo, EdgeInfo, Directed, u32>),
    /// Ungraph
    Ungraph(Graph<NodeInfo, EdgeInfo, Undirected, u32>),
}

impl View for CausalGraph {
    type V = GraphModel;

    open spec fn view(&self) -> GraphModel {
        GraphModel {
            directed: self is Dag,
            nodes: self.nodes().map_values(|n: NodeInfo| n@),
            edges: self.edges().map_values(|e: (u32, u32, EdgeInfo)| edge_model(e)),
        }
    }
}

impl CausalGraph {
    /// The node records, in index order.
    pub open spec fn nodes(&self) -> Seq<NodeInfo> {
        match self {
            CausalGraph::Dag(g) => dag_nodes(*g),
            CausalGraph::Ungraph(g) => ungraph_nodes(*g),
        }
    }

    /// The edges, in index order: source, target and record.
    pub open spec fn edges(&self) -> Seq<(u32, u32, EdgeInfo)> {
        match self {
            CausalGraph::Dag(g) => dag_edges(*g),
            CausalGraph::Ungraph(g) => ungraph_edges(*g),
        }
    }

    /// The graph is consistent: every edge joins two of its nodes, and the
    /// nodes and the edges can each be numbered in 32 bits.
    pub open spec fn well_formed(&self) -> bool {
        &&& self.nodes().len() <= u32::MAX
        &&& self.edges().len() <= u32::MAX
        &&& forall|e: int|
            0 <= e < self.edges().len() ==> (#[trigger] self.edges()[e]).0 < self.nodes().len()
                && self.edges()[e].1 < self.nodes().len()
    }

    /// An empty directed graph.
    pub fn new_dag() -> (r: Self)
        ensures
            r is Dag,
            r.well_formed(),
            r.nodes() == Seq::<NodeInfo>::empty(),
            r.edges() == Seq::<(u32, u32, EdgeInfo)>::empty(),
    {
        CausalGraph::Dag(dag_new())
    }

    /// An empty undirected graph.
    pub fn new_ungraph() -> (r: Self)
        ensures
            r is Ungraph,
            r.well_formed(),
            r.nodes() == Seq::<NodeInfo>::empty(),
            r.edges() == Seq::<(u32, u32, EdgeInfo)>::empty(),
    {
        CausalGraph::Ungraph(ungraph_new())
    }

    /// Tells whether the edges of the graph are directed.
    pub fn is_directed(&self) -> (r: bool)
        ensures
            r == (self is Dag),
    {
        match self {
            CausalGraph::Dag(_) => true,
            CausalGraph::Ungraph(_) => false,
        }
    }

    /// The number of nodes.
    pub fn node_count(&self) -> (r: usize)
        ensures
            r == self.nodes().len(),
    {
        match self {
            CausalGraph::Dag(g) => dag_node_count(g),
            CausalGraph::Ungraph(g) => ungraph_node_count(g),
        }
    }

    /// The number of edges.
    pub fn edge_count(&self) -> (r: usize)
        ensures
            r == self.edges().len(),
    {
        match self {
            CausalGraph::Dag(g) => dag_edge_count(g),
            CausalGraph::Ungraph(g) => ungraph_edge_count(g),
        }
    }

    /// Add new node to the graph.
    ///
    /// The node is appended: it gets the next free index, and nothing else
    /// changes. The graph must have an index left for it.
    pub fn add_node(&mut self, n: NodeInfo) -> (r: NodeIndex)
        requires
            old(self).well_formed(),
            old(self).nodes().len() < u32::MAX,
        ensures
            final(self).well_formed(),
            (*final(self) is Dag) == (*old(self) is Dag),
            final(self).nodes() == old(self).nodes().push(n),
            final(self).edges() == old(self).edges(),
            r.ix == old(self).nodes().len(),
    {
        let ix = match self {
            CausalGraph::Dag(g) => dag_add_node(g, n),
            CausalGraph::Ungraph(g) => ungraph_add_node(g, n),
        };
        NodeIndex { ix }
    }

    /// Add new edge to the graph.
    ///
    /// The edge is appended: it gets the next free index, and nothing else
    /// changes. Both endpoints must be nodes of this graph, and the graph
    /// must have an index left for the edge.
    pub fn add_edge(&mut self, left: NodeIndex, right: NodeIndex, e: EdgeInfo) -> (r: EdgeIndex)
        requires
            old(self).well_formed(),
            left.ix < old(self).nodes().len(),
            right.ix < old(self).nodes().len(),
            old(self).edges().len() < u32::MAX,
        ensures
            final(self).well_formed(),
            (*final(self) is Dag) == (*old(self) is Dag),
            final(self).nodes() == old(self).nodes(),
            final(self).edges() == old(self).edges().push((left.ix, right.ix, e)),
            r.ix == old(self).edges().len(),
    {
        let ix = match self {
            CausalGraph::Dag(g) => dag_add_edge(g, left.ix, right.ix, e),
            CausalGraph::Ungraph(g) => ungraph_add_edge(g, left.ix, right.ix, e),
        };
        EdgeIndex { ix }
    }

    /// Add edges: each is appended in turn, as `add_edge` does.
    pub fn add_edges(&mut self, edges: Vec<(NodeIndex, NodeIndex, EdgeInfo)>)
        requires
            old(self).well_formed(),
            old(self).edges().len() + edges.len() <= u32::MAX,
            forall|i: int|
                0 <= i < edges.len() ==> (#[trigger] edges[i]).0.ix < old(self).nodes().len()
                    && edges[i].1.ix < old(self).nodes().len(),
        ensures
            final(self).well_formed(),
            (*final(self) is Dag) == (*old(self) is Dag),
            final(self).nodes() == old(self).nodes(),
            final(self).edges() == old(self).edges() + edges@.map_values(
                |e: (NodeIndex, NodeIndex, EdgeInfo)| (e.0.ix, e.1.ix, e.2),
            ),
    {
        let ghost added = edges@.map_values(
            |e: (NodeIndex, NodeIndex, EdgeInfo)| (e.0.ix, e.1.ix, e.2),
        );
        let ghost count = edges.len();
        for edge in it: edges
            invariant
                it.seq().len() == count,
                added.len() == count,
                forall|i: int|
                    0 <= i < count ==> added[i] == (
                        it.seq()[i].0.ix,
                        it.seq()[i].1.ix,
                        it.seq()[i].2,
                    ),
                forall|i: int|
                    0 <= i < count ==> (#[trigger] it.seq()[i]).0.ix < old(self).nodes().len()
                        && it.seq()[i].1.ix < old(self).nodes().len(),
                self.well_formed(),
                (*self is Dag) == (*old(self) is Dag),
                self.nodes() == old(self).nodes(),
                self.edges() == old(self).edges() + added.take(it.index() as int),
                old(self).edges().len() + count <= u32::MAX,
        {
            self.add_edge(edge.0, edge.1, edge.2);
        }
    }

    /// The record of node `a`, if the graph has such a node.
    pub fn node_weight(&self, a: NodeIndex) -> (r: Option<&NodeInfo>)
        ensures
            r is Some <==> a.ix < self.nodes().len(),
            r is Some ==> *r->0 == self.nodes()[a.ix as int],
    {
        match self {
            CausalGraph::Dag(g) => dag_node_weight(g, a.ix),
            CausalGraph::Ungraph(g) => ungraph_node_weight(g, a.ix),
        }
    }

    /// The record of edge `e`, if the graph has such an edge.
    pub fn edge_weight(&self, e: EdgeIndex) -> (r: Option<&EdgeInfo>)
        ensures
            r is Some <==> e.ix < self.edges().len(),
            r is Some ==> *r->0 == self.edges()[e.ix as int].2,
    {
        match self {
            CausalGraph::Dag(g) => dag_edge_weight(g, e.ix),
            CausalGraph::Ungraph(g) => ungraph_edge_weight(g, e.ix),
        }
    }

    /// Source and target of edge `e`, if the graph has such an edge.
    pub fn edge_endpoints(&self, e: EdgeIndex) -> (r: Option<(NodeIndex, NodeIndex)>)
        ensures
            r is Some <==> e.ix < self.edges().len(),
            match r {
                Some((source, target)) => source.ix == self.edges()[e.ix as int].0 && target.ix
                    == self.edges()[e.ix as int].1,
                None => true,
            },
    {
        let ends = match self {
            CausalGraph::Dag(g) => dag_edge_endpoints(g, e.ix),
            CausalGraph::Ungraph(g) => ungraph_edge_endpoints(g, e.ix),
        };
        match ends {
            Some((a, b)) => Some((NodeIndex { ix: a }, NodeIndex { ix: b })),
            None => None,
        }
    }
}

} // verus!
