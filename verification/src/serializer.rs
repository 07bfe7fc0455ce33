//! Writing a causal graph in dagitty notation.

use vstd::prelude::*;
use vstd::string::*;
use crate::dagitty::{edge_attr_text, node_text, NodeModel};
use crate::graph::{CausalGraph, EdgeIndex, EdgeModel, GraphModel, NodeIndex};

verus! {

/// The line that opens a graph of the given kind.
pub open spec fn header_text(directed: bool) -> Seq<char> {
    if directed {
        "dag {\n"@
    } else {
        "graph {\n"@
    }
}

/// The operator between the endpoints of an edge, with its spaces.
pub open spec fn operator_text(directed: bool) -> Seq<char> {
    if directed {
        " -> "@
    } else {
        " -- "@
    }
}

/// The line of one node: its statement.
pub open spec fn node_line(node: NodeModel) -> Seq<char> {
    node_text(node) + "\n"@
}

/// The line of one edge: the identifiers of its source and target with the
/// operator between them, then its attributes.
pub open spec fn edge_line(directed: bool, nodes: Seq<NodeModel>, edge: EdgeModel) -> Seq<char> {
    nodes[edge.source].id + operator_text(directed) + nodes[edge.target].id + edge_attr_text(
        edge.info,
    ) + "\n"@
}

/// The lines of a graph: one for each node, then one for each edge, both in
/// index order.
pub open spec fn graph_lines(g: GraphModel) -> Seq<Seq<char>> {
    Seq::new(g.nodes.len(), |i: int| node_line(g.nodes[i])) + Seq::new(
        g.edges.len(),
        |e: int| edge_line(g.directed, g.nodes, g.edges[e]),
    )
}

/// The lines one after the other.
pub open spec fn concat(lines: Seq<Seq<char>>) -> Seq<char>
    decreases lines.len(),
{
    if lines.len() == 0 {
        Seq::<char>::empty()
    } else {
        concat(lines.drop_last()) + lines.last()
    }
}

/// A graph in dagitty notation: the opening line, the lines of the graph
/// and the closing brace.
pub open spec fn graph_text(g: GraphModel) -> Seq<char> {
    header_text(g.directed) + concat(graph_lines(g)) + "}"@
}

impl CausalGraph {
    /// Writes the graph in dagitty notation.
    pub fn to_string(&self) -> (r: String)
        requires
            self.well_formed(),
        ensures
            r@ == graph_text(self@),
    {
        let ghost lines = graph_lines(self@);
        let directed = self.is_directed();
        let mut result = if directed {
            String::from_str("dag {\n")
        } else {
            String::from_str("graph {\n")
        };
        let node_count = self.node_count();
        let mut i: usize = 0;
        while i < node_count
            invariant
                0 <= i <= node_count == self.nodes().len() <= u32::MAX,
                lines == graph_lines(self@),
                result@ == header_text(self@.directed) + concat(lines.take(i as int)),
            decreases node_count - i,
        {
            let node = self.node_weight(NodeIndex { ix: i as u32 }).unwrap();
            result.append(node.to_string().as_str());
            result.append("\n");
            proof {
                assert(lines.take(i + 1).drop_last() == lines.take(i as int));
                assert(result@ =~= header_text(self@.directed) + concat(lines.take(i + 1)));
            }
            i += 1;
        }
        let edge_count = self.edge_count();
        let mut j: usize = 0;
        while j < edge_count
            invariant
                self.well_formed(),
                directed == self@.directed,
                node_count == self.nodes().len(),
                0 <= j <= edge_count == self.edges().len() <= u32::MAX,
                lines == graph_lines(self@),
                result@ == header_text(self@.directed) + concat(lines.take(node_count + j)),
            decreases edge_count - j,
        {
            let index = EdgeIndex { ix: j as u32 };
            let edge = self.edge_weight(index).unwrap();
            let (source, target) = self.edge_endpoints(index).unwrap();
            result.append(self.node_weight(source).unwrap().id.as_str());
            result.append(if directed { " -> " } else { " -- " });
            result.append(self.node_weight(target).unwrap().id.as_str());
            result.append(edge.to_string().as_str());
            result.append("\n");
            proof {
                let at = node_count + j;
                assert(lines.take(at + 1).drop_last() == lines.take(at as int));
            }
            j += 1;
        }
        assert(lines.take(node_count + j) == lines);
        result.append("}");
        result
    }
}

} // verus!
