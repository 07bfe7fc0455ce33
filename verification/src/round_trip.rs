//! What is written can be read again: the text of a graph is a document of
//! the notation, and the graph it describes has the nodes and edges of the
//! graph that was written.

pub mod tokens;
pub mod lines;
pub mod document;
pub mod meaning;
pub mod writable;

use vstd::prelude::*;
use crate::builder::fresh_builder;
use crate::graph::GraphModel;
use crate::parser::{parse_graph, with_stmts};
use crate::round_trip::document::{graph_stmts, is_writable, lemma_text_is_document};
use crate::round_trip::meaning::{edge_is_kept, lemma_stmts_build, same_structure};
use crate::round_trip::writable::lemma_read_graph_is_writable;
use crate::serializer::graph_text;

verus! {

/// A writable graph that is written and read again has the structure it
/// had: the text is a document of the notation, and the graph that the
/// text describes is of the same kind, has the same nodes in the same
/// order, and as many edges, each between nodes with the identifiers that
/// the nodes of the written edge have.
pub proof fn lemma_written_graph_is_read_back(g: GraphModel)
    requires
        is_writable(g),
    ensures
        parse_graph(graph_text(g)) is Ok,
        same_structure(g, parse_graph(graph_text(g))->Ok_0),
{
    lemma_text_is_document(g);
    let stmts = graph_stmts(g);
    lemma_stmts_build(g, stmts.len() as int);
    assert(stmts.take(stmts.len() as int) == stmts);
    assert(g.nodes.take(g.nodes.len() as int) == g.nodes);
    let b = with_stmts(fresh_builder(g.directed), stmts);
    let h = b.graph->0;
    assert forall|e: int| 0 <= e < g.edges.len() implies 0 <= (#[trigger] h.edges[e]).source
        < h.nodes.len() && 0 <= h.edges[e].target < h.nodes.len() && h.nodes[h.edges[e].source].id
        == g.nodes[g.edges[e].source].id && h.nodes[h.edges[e].target].id
        == g.nodes[g.edges[e].target].id by {
        assert(edge_is_kept(g, b, g.nodes.len() as int, e));
    }
}

/// Reading, writing and reading again keeps the structure: if a text
/// describes a graph, then what is written for that graph is again a
/// document of the notation, and the graph it describes is of the same
/// kind, has the same nodes, with their identifiers, vertex types and
/// positions, in the same order, and as many edges, each between nodes
/// with the identifiers that the nodes of the first graph's edge have.
pub proof fn lemma_round_trip(text: Seq<char>)
    requires
        parse_graph(text) is Ok,
    ensures
        parse_graph(graph_text(parse_graph(text)->Ok_0)) is Ok,
        same_structure(
            parse_graph(text)->Ok_0,
            parse_graph(graph_text(parse_graph(text)->Ok_0))->Ok_0,
        ),
{
    lemma_read_graph_is_writable(text);
    lemma_written_graph_is_read_back(parse_graph(text)->Ok_0);
}

} // verus!
