//! What the statements of a written graph build.

use vstd::prelude::*;
use crate::builder::{fresh_builder, BuilderModel};
use crate::coordinate::is_numeral;
use crate::dagitty::{vertex_type_keyword, EdgeInfoModel, NodeModel, PointModel, VertexType};
use crate::grammar::{CharClass, HopModel};
use crate::graph::GraphModel;
use crate::parser::{
    declared_node, last_attr, last_in_list, last_in_lists, lemma_pos_is_no_vertex_type,
    position_of, position_reader, type_reader, unquoted, vertex_type_of_key, with_hop, with_hops,
    with_stmt, with_stmts,
};
use crate::round_trip::document::{graph_stmts, is_writable};
use crate::round_trip::lines::{
    edge_attrs, edge_stmt, node_attrs, node_stmt, quoted_position, written_op,
};
use crate::round_trip::tokens::{lemma_numeral_is_bare_word, lemma_run_over};

verus! {

/// The keyword of a vertex type is read as that vertex type.
pub proof fn lemma_keyword_names_type(vertex_type: VertexType)
    requires
        vertex_type != VertexType::Unspecified,
    ensures
        vertex_type_of_key(vertex_type_keyword(vertex_type)) == Some(vertex_type),
{
    reveal_strlit("adjusted");
    reveal_strlit("a");
    reveal_strlit("source");
    reveal_strlit("exposure");
    reveal_strlit("e");
    reveal_strlit("outcome");
    reveal_strlit("target");
    reveal_strlit("o");
    reveal_strlit("selected");
    reveal_strlit("s");
    reveal_strlit("latent");
    reveal_strlit("l");
    reveal_strlit("unobserved");
    reveal_strlit("u");
    let k = vertex_type_keyword(vertex_type);
    assert(k.len() >= 7);
    assert("adjusted"@[0] == 'a' && "exposure"@[0] == 'e' && "outcome"@[0] == 'o' && "selected"@[0]
        == 's' && "unobserved"@[0] == 'u' && "source"@[0] == 's' && "target"@[0] == 't'
        && "latent"@[0] == 'l');
}

/// A quoted position is read as the position that was written.
pub proof fn lemma_position_of_quoted(point: PointModel)
    requires
        is_numeral(point.x),
        is_numeral(point.y),
    ensures
        position_of(quoted_position(point)) == point,
{
    let value = quoted_position(point);
    let inner = point.x + seq![','] + point.y;
    assert(unquoted(value) =~= inner);
    lemma_numeral_is_bare_word(point.x);
    lemma_numeral_is_bare_word(point.y);
    lemma_run_over(inner, CharClass::Field, 0, point.x.len() as int);
    assert(inner.subrange(0, point.x.len() as int) =~= point.x);
    assert(inner.subrange(point.x.len() as int + 1, inner.len() as int) =~= point.y);
}

/// The statement of a node declares that node.
pub proof fn lemma_node_stmt_declares(node: NodeModel)
    requires
        is_numeral(node.layout_pos.x),
        is_numeral(node.layout_pos.y),
    ensures
        declared_node(node.id, Some(seq![node_attrs(node)])) == node,
{
    let attrs = node_attrs(node);
    let lists = seq![attrs];
    lemma_pos_is_no_vertex_type();
    lemma_position_of_quoted(node.layout_pos);
    if node.vertex_type == VertexType::Unspecified {
        assert(last_in_list(attrs.drop_last(), type_reader()) is None);
    } else {
        lemma_keyword_names_type(node.vertex_type);
    }
    assert(last_in_lists(lists.drop_last(), type_reader()) is None);
}

/// Two graphs have the same structure: they are of one kind, have the same
/// nodes in the same order, and as many edges, each of which joins nodes
/// with the same identifiers in both.
pub open spec fn same_structure(g: GraphModel, h: GraphModel) -> bool {
    &&& h.directed == g.directed
    &&& h.nodes == g.nodes
    &&& h.edges.len() == g.edges.len()
    &&& forall|e: int|
        0 <= e < g.edges.len() ==> 0 <= (#[trigger] h.edges[e]).source < h.nodes.len() && 0
            <= h.edges[e].target < h.nodes.len() && h.nodes[h.edges[e].source].id
            == g.nodes[g.edges[e].source].id && h.nodes[h.edges[e].target].id
            == g.nodes[g.edges[e].target].id
}

/// The identifier of node `i` of `g` names one of the first `count` nodes,
/// and that node has this identifier.
pub open spec fn node_is_named(g: GraphModel, b: BuilderModel, count: int, i: int) -> bool {
    &&& b.node_map.contains_key(g.nodes[i].id)
    &&& 0 <= b.node_map[g.nodes[i].id] < count
    &&& g.nodes[b.node_map[g.nodes[i].id]].id == g.nodes[i].id
}

/// Edge `e` of the builder joins two of the first `count` nodes, which have
/// the identifiers of the endpoints of edge `e` of `g`.
pub open spec fn edge_is_kept(g: GraphModel, b: BuilderModel, count: int, e: int) -> bool {
    &&& 0 <= b.graph->0.edges[e].source < count
    &&& 0 <= b.graph->0.edges[e].target < count
    &&& g.nodes[b.graph->0.edges[e].source].id == g.nodes[g.edges[e].source].id
    &&& g.nodes[b.graph->0.edges[e].target].id == g.nodes[g.edges[e].target].id
}

/// The builder holds the first `nodes` nodes of `g` and edges that stand
/// for its first `edges` edges, and every identifier of such a node names
/// a node with that identifier.
pub open spec fn is_built(g: GraphModel, b: BuilderModel, nodes: int, edges: int) -> bool {
    &&& b.graph is Some
    &&& b.graph->0.directed == g.directed
    &&& b.graph->0.nodes == g.nodes.take(nodes)
    &&& forall|i: int| 0 <= i < nodes ==> #[trigger] node_is_named(g, b, nodes, i)
    &&& b.graph->0.edges.len() == edges
    &&& forall|e: int| 0 <= e < edges ==> #[trigger] edge_is_kept(g, b, nodes, e)
}

/// How many of the first `k` statements of `g` are node statements.
pub open spec fn nodes_among(g: GraphModel, k: int) -> int {
    if k <= g.nodes.len() {
        k
    } else {
        g.nodes.len() as int
    }
}

/// The statement of node `k` adds node `k`.
pub proof fn lemma_node_is_built(g: GraphModel, b: BuilderModel, k: int)
    requires
        is_writable(g),
        0 <= k < g.nodes.len(),
        is_built(g, b, k, 0),
    ensures
        is_built(g, with_stmt(b, node_stmt(g.nodes[k])), k + 1, 0),
{
    let node = g.nodes[k];
    let after = with_stmt(b, node_stmt(node));
    lemma_node_stmt_declares(node);
    assert(after.graph->0.nodes =~= g.nodes.take(k + 1));
    assert forall|i: int| 0 <= i < k + 1 implies #[trigger] node_is_named(g, after, k + 1, i) by {
        if g.nodes[i].id != node.id {
            assert(node_is_named(g, b, k, i));
        }
    }
}

/// The statement of an edge is one hop from its source to its target.
pub proof fn lemma_edge_stmt_is_one_edge(
    b: BuilderModel,
    directed: bool,
    source: Seq<char>,
    target: Seq<char>,
    info: EdgeInfoModel,
)
    ensures
        with_stmt(b, edge_stmt(directed, source, target, info)) == with_hop(
            b,
            source,
            HopModel { op: written_op(directed), node_id: target },
            last_attr(edge_attrs(info), position_reader()),
        ),
{
    let hop = HopModel { op: written_op(directed), node_id: target };
    let hops = seq![hop];
    let pos = last_attr(edge_attrs(info), position_reader());
    let stepped = with_hop(b, source, hop, pos);
    assert(with_hops(stepped, target, hops.skip(1), pos) == stepped);
}

/// The statement of edge `e` adds an edge between nodes with the
/// identifiers of the endpoints of edge `e`.
pub proof fn lemma_edge_is_built(g: GraphModel, b: BuilderModel, e: int)
    requires
        is_writable(g),
        0 <= e < g.edges.len(),
        is_built(g, b, g.nodes.len() as int, e),
    ensures
        is_built(
            g,
            with_stmt(
                b,
                edge_stmt(
                    g.directed,
                    g.nodes[g.edges[e].source].id,
                    g.nodes[g.edges[e].target].id,
                    g.edges[e].info,
                ),
            ),
            g.nodes.len() as int,
            e + 1,
        ),
{
    let n = g.nodes.len() as int;
    let edge = g.edges[e];
    let source = g.nodes[edge.source].id;
    let target = g.nodes[edge.target].id;
    let after = with_stmt(b, edge_stmt(g.directed, source, target, edge.info));
    lemma_edge_stmt_is_one_edge(b, g.directed, source, target, edge.info);
    assert(node_is_named(g, b, n, edge.source));
    assert(node_is_named(g, b, n, edge.target));
    assert forall|i: int| 0 <= i < n implies #[trigger] node_is_named(g, after, n, i) by {
        assert(node_is_named(g, b, n, i));
    }
    assert forall|j: int| 0 <= j < e + 1 implies #[trigger] edge_is_kept(g, after, n, j) by {
        if j < e {
            assert(edge_is_kept(g, b, n, j));
        }
    }
}

/// The first `k` statements of a writable graph build its first nodes and
/// edges.
pub proof fn lemma_stmts_build(g: GraphModel, k: int)
    requires
        is_writable(g),
        0 <= k <= graph_stmts(g).len(),
    ensures
        is_built(
            g,
            with_stmts(fresh_builder(g.directed), graph_stmts(g).take(k)),
            nodes_among(g, k),
            k - nodes_among(g, k),
        ),
    decreases k,
{
    let stmts = graph_stmts(g);
    let n = g.nodes.len() as int;
    if k == 0 {
        assert(g.nodes.take(0) =~= Seq::<NodeModel>::empty());
    } else {
        lemma_stmts_build(g, k - 1);
        assert(stmts.take(k).drop_last() =~= stmts.take(k - 1));
        let before = with_stmts(fresh_builder(g.directed), stmts.take(k - 1));
        if k <= n {
            lemma_node_is_built(g, before, k - 1);
        } else {
            let e = k - 1 - n;
            lemma_edge_is_built(g, before, e);
        }
    }
}

} // verus!
