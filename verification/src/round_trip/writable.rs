//! Which graphs can be written so that they can be read again.

use vstd::prelude::*;
use crate::builder::{fresh_builder, BuilderModel};
use crate::coordinate::{is_numeral, lemma_zero_is_numeral};
use crate::dagitty::PointModel;
use crate::grammar::{
    graph_type_start, keyword_end, lemma_run_end, lemma_stmt_advances, parse_document,
    parse_graph_name, parse_stmt, parse_stmts_from, skip_separator, skip_spaces, CharClass,
    HopModel, StmtModel,
};
use crate::graph::CausalGraph;
use crate::parser::{
    last_attr, last_in_list, last_in_lists, names_nodes, parse_graph, position_of,
    position_reader, with_hop, with_hops, with_stmt, with_stmts,
};
use crate::round_trip::document::is_writable;
use crate::round_trip::tokens::{is_identifier, lemma_identifier_alone};

verus! {

/// If the statement declares a node, it does so under an identifier.
pub open spec fn declares_identifier(stmt: StmtModel) -> bool {
    stmt is Node ==> is_identifier(stmt->Node_id)
}

/// A node statement that is read declares its node under an identifier.
pub proof fn lemma_read_stmt_declares_identifier(t: Seq<char>, pos: int)
    requires
        0 <= pos,
        parse_stmt(t, pos) is Ok,
    ensures
        declares_identifier(parse_stmt(t, pos)->Ok_0.0),
{
    lemma_identifier_alone(t, pos);
}

/// The node statements that are read declare their nodes under identifiers.
pub proof fn lemma_read_stmts_declare_identifiers(t: Seq<char>, pos: int, acc: Seq<StmtModel>)
    requires
        0 <= pos,
        forall|i: int| 0 <= i < acc.len() ==> declares_identifier(#[trigger] acc[i]),
        parse_stmts_from(t, pos, acc) is Ok,
    ensures
        forall|i: int|
            0 <= i < parse_stmts_from(t, pos, acc)->Ok_0.0.len() ==> declares_identifier(
                #[trigger] parse_stmts_from(t, pos, acc)->Ok_0.0[i],
            ),
    decreases t.len() - pos,
{
    if 0 <= pos < t.len() && t[pos] != '}' {
        lemma_stmt_advances(t, pos);
        lemma_read_stmt_declares_identifier(t, pos);
        let (stmt, end) = parse_stmt(t, pos)->Ok_0;
        let next = skip_separator(t, skip_spaces(t, end), ';', ';');
        let grown = acc.push(stmt);
        lemma_read_stmts_declare_identifiers(t, next, grown);
    }
}

/// The node statements of a document declare their nodes under identifiers.
pub proof fn lemma_document_declares_identifiers(t: Seq<char>)
    requires
        parse_document(t) is Ok,
    ensures
        forall|i: int|
            0 <= i < parse_document(t)->Ok_0.stmts.len() ==> declares_identifier(
                #[trigger] parse_document(t)->Ok_0.stmts[i],
            ),
{
    let start = graph_type_start(t);
    let end = keyword_end(t, start);
    let name = parse_graph_name(t, skip_spaces(t, end));
    let brace = name->Ok_0.1;
    let body = skip_spaces(t, brace + 1);
    lemma_run_end(t, CharClass::Space, 0);
    if brace + 1 <= t.len() && 0 <= brace {
        lemma_run_end(t, CharClass::Space, brace + 1);
    }
    if 0 <= body {
        lemma_read_stmts_declare_identifiers(t, body, Seq::empty());
    }
}

/// Both coordinates of the position are numerals.
pub open spec fn is_numeral_point(point: PointModel) -> bool {
    is_numeral(point.x) && is_numeral(point.y)
}

/// What a position attribute gives is a position of numerals.
pub proof fn lemma_position_is_numeral(value: Seq<char>)
    ensures
        is_numeral_point(position_of(value)),
{
    lemma_zero_is_numeral();
}

/// The position that a list of attributes gives is a position of numerals.
pub proof fn lemma_list_position_is_numeral(attrs: Seq<(Seq<char>, Seq<char>)>)
    ensures
        last_in_list(attrs, position_reader()) is Some ==> is_numeral_point(
            last_in_list(attrs, position_reader())->0,
        ),
    decreases attrs.len(),
{
    if attrs.len() > 0 {
        lemma_position_is_numeral(attrs.last().1);
        lemma_list_position_is_numeral(attrs.drop_last());
    }
}

/// The position that a statement gives is a position of numerals.
pub proof fn lemma_stmt_position_is_numeral(lists: Seq<Seq<(Seq<char>, Seq<char>)>>)
    ensures
        last_in_lists(lists, position_reader()) is Some ==> is_numeral_point(
            last_in_lists(lists, position_reader())->0,
        ),
    decreases lists.len(),
{
    if lists.len() > 0 {
        lemma_list_position_is_numeral(lists.last());
        lemma_stmt_position_is_numeral(lists.drop_last());
    }
}

/// The builder holds a writable graph, and every identifier names one of
/// its nodes.
pub open spec fn builds_writable(b: BuilderModel) -> bool {
    names_nodes(b) && is_writable(b.graph->0)
}

/// A chain of hops keeps a writable graph writable.
pub proof fn lemma_hops_keep_writable(
    b: BuilderModel,
    left: Seq<char>,
    hops: Seq<HopModel>,
    pos: Option<PointModel>,
)
    requires
        builds_writable(b),
        pos is Some ==> is_numeral_point(pos->0),
    ensures
        builds_writable(with_hops(b, left, hops, pos)),
    decreases hops.len(),
{
    if hops.len() > 0 {
        let stepped = with_hop(b, left, hops[0], pos);
        let h = stepped.graph->0;
        lemma_hops_keep_writable(stepped, hops[0].node_id, hops.skip(1), pos);
    }
}

/// A statement that declares its node, if any, under an identifier keeps
/// a writable graph writable.
pub proof fn lemma_stmt_keeps_writable(b: BuilderModel, stmt: StmtModel)
    requires
        builds_writable(b),
        declares_identifier(stmt),
    ensures
        builds_writable(with_stmt(b, stmt)),
{
    lemma_zero_is_numeral();
    match stmt {
        StmtModel::Node { id, attrs } => {
            if attrs is Some {
                lemma_stmt_position_is_numeral(attrs->0);
            }
            let h = with_stmt(b, stmt).graph->0;
        },
        StmtModel::Edge { id, hops, attrs } => {
            if attrs is Some {
                lemma_stmt_position_is_numeral(attrs->0);
            }
            lemma_hops_keep_writable(b, id, hops, last_attr(attrs, position_reader()));
        },
    }
}

/// Statements that declare their nodes under identifiers keep a writable
/// graph writable.
pub proof fn lemma_stmts_keep_writable(b: BuilderModel, stmts: Seq<StmtModel>)
    requires
        builds_writable(b),
        forall|i: int| 0 <= i < stmts.len() ==> declares_identifier(#[trigger] stmts[i]),
    ensures
        builds_writable(with_stmts(b, stmts)),
    decreases stmts.len(),
{
    if stmts.len() > 0 {
        lemma_stmts_keep_writable(b, stmts.drop_last());
        lemma_stmt_keeps_writable(with_stmts(b, stmts.drop_last()), stmts.last());
    }
}

/// The graph that a text describes is writable.
pub proof fn lemma_read_graph_is_writable(text: Seq<char>)
    requires
        parse_graph(text) is Ok,
    ensures
        is_writable(parse_graph(text)->Ok_0),
{
    let doc = parse_document(text)->Ok_0;
    lemma_document_declares_identifiers(text);
    lemma_stmts_keep_writable(fresh_builder(doc.directed), doc.stmts);
}

impl CausalGraph {
    /// A consistent graph whose nodes all have identifiers of the notation
    /// is writable: its coordinates are numerals as they are.
    pub proof fn lemma_is_writable(&self)
        requires
            self.well_formed(),
            forall|i: int|
                0 <= i < self.nodes().len() ==> is_identifier((#[trigger] self.nodes()[i]).id@),
        ensures
            is_writable(self@),
    {
        let g = self@;
        assert forall|i: int| 0 <= i < g.nodes.len() implies is_identifier(
            (#[trigger] g.nodes[i]).id,
        ) && is_numeral(g.nodes[i].layout_pos.x) && is_numeral(g.nodes[i].layout_pos.y) by {
            let node = self.nodes()[i];
            node.layout_pos.spec_x().lemma_is_numeral();
            node.layout_pos.spec_y().lemma_is_numeral();
        }
        assert forall|e: int| 0 <= e < g.edges.len() implies 0 <= (#[trigger] g.edges[e]).source
            < g.nodes.len() && 0 <= g.edges[e].target < g.nodes.len() && (
        g.edges[e].info.layout_pos is Some ==> is_numeral(g.edges[e].info.layout_pos->0.x)
            && is_numeral(g.edges[e].info.layout_pos->0.y)) by {
            let edge = self.edges()[e];
            if edge.2.layout_pos is Some {
                edge.2.layout_pos->0.spec_x().lemma_is_numeral();
                edge.2.layout_pos->0.spec_y().lemma_is_numeral();
            }
        }
    }
}

} // verus!
