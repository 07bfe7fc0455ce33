//! The text of a graph, read as a document.

use vstd::prelude::*;
use crate::coordinate::is_numeral;
use crate::grammar::{
    graph_kind, graph_type_start, has_char, in_class, is_space, keyword_end, parse_document,
    parse_graph_name, parse_stmt, parse_stmts_from, skip_separator, skip_spaces, word_end,
    CharClass, DocumentModel, ParseError, StmtModel,
};
use crate::graph::GraphModel;
use crate::round_trip::lines::{
    edge_attr_chars, edge_stmt, keyword_part, lemma_edge_line_is_read, lemma_edge_line_layout,
    lemma_node_line_is_read, lemma_node_line_layout, node_stmt, operator_chars, pos_equals,
    quoted_position,
};
use crate::round_trip::tokens::{
    has_piece, is_boundary, is_identifier, lemma_brace_is_boundary, lemma_identifier_is_boundary,
    lemma_no_space, lemma_numeral_is_bare_word, lemma_one_space, lemma_piece_split,
    lemma_run_over,
};
use crate::serializer::{concat, graph_lines, graph_text, header_text, node_line};

verus! {

/// The graph can be written so that it can be read again: the identifiers
/// of its nodes are identifiers of the notation, its coordinates are
/// numerals, and its edges join nodes of the graph.
pub open spec fn is_writable(g: GraphModel) -> bool {
    &&& forall|i: int|
        0 <= i < g.nodes.len() ==> is_identifier((#[trigger] g.nodes[i]).id) && is_numeral(
            g.nodes[i].layout_pos.x,
        ) && is_numeral(g.nodes[i].layout_pos.y)
    &&& forall|e: int|
        0 <= e < g.edges.len() ==> 0 <= (#[trigger] g.edges[e]).source < g.nodes.len() && 0
            <= g.edges[e].target < g.nodes.len() && (g.edges[e].info.layout_pos is Some
            ==> is_numeral(g.edges[e].info.layout_pos->0.x) && is_numeral(
            g.edges[e].info.layout_pos->0.y,
        ))
}

/// The statements that the lines of a graph are: one for each node, then
/// one for each edge.
pub open spec fn graph_stmts(g: GraphModel) -> Seq<StmtModel> {
    Seq::new(g.nodes.len(), |i: int| node_stmt(g.nodes[i])) + Seq::new(
        g.edges.len(),
        |e: int|
            edge_stmt(
                g.directed,
                g.nodes[g.edges[e].source].id,
                g.nodes[g.edges[e].target].id,
                g.edges[e].info,
            ),
    )
}

/// Where line `i` of a graph begins in its text.
pub open spec fn line_start(g: GraphModel, i: int) -> int {
    (header_text(g.directed).len() + concat(graph_lines(g).take(i)).len()) as int
}

/// The first lines of a text are the beginning of all its lines.
pub proof fn lemma_concat_prefix(lines: Seq<Seq<char>>, i: int)
    requires
        0 <= i <= lines.len(),
    ensures
        concat(lines.take(i)).len() <= concat(lines).len(),
        forall|k: int|
            0 <= k < concat(lines.take(i)).len() ==> #[trigger] concat(lines.take(i))[k] == concat(
                lines,
            )[k],
    decreases lines.len() - i,
{
    if i < lines.len() {
        lemma_concat_prefix(lines, i + 1);
        assert(lines.take(i + 1).drop_last() == lines.take(i));
        assert forall|k: int| 0 <= k < concat(lines.take(i)).len() implies #[trigger] concat(
            lines.take(i),
        )[k] == concat(lines)[k] by {
            assert(concat(lines.take(i + 1))[k] == concat(lines.take(i))[k]);
        }
    } else {
        assert(lines.take(i) == lines);
    }
}

/// The text of a graph holds each line where the line begins, the next
/// line begins where it ends, and the closing brace stands behind the last.
pub proof fn lemma_text_holds_lines(g: GraphModel, i: int)
    requires
        0 <= i <= graph_lines(g).len(),
    ensures
        0 <= line_start(g, i) < graph_text(g).len(),
        i < graph_lines(g).len() ==> has_piece(graph_text(g), line_start(g, i), graph_lines(g)[i])
            && line_start(g, i + 1) == line_start(g, i) + graph_lines(g)[i].len(),
        i == graph_lines(g).len() ==> has_char(graph_text(g), line_start(g, i), '}')
            && line_start(g, i) + 1 == graph_text(g).len(),
{
    let lines = graph_lines(g);
    let t = graph_text(g);
    reveal_strlit("}");
    assert("}"@ =~= seq!['}']);
    if i < lines.len() {
        lemma_concat_prefix(lines, i + 1);
        assert(lines.take(i + 1).drop_last() == lines.take(i));
        let before = concat(lines.take(i));
        let upto = concat(lines.take(i + 1));
        assert forall|k: int| 0 <= k < lines[i].len() implies #[trigger] lines[i][k] == t[
            line_start(g, i) + k] by {
            assert(upto[before.len() + k] == lines[i][k]);
        }
    } else {
        assert(lines.take(i) == lines);
    }
}

/// The characters of the opening line.
pub proof fn lemma_header_layout(directed: bool)
    ensures
        directed ==> header_text(directed) == seq!['d', 'a', 'g', ' ', '{', '\n'],
        !directed ==> header_text(directed) == seq!['g', 'r', 'a', 'p', 'h', ' ', '{', '\n'],
{
    reveal_strlit("dag {\n");
    reveal_strlit("graph {\n");
}

/// Line `i` of a writable graph is read as statement `i` of the graph.
pub proof fn lemma_line_is_read(g: GraphModel, i: int)
    requires
        is_writable(g),
        0 <= i < graph_lines(g).len(),
    ensures
        is_boundary(graph_text(g), line_start(g, i)),
        graph_text(g)[line_start(g, i)] != '}',
        is_boundary(graph_text(g), line_start(g, i + 1)) ==> parse_stmt(
            graph_text(g),
            line_start(g, i),
        ) == Ok::<(StmtModel, int), ParseError>((graph_stmts(g)[i], line_start(g, i + 1) - 1))
            && skip_separator(
            graph_text(g),
            skip_spaces(graph_text(g), line_start(g, i + 1) - 1),
            ';',
            ';',
        ) == line_start(g, i + 1),
{
    let t = graph_text(g);
    let p = line_start(g, i);
    lemma_text_holds_lines(g, i);
    let n = g.nodes.len() as int;
    if i < n {
        let node = g.nodes[i];
        assert(graph_lines(g)[i] == node_line(node));
        lemma_numeral_is_bare_word(node.layout_pos.x);
        lemma_numeral_is_bare_word(node.layout_pos.y);
        lemma_node_line_layout(node);
        lemma_piece_split(
            t,
            p,
            node.id + seq![' ', '['] + keyword_part(node.vertex_type) + (pos_equals()
                + quoted_position(node.layout_pos)),
            seq![']', '\n'],
        );
        lemma_piece_split(
            t,
            p,
            node.id + seq![' ', '['] + keyword_part(node.vertex_type),
            pos_equals() + quoted_position(node.layout_pos),
        );
        lemma_piece_split(t, p, node.id + seq![' ', '['], keyword_part(node.vertex_type));
        lemma_piece_split(t, p, node.id, seq![' ', '[']);
        lemma_identifier_is_boundary(t, p, node.id);
        if is_boundary(t, line_start(g, i + 1)) {
            lemma_node_line_is_read(t, p, node);
        }
    } else {
        let edge = g.edges[i - n];
        let source = g.nodes[edge.source].id;
        let target = g.nodes[edge.target].id;
        lemma_edge_line_layout(g.directed, g.nodes, edge);
        if edge.info.layout_pos is Some {
            lemma_numeral_is_bare_word(edge.info.layout_pos->0.x);
            lemma_numeral_is_bare_word(edge.info.layout_pos->0.y);
        }
        lemma_piece_split(
            t,
            p,
            source + operator_chars(g.directed) + target + edge_attr_chars(edge.info),
            seq!['\n'],
        );
        lemma_piece_split(
            t,
            p,
            source + operator_chars(g.directed) + target,
            edge_attr_chars(edge.info),
        );
        lemma_piece_split(t, p, source + operator_chars(g.directed), target);
        lemma_piece_split(t, p, source, operator_chars(g.directed));
        lemma_identifier_is_boundary(t, p, source);
        if is_boundary(t, line_start(g, i + 1)) {
            lemma_edge_line_is_read(t, p, g.directed, source, target, edge.info);
        }
    }
}

/// From line `i` on, the lines of a writable graph are read as the
/// statements of the graph, up to the end of its text.
pub proof fn lemma_lines_are_read(g: GraphModel, i: int, acc: Seq<StmtModel>)
    requires
        is_writable(g),
        0 <= i <= graph_lines(g).len(),
    ensures
        parse_stmts_from(graph_text(g), line_start(g, i), acc) == Ok::<
            (Seq<StmtModel>, int),
            ParseError,
        >((acc + graph_stmts(g).skip(i), graph_text(g).len() as int)),
    decreases graph_lines(g).len() - i,
{
    let t = graph_text(g);
    lemma_text_holds_lines(g, i);
    if i < graph_lines(g).len() {
        lemma_text_holds_lines(g, i + 1);
        if i + 1 < graph_lines(g).len() {
            lemma_line_is_read(g, i + 1);
        } else {
            lemma_brace_is_boundary(t, line_start(g, i + 1));
        }
        lemma_line_is_read(g, i);
        let stmt = graph_stmts(g)[i];
        lemma_lines_are_read(g, i + 1, acc.push(stmt));
        assert(acc.push(stmt) + graph_stmts(g).skip(i + 1) =~= acc + graph_stmts(g).skip(i));
    } else {
        assert(acc + graph_stmts(g).skip(i) =~= acc);
    }
}

/// The graph keyword that is written for a graph of the given kind.
pub open spec fn graph_document_type(directed: bool) -> Seq<char> {
    if directed {
        "dag"@
    } else {
        "graph"@
    }
}

/// The document that the text of a graph is.
pub open spec fn graph_document(g: GraphModel) -> DocumentModel {
    DocumentModel {
        strict: false,
        graph_type: graph_document_type(g.directed),
        directed: g.directed,
        name: None,
        stmts: graph_stmts(g),
    }
}

/// The opening line is read as the graph keyword and the opening brace.
pub proof fn lemma_header_is_read(t: Seq<char>, directed: bool)
    requires
        header_text(directed).len() < t.len(),
        forall|k: int| 0 <= k < header_text(directed).len() ==> t[k] == header_text(directed)[k],
        !is_space(t[header_text(directed).len() as int]),
    ensures
        graph_type_start(t) == 0,
        skip_spaces(t, 0) == 0,
        keyword_end(t, 0) == header_text(directed).len() - 3,
        t.subrange(0, header_text(directed).len() - 3) == graph_document_type(directed),
        graph_kind(graph_document_type(directed)) == Some(directed),
        parse_graph_name(t, skip_spaces(t, header_text(directed).len() - 3)) == Ok::<
            (Option<Seq<char>>, int),
            ParseError,
        >((None, header_text(directed).len() - 2)),
        skip_spaces(t, header_text(directed).len() - 1) == header_text(directed).len(),
{
    let head = header_text(directed);
    lemma_header_layout(directed);
    reveal_strlit("strict");
    reveal_strlit("digraph");
    reveal_strlit("dag");
    reveal_strlit("graph");
    reveal_strlit("mag");
    reveal_strlit("pdag");
    reveal_strlit("pag");
    let word_end: int = head.len() - 3;
    assert(t[0] == head[0]);
    lemma_no_space(t, 0);
    assert(forall|k: int| 1 <= k < word_end ==> in_class(#[trigger] t[k], CharClass::Name));
    lemma_run_over(t, CharClass::Name, 1, word_end);
    let word = t.subrange(0, word_end);
    assert(forall|k: int| 0 <= k < word_end ==> word[k] == head[k]);
    lemma_one_space(t, word_end);
    lemma_one_space(t, word_end + 2);
}

/// The text of a writable graph is a document: that of its kind, with one
/// statement for each node and each edge.
pub proof fn lemma_text_is_document(g: GraphModel)
    requires
        is_writable(g),
    ensures
        parse_document(graph_text(g)) == Ok::<DocumentModel, ParseError>(graph_document(g)),
{
    let t = graph_text(g);
    lemma_text_holds_lines(g, 0);
    if graph_lines(g).len() > 0 {
        lemma_line_is_read(g, 0);
    } else {
        lemma_brace_is_boundary(t, line_start(g, 0));
    }
    lemma_header_is_read(t, g.directed);
    lemma_lines_are_read(g, 0, Seq::empty());
    assert(Seq::<StmtModel>::empty() + graph_stmts(g).skip(0) =~= graph_stmts(g));
    lemma_no_space(t, t.len() as int);
}

} // verus!
