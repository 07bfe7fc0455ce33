//! The line of a node and the line of an edge, read as statements.

use vstd::prelude::*;
use crate::dagitty::{vertex_type_keyword, EdgeInfoModel, NodeModel, PointModel, VertexType};
use crate::grammar::{
    has_char, is_word_char, parse_a_list_from, parse_attr, parse_attr_list_from, parse_stmt,
    skip_separator, skip_spaces, starts_word, EdgeOp, HopModel, ParseError, StmtModel,
};
use crate::graph::EdgeModel;
use crate::round_trip::tokens::{
    has_piece, is_bare_word, is_boundary, is_identifier, lemma_identifier_in_context,
    lemma_no_space, lemma_one_space, lemma_piece_is_subrange, lemma_piece_split,
    lemma_string_in_context, lemma_word_in_context,
};
use crate::serializer::{edge_line, node_line};

verus! {

/// A key that stands alone: a bare word with a `,` or a `]` behind it is
/// an attribute without a value.
pub proof fn lemma_key_is_read(t: Seq<char>, p: int, key: Seq<char>)
    requires
        has_piece(t, p, key),
        is_bare_word(key),
        has_char(t, p + key.len(), ',') || has_char(t, p + key.len(), ']'),
    ensures
        starts_word(t, p),
        parse_attr(t, p) == Ok::<((Seq<char>, Seq<char>), int), ParseError>(
            ((key, Seq::<char>::empty()), p + key.len()),
        ),
{
    lemma_word_in_context(t, p, key);
    lemma_piece_is_subrange(t, p, key);
    lemma_no_space(t, p + key.len());
}

/// The characters of `pos=`.
pub open spec fn pos_equals() -> Seq<char> {
    seq!['p', 'o', 's', '=']
}

/// `pos` is a bare word, three characters long.
pub proof fn lemma_pos_keyword()
    ensures
        "pos"@ == seq!['p', 'o', 's'],
        is_bare_word("pos"@),
{
    reveal_strlit("pos");
}

/// A position attribute whose value is a bare word is read as it stands.
pub proof fn lemma_bare_position_is_read(t: Seq<char>, p: int, value: Seq<char>)
    requires
        has_piece(t, p, pos_equals() + value),
        is_bare_word(value),
        p + 4 + value.len() < t.len(),
        !is_word_char(t[p + 4 + value.len()]),
    ensures
        starts_word(t, p),
        parse_attr(t, p) == Ok::<((Seq<char>, Seq<char>), int), ParseError>(
            (("pos"@, value), p + 4 + value.len()),
        ),
{
    lemma_pos_keyword();
    lemma_piece_split(t, p, pos_equals(), value);
    lemma_word_in_context(t, p, "pos"@);
    lemma_piece_is_subrange(t, p, "pos"@);
    lemma_no_space(t, p + 3);
    assert(value[0] == t[p + 4 + 0]);
    lemma_no_space(t, p + 4);
    lemma_word_in_context(t, p + 4, value);
    lemma_piece_is_subrange(t, p + 4, value);
}

/// The value of a position attribute as a node statement writes it: both
/// numerals between quotes, with a comma between them.
pub open spec fn quoted_position(point: PointModel) -> Seq<char> {
    seq!['"'] + point.x + seq![','] + point.y + seq!['"']
}

/// A position attribute whose value is a quoted position is read as it
/// stands.
pub proof fn lemma_quoted_position_is_read(t: Seq<char>, p: int, point: PointModel)
    requires
        has_piece(t, p, pos_equals() + quoted_position(point)),
        is_bare_word(point.x),
        is_bare_word(point.y),
    ensures
        starts_word(t, p),
        parse_attr(t, p) == Ok::<((Seq<char>, Seq<char>), int), ParseError>(
            (("pos"@, quoted_position(point)), p + 4 + quoted_position(point).len()),
        ),
{
    lemma_pos_keyword();
    let value = quoted_position(point);
    lemma_piece_split(t, p, pos_equals(), value);
    lemma_word_in_context(t, p, "pos"@);
    lemma_piece_is_subrange(t, p, "pos"@);
    lemma_no_space(t, p + 3);
    let inside = point.x + seq![','] + point.y;
    assert(value[0] == t[p + 4 + 0]);
    assert(value[value.len() - 1] == t[p + 4 + (value.len() - 1)]);
    lemma_no_space(t, p + 4);
    assert forall|i: int| 0 <= i < inside.len() implies #[trigger] inside[i] == t[p + 5 + i]
        && inside[i] != '"' by {
        assert(value[i + 1] == t[p + 4 + (i + 1)]);
    }
    lemma_string_in_context(t, p + 4, inside);
    lemma_piece_is_subrange(t, p + 4, value);
}

/// The keyword of a vertex type is a bare word.
pub proof fn lemma_keyword_is_bare_word(vertex_type: VertexType)
    requires
        vertex_type != VertexType::Unspecified,
    ensures
        is_bare_word(vertex_type_keyword(vertex_type)),
{
    reveal_strlit("adjusted");
    reveal_strlit("exposure");
    reveal_strlit("outcome");
    reveal_strlit("selected");
    reveal_strlit("unobserved");
    match vertex_type {
        VertexType::Adjusted => {
        },
        VertexType::Exposure => {
        },
        VertexType::Outcome => {
        },
        VertexType::Selected => {
        },
        VertexType::Unobserved => {
        },
        VertexType::Unspecified => {},
    }
}

/// The attributes that the line of a node holds: the keyword of its vertex
/// type, unless it has none, and its position between quotes.
pub open spec fn node_attrs(node: NodeModel) -> Seq<(Seq<char>, Seq<char>)> {
    if node.vertex_type == VertexType::Unspecified {
        seq![("pos"@, quoted_position(node.layout_pos))]
    } else {
        seq![
            (vertex_type_keyword(node.vertex_type), Seq::<char>::empty()),
            ("pos"@, quoted_position(node.layout_pos)),
        ]
    }
}

/// The statement that the line of a node is.
pub open spec fn node_stmt(node: NodeModel) -> StmtModel {
    StmtModel::Node { id: node.id, attrs: Some(seq![node_attrs(node)]) }
}

/// What stands in front of the position in the line of a node: the keyword
/// of the vertex type and a comma, or nothing.
pub open spec fn keyword_part(vertex_type: VertexType) -> Seq<char> {
    if vertex_type == VertexType::Unspecified {
        Seq::<char>::empty()
    } else {
        vertex_type_keyword(vertex_type) + seq![',']
    }
}

/// The line of a node, piece by piece.
pub proof fn lemma_node_line_layout(node: NodeModel)
    ensures
        node_line(node) == node.id + seq![' ', '['] + keyword_part(node.vertex_type) + (pos_equals()
            + quoted_position(node.layout_pos)) + seq![']', '\n'],
{
    reveal_strlit(" [pos=\"");
    reveal_strlit("\"]");
    reveal_strlit("\n");
    reveal_strlit(" [");
    reveal_strlit(",pos=\"");
    reveal_strlit(",");
}

/// The line of a node is read as the statement of that node, and the next
/// statement is looked for behind the line.
pub proof fn lemma_node_line_is_read(t: Seq<char>, p: int, node: NodeModel)
    requires
        has_piece(t, p, node_line(node)),
        is_identifier(node.id),
        is_bare_word(node.layout_pos.x),
        is_bare_word(node.layout_pos.y),
        is_boundary(t, p + node_line(node).len()),
    ensures
        parse_stmt(t, p) == Ok::<(StmtModel, int), ParseError>(
            (node_stmt(node), p + node_line(node).len() - 1),
        ),
        skip_separator(t, skip_spaces(t, p + node_line(node).len() - 1), ';', ';') == p
            + node_line(node).len(),
{
    lemma_node_line_layout(node);
    let id = node.id;
    let open = seq![' ', '['];
    let kw = keyword_part(node.vertex_type);
    let pos = pos_equals() + quoted_position(node.layout_pos);
    let close = seq![']', '\n'];
    lemma_piece_split(t, p, id + open + kw + pos, close);
    lemma_piece_split(t, p, id + open + kw, pos);
    lemma_piece_split(t, p, id + open, kw);
    lemma_piece_split(t, p, id, open);
    let a1 = p + id.len();
    let q0 = a1 + 2;
    let q1 = q0 + kw.len();
    let e1 = q1 + pos.len();
    // the identifier
    lemma_identifier_in_context(t, p, id);
    lemma_piece_is_subrange(t, p, id);
    lemma_one_space(t, a1);
    // the attributes
    lemma_quoted_position_is_read(t, q1, node.layout_pos);
    lemma_no_space(t, e1);
    let pos_attr = ("pos"@, quoted_position(node.layout_pos));
    if node.vertex_type == VertexType::Unspecified {
        assert(parse_a_list_from(t, e1, seq![pos_attr]) == Ok::<
            (Seq<(Seq<char>, Seq<char>)>, int),
            ParseError,
        >((seq![pos_attr], e1)));
    } else {
        let word = vertex_type_keyword(node.vertex_type);
        lemma_keyword_is_bare_word(node.vertex_type);
        lemma_piece_split(t, q0, word, seq![',']);
        assert(seq![','][0] == t[q0 + word.len() + 0]);
        lemma_key_is_read(t, q0, word);
        let key_attr = (word, Seq::<char>::empty());
        lemma_no_space(t, q0 + word.len());
        lemma_no_space(t, q1);
        assert(skip_separator(t, skip_spaces(t, q0 + word.len()), ',', ';') == q1);
        assert(parse_a_list_from(t, e1, seq![key_attr, pos_attr]) == Ok::<
            (Seq<(Seq<char>, Seq<char>)>, int),
            ParseError,
        >((seq![key_attr, pos_attr], e1)));
        assert(seq![key_attr].push(pos_attr) =~= seq![key_attr, pos_attr]);
        assert(parse_a_list_from(t, q1, seq![key_attr]) == Ok::<
            (Seq<(Seq<char>, Seq<char>)>, int),
            ParseError,
        >((seq![key_attr, pos_attr], e1)));
    }
    // the brackets
    if node.vertex_type == VertexType::Unspecified {
    } else {
        lemma_keyword_is_bare_word(node.vertex_type);
    }
    lemma_no_space(t, q0);
    lemma_one_space(t, e1 + 1);
}

/// The operator that the line of an edge holds.
pub open spec fn written_op(directed: bool) -> EdgeOp {
    if directed {
        EdgeOp::Forward
    } else {
        EdgeOp::Undirected
    }
}

/// The attribute lists that the line of an edge holds: none for a straight
/// edge; for a bent one the first coordinate as the value of `pos`, and the
/// second as a key of its own.
pub open spec fn edge_attrs(info: EdgeInfoModel) -> Option<Seq<Seq<(Seq<char>, Seq<char>)>>> {
    match info.layout_pos {
        Some(point) => Some(seq![seq![("pos"@, point.x), (point.y, Seq::<char>::empty())]]),
        None => None,
    }
}

/// The statement that the line of an edge from `source` to `target` is.
pub open spec fn edge_stmt(
    directed: bool,
    source: Seq<char>,
    target: Seq<char>,
    info: EdgeInfoModel,
) -> StmtModel {
    StmtModel::Edge {
        id: source,
        hops: seq![HopModel { op: written_op(directed), node_id: target }],
        attrs: edge_attrs(info),
    }
}

/// The characters of the operator in the line of an edge, with its spaces.
pub open spec fn operator_chars(directed: bool) -> Seq<char> {
    if directed {
        seq![' ', '-', '>', ' ']
    } else {
        seq![' ', '-', '-', ' ']
    }
}

/// The characters of the attributes in the line of an edge.
pub open spec fn edge_attr_chars(info: EdgeInfoModel) -> Seq<char> {
    match info.layout_pos {
        Some(point) => seq![' ', '['] + (pos_equals() + point.x) + seq![','] + point.y + seq![']'],
        None => Seq::<char>::empty(),
    }
}

/// The line of an edge from `source` to `target`, piece by piece.
pub open spec fn edge_line_chars(
    directed: bool,
    source: Seq<char>,
    target: Seq<char>,
    info: EdgeInfoModel,
) -> Seq<char> {
    source + operator_chars(directed) + target + edge_attr_chars(info) + seq!['\n']
}

/// The line of an edge is made of these pieces.
pub proof fn lemma_edge_line_layout(directed: bool, nodes: Seq<NodeModel>, edge: EdgeModel)
    ensures
        edge_line(directed, nodes, edge) == edge_line_chars(
            directed,
            nodes[edge.source].id,
            nodes[edge.target].id,
            edge.info,
        ),
{
    reveal_strlit(" -> ");
    reveal_strlit(" -- ");
    reveal_strlit(" [pos=");
    reveal_strlit("]");
    reveal_strlit("\n");
    reveal_strlit(",");
    match edge.info.layout_pos {
        Some(point) => {
        },
        None => {},
    }
}

/// The attributes in the line of a bent edge are read as one list: the
/// first coordinate as the value of `pos`, the second as a key of its own.
pub proof fn lemma_edge_attrs_are_read(t: Seq<char>, p: int, point: PointModel)
    requires
        has_piece(
            t,
            p,
            seq![' ', '['] + (pos_equals() + point.x) + seq![','] + point.y + seq![']'],
        ),
        is_bare_word(point.x),
        is_bare_word(point.y),
        has_char(t, p + 8 + point.x.len() + point.y.len(), '\n'),
        is_boundary(t, p + 9 + point.x.len() + point.y.len()),
    ensures
        has_char(t, p, ' '),
        has_char(t, p + 1, '['),
        parse_attr_list_from(t, p + 1, Seq::empty()) == Ok::<
            (Seq<Seq<(Seq<char>, Seq<char>)>>, int),
            ParseError,
        >(
            (
                seq![seq![("pos"@, point.x), (point.y, Seq::<char>::empty())]],
                p + 8 + point.x.len() + point.y.len(),
            ),
        ),
{
    let open = seq![' ', '['];
    let first = pos_equals() + point.x;
    let comma = seq![','];
    let close = seq![']'];
    lemma_piece_split(t, p, open + first + comma + point.y, close);
    lemma_piece_split(t, p, open + first + comma, point.y);
    lemma_piece_split(t, p, open + first, comma);
    lemma_piece_split(t, p, open, first);
    let q0 = p + 2;
    let c = q0 + first.len();
    let y0 = c + 1;
    let e1 = y0 + point.y.len();
    assert(comma[0] == t[c + 0]);
    assert(close[0] == t[e1 + 0]);
    lemma_bare_position_is_read(t, q0, point.x);
    lemma_no_space(t, c);
    assert(point.y[0] == t[y0 + 0]);
    lemma_no_space(t, y0);
    lemma_key_is_read(t, y0, point.y);
    lemma_no_space(t, e1);
    let pos_attr = ("pos"@, point.x);
    let key_attr = (point.y, Seq::<char>::empty());
    assert(parse_a_list_from(t, e1, seq![pos_attr, key_attr]) == Ok::<
        (Seq<(Seq<char>, Seq<char>)>, int),
        ParseError,
    >((seq![pos_attr, key_attr], e1)));
    assert(seq![pos_attr].push(key_attr) =~= seq![pos_attr, key_attr]);
    assert(parse_a_list_from(t, y0, seq![pos_attr]) == Ok::<
        (Seq<(Seq<char>, Seq<char>)>, int),
        ParseError,
    >((seq![pos_attr, key_attr], e1)));
    lemma_no_space(t, q0);
    lemma_one_space(t, e1 + 1);
}

/// The line of an edge is read as the statement of that edge, and the next
/// statement is looked for behind the line.
pub proof fn lemma_edge_line_is_read(
    t: Seq<char>,
    p: int,
    directed: bool,
    source: Seq<char>,
    target: Seq<char>,
    info: EdgeInfoModel,
)
    requires
        has_piece(t, p, edge_line_chars(directed, source, target, info)),
        is_identifier(source),
        is_identifier(target),
        info.layout_pos is Some ==> is_bare_word(info.layout_pos->0.x) && is_bare_word(
            info.layout_pos->0.y,
        ),
        is_boundary(t, p + edge_line_chars(directed, source, target, info).len()),
    ensures
        parse_stmt(t, p) == Ok::<(StmtModel, int), ParseError>(
            (
                edge_stmt(directed, source, target, info),
                p + edge_line_chars(directed, source, target, info).len() - 1,
            ),
        ),
        skip_separator(
            t,
            skip_spaces(t, p + edge_line_chars(directed, source, target, info).len() - 1),
            ';',
            ';',
        ) == p + edge_line_chars(directed, source, target, info).len(),
{
    let op = operator_chars(directed);
    let attr = edge_attr_chars(info);
    let end = seq!['\n'];
    lemma_piece_split(t, p, source + op + target + attr, end);
    lemma_piece_split(t, p, source + op + target, attr);
    lemma_piece_split(t, p, source + op, target);
    lemma_piece_split(t, p, source, op);
    let a1 = p + source.len();
    let d0 = a1 + 4;
    let d1 = d0 + target.len();
    let last = d1 + attr.len();
    assert(end[0] == t[last + 0]);
    // the source
    lemma_identifier_in_context(t, p, source);
    lemma_piece_is_subrange(t, p, source);
    lemma_one_space(t, a1);
    // the hop
    lemma_one_space(t, a1 + 3);
    let hop = HopModel { op: written_op(directed), node_id: target };
    match info.layout_pos {
        Some(point) => {
            lemma_edge_attrs_are_read(t, d1, point);
        },
        None => {},
    }
    lemma_identifier_in_context(t, d0, target);
    lemma_piece_is_subrange(t, d0, target);
    lemma_one_space(t, d1);
    lemma_one_space(t, last);
}

} // verus!
