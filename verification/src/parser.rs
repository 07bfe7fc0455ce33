//! From statements to a causal graph: what the attributes of a statement
//! mean, and what each statement adds.

use vstd::prelude::*;
use crate::builder::{fresh_builder, with_edge, with_node, BuilderModel, CausalGraphBuilder};
use crate::coordinate::{numeral_or_zero, zero_numeral, Coordinate};
use crate::dagitty::{
    point_model, EdgeInfo, EdgeInfoModel, EdgeType, NodeInfo, NodeModel, PointModel, VertexType,
};
use crate::grammar::{
    parse_document, run_end, CharClass, DocumentModel, EdgeOp, HopModel, ParseError, StmtModel,
};
use crate::graph::{CausalGraph, GraphModel};
use crate::syntax::{
    attrs_model, hops_model, scan, stmt_size, stmts_model, stmts_size, AttrList, Document,
    EdgeHop, Stmt,
};
use crate::text::{str_equal, Source};
use crate::types::Point;

verus! {

/// The vertex type that an attribute key stands for, if it stands for one.
pub open spec fn vertex_type_of_key(key: Seq<char>) -> Option<VertexType> {
    if key == "adjusted"@ || key == "a"@ {
        Some(VertexType::Adjusted)
    } else if key == "source"@ || key == "exposure"@ || key == "e"@ {
        Some(VertexType::Exposure)
    } else if key == "outcome"@ || key == "target"@ || key == "o"@ {
        Some(VertexType::Outcome)
    } else if key == "selected"@ || key == "s"@ {
        Some(VertexType::Selected)
    } else if key == "latent"@ || key == "l"@ || key == "unobserved"@ || key == "u"@ {
        Some(VertexType::Unobserved)
    } else {
        None
    }
}

/// The vertex type that an attribute gives, if it gives one.
pub open spec fn attr_vertex_type(attr: (Seq<char>, Seq<char>)) -> Option<VertexType> {
    vertex_type_of_key(attr.0)
}

/// The value of a position attribute with its enclosing quotes taken off.
pub open spec fn unquoted(value: Seq<char>) -> Seq<char> {
    if value.len() >= 2 && value[0] == '"' && value.last() == '"' {
        value.subrange(1, value.len() - 1)
    } else {
        value
    }
}

/// The position that the value of a position attribute gives. Within the
/// quotes, the text in front of the first comma is the first coordinate and
/// the text behind it the second; a value without a comma is the second
/// coordinate alone. A coordinate that is no numeral, or missing, is zero.
pub open spec fn position_of(value: Seq<char>) -> PointModel {
    let inner = unquoted(value);
    let comma = run_end(inner, CharClass::Field, 0);
    if comma < inner.len() {
        PointModel {
            x: numeral_or_zero(inner.subrange(0, comma)),
            y: numeral_or_zero(inner.subrange(comma + 1, inner.len() as int)),
        }
    } else {
        PointModel { x: zero_numeral(), y: numeral_or_zero(inner) }
    }
}

/// The position that an attribute gives, if it is a position attribute.
pub open spec fn attr_position(attr: (Seq<char>, Seq<char>)) -> Option<PointModel> {
    if attr.0 == "pos"@ {
        Some(position_of(attr.1))
    } else {
        None
    }
}

/// What the last attribute of `attrs` that `read` accepts gives.
pub open spec fn last_in_list<T>(
    attrs: Seq<(Seq<char>, Seq<char>)>,
    read: spec_fn((Seq<char>, Seq<char>)) -> Option<T>,
) -> Option<T>
    decreases attrs.len(),
{
    if attrs.len() == 0 {
        None
    } else {
        match read(attrs.last()) {
            Some(found) => Some(found),
            None => last_in_list(attrs.drop_last(), read),
        }
    }
}

/// What the last attribute in `lists` that `read` accepts gives, the lists
/// and the attributes of each taken in order.
pub open spec fn last_in_lists<T>(
    lists: Seq<Seq<(Seq<char>, Seq<char>)>>,
    read: spec_fn((Seq<char>, Seq<char>)) -> Option<T>,
) -> Option<T>
    decreases lists.len(),
{
    if lists.len() == 0 {
        None
    } else {
        match last_in_list(lists.last(), read) {
            Some(found) => Some(found),
            None => last_in_lists(lists.drop_last(), read),
        }
    }
}

/// What the last attribute of a statement that `read` accepts gives.
pub open spec fn last_attr<T>(
    attrs: Option<Seq<Seq<(Seq<char>, Seq<char>)>>>,
    read: spec_fn((Seq<char>, Seq<char>)) -> Option<T>,
) -> Option<T> {
    match attrs {
        Some(lists) => last_in_lists(lists, read),
        None => None,
    }
}

/// Reads the vertex type off an attribute.
pub open spec fn type_reader() -> spec_fn((Seq<char>, Seq<char>)) -> Option<VertexType> {
    |a: (Seq<char>, Seq<char>)| attr_vertex_type(a)
}

/// Reads the position off an attribute.
pub open spec fn position_reader() -> spec_fn((Seq<char>, Seq<char>)) -> Option<PointModel> {
    |a: (Seq<char>, Seq<char>)| attr_position(a)
}

/// The position of the origin.
pub open spec fn origin() -> PointModel {
    PointModel { x: zero_numeral(), y: zero_numeral() }
}

/// The node that a node statement declares: its vertex type is that of the
/// last attribute that names one, its position that of the last position
/// attribute. Without such an attribute the node has no role, or lies at the
/// origin.
pub open spec fn declared_node(
    id: Seq<char>,
    attrs: Option<Seq<Seq<(Seq<char>, Seq<char>)>>>,
) -> NodeModel {
    NodeModel {
        id,
        layout_pos: match last_attr(attrs, position_reader()) {
            Some(p) => p,
            None => origin(),
        },
        vertex_type: match last_attr(attrs, type_reader()) {
            Some(t) => t,
            None => VertexType::Unspecified,
        },
    }
}

/// The builder after one hop from `left`: `->` asks for a directed edge from
/// `left` to the identifier of the hop, `<-` for one the other way round,
/// and an undirected operator for an undirected edge from `left` to it.
pub open spec fn with_hop(
    b: BuilderModel,
    left: Seq<char>,
    hop: HopModel,
    pos: Option<PointModel>,
) -> BuilderModel {
    match hop.op {
        EdgeOp::Forward => with_edge(
            b,
            left,
            hop.node_id,
            EdgeInfoModel { layout_pos: pos, edge_type: EdgeType::Directed },
        ),
        EdgeOp::Backward => with_edge(
            b,
            hop.node_id,
            left,
            EdgeInfoModel { layout_pos: pos, edge_type: EdgeType::Directed },
        ),
        EdgeOp::Undirected => with_edge(
            b,
            left,
            hop.node_id,
            EdgeInfoModel { layout_pos: pos, edge_type: EdgeType::Undirected },
        ),
    }
}

/// The builder after the chain of hops that starts at `left`: one edge is
/// asked for between each identifier and the next, all with the position
/// `pos`.
pub open spec fn with_hops(
    b: BuilderModel,
    left: Seq<char>,
    hops: Seq<HopModel>,
    pos: Option<PointModel>,
) -> BuilderModel
    decreases hops.len(),
{
    if hops.len() == 0 {
        b
    } else {
        with_hops(with_hop(b, left, hops[0], pos), hops[0].node_id, hops.skip(1), pos)
    }
}

/// The builder after a statement.
pub open spec fn with_stmt(b: BuilderModel, stmt: StmtModel) -> BuilderModel {
    match stmt {
        StmtModel::Node { id, attrs } => with_node(b, declared_node(id, attrs), id),
        StmtModel::Edge { id, hops, attrs } => with_hops(
            b,
            id,
            hops,
            last_attr(attrs, position_reader()),
        ),
    }
}

/// The builder after the statements, applied in order.
pub open spec fn with_stmts(b: BuilderModel, stmts: Seq<StmtModel>) -> BuilderModel
    decreases stmts.len(),
{
    if stmts.len() == 0 {
        b
    } else {
        with_stmt(with_stmts(b, stmts.drop_last()), stmts.last())
    }
}

/// The builder after all statements of a document.
pub open spec fn document_builder(doc: DocumentModel) -> BuilderModel {
    with_stmts(fresh_builder(doc.directed), doc.stmts)
}

/// A statement keeps the graph a graph, of the kind it was.
pub proof fn lemma_with_stmts_keeps_graph(b: BuilderModel, stmts: Seq<StmtModel>)
    requires
        b.graph is Some,
    ensures
        with_stmts(b, stmts).graph is Some,
        with_stmts(b, stmts).graph->0.directed == b.graph->0.directed,
    decreases stmts.len(),
{
    if stmts.len() > 0 {
        lemma_with_stmts_keeps_graph(b, stmts.drop_last());
        let before = with_stmts(b, stmts.drop_last());
        match stmts.last() {
            StmtModel::Node { id, attrs } => {},
            StmtModel::Edge { id, hops, attrs } => {
                lemma_with_hops_keeps_graph(
                    before,
                    id,
                    hops,
                    last_attr(attrs, position_reader()),
                );
            },
        }
    }
}

/// A chain of hops keeps the graph a graph, of the kind it was, with the
/// nodes and identifiers it had, and adds one edge for each hop at most.
pub proof fn lemma_with_hops_keeps_graph(
    b: BuilderModel,
    left: Seq<char>,
    hops: Seq<HopModel>,
    pos: Option<PointModel>,
)
    requires
        b.graph is Some,
    ensures
        with_hops(b, left, hops, pos).graph is Some,
        with_hops(b, left, hops, pos).graph->0.directed == b.graph->0.directed,
        with_hops(b, left, hops, pos).graph->0.nodes == b.graph->0.nodes,
        with_hops(b, left, hops, pos).node_map == b.node_map,
        b.graph->0.edges.len() <= with_hops(b, left, hops, pos).graph->0.edges.len()
            <= b.graph->0.edges.len() + hops.len(),
    decreases hops.len(),
{
    if hops.len() > 0 {
        lemma_with_hops_keeps_graph(
            with_hop(b, left, hops[0], pos),
            hops[0].node_id,
            hops.skip(1),
            pos,
        );
    }
}

/// Without a graph a statement changes nothing.
pub proof fn lemma_without_graph(b: BuilderModel, stmt: StmtModel)
    requires
        b.graph is None,
    ensures
        with_stmt(b, stmt) == b,
{
    match stmt {
        StmtModel::Node { id, attrs } => {},
        StmtModel::Edge { id, hops, attrs } => {
            lemma_hops_without_graph(b, id, hops, last_attr(attrs, position_reader()));
        },
    }
}

/// Without a graph a chain of hops changes nothing.
pub proof fn lemma_hops_without_graph(
    b: BuilderModel,
    left: Seq<char>,
    hops: Seq<HopModel>,
    pos: Option<PointModel>,
)
    requires
        b.graph is None,
    ensures
        with_hops(b, left, hops, pos) == b,
    decreases hops.len(),
{
    if hops.len() > 0 {
        lemma_hops_without_graph(b, hops[0].node_id, hops.skip(1), pos);
    }
}

/// The graph that a document describes.
pub open spec fn document_graph(doc: DocumentModel) -> GraphModel {
    document_builder(doc).graph->0
}

/// The graph that a text describes, or the first violation of the notation
/// in it.
pub open spec fn parse_graph(s: Seq<char>) -> Result<GraphModel, ParseError> {
    match parse_document(s) {
        Ok(doc) => Ok(document_graph(doc)),
        Err(e) => Err(e),
    }
}

/// The first of two findings if there is one, else the second.
pub open spec fn or_else<T>(first: Option<T>, second: Option<T>) -> Option<T> {
    match first {
        Some(_) => first,
        None => second,
    }
}

/// The model of a position that may be absent.
pub open spec fn optional_point_model(point: Option<Point<Coordinate>>) -> Option<PointModel> {
    match point {
        Some(p) => Some(point_model(p)),
        None => None,
    }
}

fn copy_point(point: &Point<Coordinate>) -> (r: Point<Coordinate>)
    ensures
        point_model(r) == point_model(*point),
{
    Point::new(point.x().clone(), point.y().clone())
}

fn copy_optional_point(point: &Option<Point<Coordinate>>) -> (r: Option<Point<Coordinate>>)
    ensures
        optional_point_model(r) == optional_point_model(*point),
{
    match point {
        Some(p) => Some(copy_point(p)),
        None => None,
    }
}

/// Dagitty format parser.
#[derive(Debug)]
pub struct DagittyParser;

impl DagittyParser {
    /// The vertex type that the attribute key `key` stands for, if any.
    pub fn vertex_type_for(key: &str) -> (r: Option<VertexType>)
        ensures
            r == vertex_type_of_key(key@),
    {
        if str_equal(key, "adjusted") || str_equal(key, "a") {
            Some(VertexType::Adjusted)
        } else if str_equal(key, "source") || str_equal(key, "exposure") || str_equal(key, "e") {
            Some(VertexType::Exposure)
        } else if str_equal(key, "outcome") || str_equal(key, "target") || str_equal(key, "o") {
            Some(VertexType::Outcome)
        } else if str_equal(key, "selected") || str_equal(key, "s") {
            Some(VertexType::Selected)
        } else if str_equal(key, "latent") || str_equal(key, "l") || str_equal(key, "unobserved")
            || str_equal(key, "u") {
            Some(VertexType::Unobserved)
        } else {
            None
        }
    }

    /// Reads the value of a position attribute.
    pub fn parse_position(value: &str) -> (r: Point<Coordinate>)
        ensures
            point_model(r) == position_of(value@),
    {
        let whole = Source::new(value);
        let len = whole.len();
        let inner = if len >= 2 && whole.char_at(0) == '"' && whole.char_at(len - 1) == '"' {
            whole.slice(1, len - 1)
        } else {
            value
        };
        let src = Source::new(inner);
        let comma = scan(&src, CharClass::Field, 0);
        if comma < src.len() {
            Point::new(
                Coordinate::parse_or_zero(src.slice(0, comma)),
                Coordinate::parse_or_zero(src.slice(comma + 1, src.len())),
            )
        } else {
            Point::new(Coordinate::zero(), Coordinate::parse_or_zero(inner))
        }
    }

    /// Goes through the attributes of a statement in order and keeps what
    /// the last vertex-type attribute and the last position attribute say.
    pub fn parse_attrs(attrs: &Option<AttrList>) -> (r: (
        Option<VertexType>,
        Option<Point<Coordinate>>,
    ))
        ensures
            r.0 == last_attr(attrs_model(*attrs), type_reader()),
            optional_point_model(r.1) == last_attr(attrs_model(*attrs), position_reader()),
    {
        let mut vertex_type: Option<VertexType> = None;
        let mut pos: Option<Point<Coordinate>> = None;
        if let Some(lists) = attrs {
            let ghost model = lists@;
            let mut i: usize = 0;
            while i < lists.elems.len()
                invariant
                    0 <= i <= lists.elems.len(),
                    model == lists@,
                    vertex_type == last_in_lists(model.take(i as int), type_reader()),
                    optional_point_model(pos) == last_in_lists(
                        model.take(i as int),
                        position_reader(),
                    ),
                decreases lists.elems.len() - i,
            {
                let list = &lists.elems[i];
                let ghost attrs_i = list@;
                let ghost type_before = vertex_type;
                let ghost pos_before = optional_point_model(pos);
                let mut j: usize = 0;
                while j < list.elems.len()
                    invariant
                        0 <= j <= list.elems.len(),
                        attrs_i == list@,
                        vertex_type == or_else(
                            last_in_list(attrs_i.take(j as int), type_reader()),
                            type_before,
                        ),
                        optional_point_model(pos) == or_else(
                            last_in_list(attrs_i.take(j as int), position_reader()),
                            pos_before,
                        ),
                    decreases list.elems.len() - j,
                {
                    let attr = &list.elems[j];
                    proof {
                        assert(attrs_i.take(j + 1).drop_last() == attrs_i.take(j as int));
                    }
                    match Self::vertex_type_for(attr.0) {
                        Some(found) => {
                            vertex_type = Some(found);
                        },
                        None => {
                            if str_equal(attr.0, "pos") {
                                pos = Some(Self::parse_position(attr.1));
                            }
                        },
                    }
                    proof {
                        lemma_pos_is_no_vertex_type();
                    }
                    j += 1;
                }
                proof {
                    assert(attrs_i.take(j as int) == attrs_i);
                    assert(model.take(i + 1).drop_last() == model.take(i as int));
                }
                i += 1;
            }
            assert(model.take(i as int) == model);
        }
        (vertex_type, pos)
    }

    /// Applies a node statement: adds the node that it declares.
    pub fn parse_node(id: &str, attrs: &Option<AttrList>, builder: CausalGraphBuilder) -> (r:
        CausalGraphBuilder)
        requires
            builder.well_formed(),
            builder@.graph is Some ==> builder@.graph->0.nodes.len() < u32::MAX,
        ensures
            r.well_formed(),
            r@ == with_node(builder@, declared_node(id@, attrs_model(*attrs)), id@),
    {
        let (found_type, found_pos) = Self::parse_attrs(attrs);
        let vertex_type = match found_type {
            Some(t) => t,
            None => VertexType::Unspecified,
        };
        let pos = match found_pos {
            Some(p) => p,
            None => Point::new(Coordinate::zero(), Coordinate::zero()),
        };
        let node_info = NodeInfo { id: id.to_owned(), layout_pos: pos, vertex_type };
        builder.add_node(node_info, id)
    }

    /// Applies the hops of an edge statement, the identifier `left_node_id`
    /// standing on the left of the first: asks for one edge for each hop,
    /// between the identifier on its left and its own, all with the
    /// position `pos`.
    pub fn parse_edge_rhs(
        hops: &Vec<EdgeHop>,
        builder: CausalGraphBuilder,
        left_node_id: &str,
        pos: &Option<Point<Coordinate>>,
    ) -> (r: CausalGraphBuilder)
        requires
            builder.well_formed(),
            builder@.graph is Some ==> builder@.graph->0.edges.len() + hops.len() <= u32::MAX,
        ensures
            r.well_formed(),
            r@ == with_hops(
                builder@,
                left_node_id@,
                hops_model(hops@),
                optional_point_model(*pos),
            ),
    {
        let ghost all = hops_model(hops@);
        let ghost at = optional_point_model(*pos);
        let ghost goal = with_hops(builder@, left_node_id@, all, at);
        let mut builder = builder;
        let mut left = left_node_id;
        let mut i: usize = 0;
        assert(all.skip(0) == all);
        while i < hops.len()
            invariant
                0 <= i <= hops.len(),
                all == hops_model(hops@),
                at == optional_point_model(*pos),
                builder.well_formed(),
                builder@.graph is Some ==> builder@.graph->0.edges.len() + (hops.len() - i)
                    <= u32::MAX,
                with_hops(builder@, left@, all.skip(i as int), at) == goal,
            decreases hops.len() - i,
        {
            let hop = &hops[i];
            proof {
                assert(all.skip(i as int).skip(1) == all.skip(i + 1));
            }
            let edge_type = match hop.op {
                EdgeOp::Forward => EdgeType::Directed,
                EdgeOp::Backward => EdgeType::Directed,
                EdgeOp::Undirected => EdgeType::Undirected,
            };
            let edge = EdgeInfo {
                _id: String::new(),
                layout_pos: copy_optional_point(pos),
                edge_type,
            };
            builder = match hop.op {
                EdgeOp::Backward => builder.add_edge(hop.node_id, left, edge),
                _ => builder.add_edge(left, hop.node_id, edge),
            };
            left = hop.node_id;
            i += 1;
        }
        builder
    }

    /// Applies an edge statement: asks for an edge between each identifier
    /// of the chain and the next, each with the position that the last
    /// position attribute of the statement gives, if there is one.
    pub fn parse_edge(
        id: &str,
        hops: &Vec<EdgeHop>,
        attrs: &Option<AttrList>,
        builder: CausalGraphBuilder,
    ) -> (r: CausalGraphBuilder)
        requires
            builder.well_formed(),
            builder@.graph is Some ==> builder@.graph->0.edges.len() + hops.len() <= u32::MAX,
        ensures
            r.well_formed(),
            r@ == with_hops(
                builder@,
                id@,
                hops_model(hops@),
                last_attr(attrs_model(*attrs), position_reader()),
            ),
    {
        let (_, pos) = Self::parse_attrs(attrs);
        Self::parse_edge_rhs(hops, builder, id, &pos)
    }

    /// Applies one statement.
    pub fn parse_stmt(stmt: &Stmt, builder: CausalGraphBuilder) -> (r: CausalGraphBuilder)
        requires
            builder.well_formed(),
            builder@.graph is Some ==> builder@.graph->0.nodes.len() + stmt_size(stmt@) <= u32::MAX
                && builder@.graph->0.edges.len() + stmt_size(stmt@) <= u32::MAX,
        ensures
            r.well_formed(),
            r@ == with_stmt(builder@, stmt@),
    {
        match stmt {
            Stmt::Node { id, attrs } => Self::parse_node(id, attrs, builder),
            Stmt::Edge { id, hops, attrs } => Self::parse_edge(id, hops, attrs, builder),
        }
    }

    /// Applies the statements in order.
    pub fn parse_stmts(stmts: &Vec<Stmt>, builder: CausalGraphBuilder) -> (r: CausalGraphBuilder)
        requires
            builder.well_formed(),
            builder@.graph is Some ==> builder@.graph->0.nodes.len() + stmts_size(
                stmts_model(stmts@),
            ) <= u32::MAX && builder@.graph->0.edges.len() + stmts_size(stmts_model(stmts@))
                <= u32::MAX,
        ensures
            r.well_formed(),
            r@ == with_stmts(builder@, stmts_model(stmts@)),
    {
        let ghost all = stmts_model(stmts@);
        let ghost start = builder@;
        let mut builder = builder;
        let mut i: usize = 0;
        while i < stmts.len()
            invariant
                0 <= i <= stmts.len(),
                all == stmts_model(stmts@),
                builder.well_formed(),
                builder@ == with_stmts(start, all.take(i as int)),
                start.graph is Some ==> builder@.graph is Some && start.graph->0.nodes.len()
                    + stmts_size(all) <= u32::MAX && start.graph->0.edges.len() + stmts_size(all)
                    <= u32::MAX && builder@.graph->0.nodes.len() <= start.graph->0.nodes.len()
                    + stmts_size(all.take(i as int)) && builder@.graph->0.edges.len()
                    <= start.graph->0.edges.len() + stmts_size(all.take(i as int)),
                start.graph is None ==> builder@.graph is None,
            decreases stmts.len() - i,
        {
            let stmt = &stmts[i];
            proof {
                assert(all.take(i + 1).drop_last() == all.take(i as int));
                lemma_stmts_size_grows(all, i + 1);
                if builder@.graph is Some {
                    lemma_with_stmt_grows(builder@, stmt@);
                } else {
                    lemma_without_graph(builder@, stmt@);
                }
            }
            builder = Self::parse_stmt(stmt, builder);
            i += 1;
        }
        assert(all.take(i as int) == all);
        builder
    }

    /// Parse dagitty format to create a casual graph.
    ///
    /// Returns the graph that the text describes, or the first violation of
    /// the notation in it. The text must be shorter than 2^32 - 1 characters,
    /// so that its nodes and edges can be numbered.
    pub fn parse_str(content: &str) -> (r: Result<CausalGraph, ParseError>)
        requires
            content@.len() < u32::MAX,
        ensures
            match r {
                Ok(g) => parse_graph(content@) == Ok::<GraphModel, ParseError>(g@)
                    && g.well_formed(),
                Err(e) => parse_graph(content@) == Err::<GraphModel, ParseError>(e),
            },
    {
        let src = Source::new(content);
        let doc = match Document::parse(&src) {
            Err(e) => {
                return Err(e);
            },
            Ok(doc) => doc,
        };
        let mut builder = CausalGraphBuilder::new();
        builder = if doc.directed {
            builder.dag()
        } else {
            builder.graph()
        };
        builder = Self::parse_stmts(&doc.stmts, builder);
        proof {
            lemma_with_stmts_keeps_graph(fresh_builder(doc@.directed), doc@.stmts);
        }
        Ok(builder.build())
    }
}

/// `pos` names no vertex type.
pub proof fn lemma_pos_is_no_vertex_type()
    ensures
        vertex_type_of_key("pos"@) is None,
{
    reveal_strlit("pos");
    reveal_strlit("adjusted");
    reveal_strlit("a");
    reveal_strlit("source");
    reveal_strlit("exposure");
    reveal_strlit("e");
    reveal_strlit("outcome");
    reveal_strlit("target");
    reveal_strlit("o");
    reveal_strlit("selected");
    reveal_strlit("s");
    reveal_strlit("latent");
    reveal_strlit("l");
    reveal_strlit("unobserved");
    reveal_strlit("u");
    let pos = "pos"@;
    assert(pos.len() == 3 && pos[0] == 'p');
}

/// The size of the first `n` statements is at most that of all, and grows
/// with each statement by the size of that statement.
pub proof fn lemma_stmts_size_grows(stmts: Seq<StmtModel>, n: int)
    requires
        0 < n <= stmts.len(),
    ensures
        stmts_size(stmts.take(n)) == stmts_size(stmts.take(n - 1)) + stmt_size(stmts[n - 1]),
        stmts_size(stmts.take(n)) <= stmts_size(stmts),
    decreases stmts.len() - n,
{
    assert(stmts.take(n).drop_last() == stmts.take(n - 1));
    if n < stmts.len() {
        lemma_stmts_size_grows(stmts, n + 1);
    }
}

/// A statement adds at most as many nodes, and as many edges, as its size.
pub proof fn lemma_with_stmt_grows(b: BuilderModel, stmt: StmtModel)
    requires
        b.graph is Some,
    ensures
        with_stmt(b, stmt).graph is Some,
        with_stmt(b, stmt).graph->0.nodes.len() <= b.graph->0.nodes.len() + stmt_size(stmt),
        with_stmt(b, stmt).graph->0.edges.len() <= b.graph->0.edges.len() + stmt_size(stmt),
{
    match stmt {
        StmtModel::Node { id, attrs } => {},
        StmtModel::Edge { id, hops, attrs } => {
            lemma_with_hops_keeps_graph(b, id, hops, last_attr(attrs, position_reader()));
        },
    }
}

/// Of the attributes of a list, the last that `read` accepts decides: if
/// attribute `j` is accepted and none behind it is, the list gives what
/// attribute `j` gives.
pub proof fn lemma_last_in_list_decides<T>(
    attrs: Seq<(Seq<char>, Seq<char>)>,
    read: spec_fn((Seq<char>, Seq<char>)) -> Option<T>,
    j: int,
)
    requires
        0 <= j < attrs.len(),
        read(attrs[j]) is Some,
        forall|k: int| j < k < attrs.len() ==> read(#[trigger] attrs[k]) is None,
    ensures
        last_in_list(attrs, read) == read(attrs[j]),
    decreases attrs.len(),
{
    if j < attrs.len() - 1 {
        lemma_last_in_list_decides(attrs.drop_last(), read, j);
    }
}

/// A list none of whose attributes `read` accepts gives nothing.
pub proof fn lemma_last_in_list_without<T>(
    attrs: Seq<(Seq<char>, Seq<char>)>,
    read: spec_fn((Seq<char>, Seq<char>)) -> Option<T>,
)
    requires
        forall|k: int| 0 <= k < attrs.len() ==> read(#[trigger] attrs[k]) is None,
    ensures
        last_in_list(attrs, read) is None,
    decreases attrs.len(),
{
    if attrs.len() > 0 {
        lemma_last_in_list_without(attrs.drop_last(), read);
    }
}

/// Of the attributes of a statement, the last that `read` accepts decides:
/// if attribute `j` of list `i` is accepted, and no attribute behind it in
/// that list or in a later list is, the statement gives what that attribute
/// gives.
pub proof fn lemma_last_attr_decides<T>(
    lists: Seq<Seq<(Seq<char>, Seq<char>)>>,
    read: spec_fn((Seq<char>, Seq<char>)) -> Option<T>,
    i: int,
    j: int,
)
    requires
        0 <= i < lists.len(),
        0 <= j < lists[i].len(),
        read(lists[i][j]) is Some,
        forall|k: int| j < k < lists[i].len() ==> read(#[trigger] lists[i][k]) is None,
        forall|l: int, k: int|
            i < l < lists.len() && 0 <= k < lists[l].len() ==> read(#[trigger] lists[l][k])
                is None,
    ensures
        last_attr(Some(lists), read) == read(lists[i][j]),
    decreases lists.len(),
{
    if i < lists.len() - 1 {
        let last = lists[lists.len() - 1];
        lemma_last_in_list_without(last, read);
        lemma_last_attr_decides(lists.drop_last(), read, i, j);
    } else {
        lemma_last_in_list_decides(lists[i], read, j);
    }
}

/// The statement declares a node under the identifier `id`.
pub open spec fn declares(stmt: StmtModel, id: Seq<char>) -> bool {
    stmt is Node && stmt->Node_id == id
}

/// In a builder with a graph every identifier names a node of the graph.
pub open spec fn names_nodes(b: BuilderModel) -> bool {
    b.graph is Some && forall|id: Seq<char>| #[trigger]
        b.node_map.contains_key(id) ==> 0 <= b.node_map[id] < b.graph->0.nodes.len()
}

/// A statement keeps the nodes that are there, and leaves an identifier
/// with the node it names unless the statement declares a node under it.
pub proof fn lemma_with_stmt_keeps_nodes(b: BuilderModel, stmt: StmtModel)
    requires
        names_nodes(b),
    ensures
        names_nodes(with_stmt(b, stmt)),
        b.graph->0.nodes.is_prefix_of(with_stmt(b, stmt).graph->0.nodes),
        forall|id: Seq<char>|
            !declares(stmt, id) ==> (with_stmt(b, stmt).node_map.contains_key(id)
                <==> b.node_map.contains_key(id)) && with_stmt(b, stmt).node_map[id]
                == b.node_map[id],
        forall|id: Seq<char>|
            declares(stmt, id) ==> with_stmt(b, stmt).node_map.contains_key(id) && with_stmt(
                b,
                stmt,
            ).node_map[id] == b.graph->0.nodes.len() && with_stmt(
                b,
                stmt,
            ).graph->0.nodes[b.graph->0.nodes.len() as int]
                == declared_node(id, stmt->Node_attrs),
{
    match stmt {
        StmtModel::Node { id, attrs } => {},
        StmtModel::Edge { id, hops, attrs } => {
            lemma_with_hops_keeps_graph(b, id, hops, last_attr(attrs, position_reader()));
        },
    }
}

/// The last declaration of an identifier decides what the identifier names:
/// if statement `k` is the last node statement of `stmts` under the
/// identifier `id`, then after all of `stmts` the identifier names a node
/// of the graph, and that node is the one that statement `k` declares: with
/// the vertex type of the last attribute of that statement that names one,
/// and the position of its last position attribute. No later statement, and
/// no attribute of an edge statement, changes it.
pub proof fn lemma_last_declaration_decides(
    b: BuilderModel,
    stmts: Seq<StmtModel>,
    id: Seq<char>,
    k: int,
)
    requires
        names_nodes(b),
        0 <= k < stmts.len(),
        declares(stmts[k], id),
        forall|j: int| k < j < stmts.len() ==> !declares(#[trigger] stmts[j], id),
    ensures
        names_nodes(with_stmts(b, stmts)),
        with_stmts(b, stmts).node_map.contains_key(id),
        with_stmts(b, stmts).graph->0.nodes[with_stmts(b, stmts).node_map[id]] == declared_node(
            id,
            stmts[k]->Node_attrs,
        ),
    decreases stmts.len(),
{
    let before = with_stmts(b, stmts.drop_last());
    lemma_with_stmts_names_nodes(b, stmts.drop_last());
    lemma_with_stmt_keeps_nodes(before, stmts.last());
    if k < stmts.len() - 1 {
        lemma_last_declaration_decides(b, stmts.drop_last(), id, k);
    }
}

/// Statements keep a builder one in which every identifier names a node.
pub proof fn lemma_with_stmts_names_nodes(b: BuilderModel, stmts: Seq<StmtModel>)
    requires
        names_nodes(b),
    ensures
        names_nodes(with_stmts(b, stmts)),
    decreases stmts.len(),
{
    if stmts.len() > 0 {
        lemma_with_stmts_names_nodes(b, stmts.drop_last());
        lemma_with_stmt_keeps_nodes(with_stmts(b, stmts.drop_last()), stmts.last());
    }
}

/// In the graph of a document, an identifier stands for the node that its
/// last declaration describes: if statement `k` is the last node statement
/// under the identifier `id`, the node that `id` names in the end has the
/// vertex type of the last attribute of statement `k` that names one and
/// the position of its last position attribute; without such an attribute
/// it has no role, or lies at the origin.
pub proof fn lemma_document_last_declaration_decides(doc: DocumentModel, id: Seq<char>, k: int)
    requires
        0 <= k < doc.stmts.len(),
        declares(doc.stmts[k], id),
        forall|j: int| k < j < doc.stmts.len() ==> !declares(#[trigger] doc.stmts[j], id),
    ensures
        document_builder(doc).node_map.contains_key(id),
        0 <= document_builder(doc).node_map[id] < document_graph(doc).nodes.len(),
        document_graph(doc).nodes[document_builder(doc).node_map[id]] == declared_node(
            id,
            doc.stmts[k]->Node_attrs,
        ),
{
    lemma_last_declaration_decides(fresh_builder(doc.directed), doc.stmts, id, k);
}

/// An edge between identifiers of which one names no node is not added:
/// nothing changes, and nothing fails.
pub proof fn lemma_edge_to_unknown_node_is_dropped(
    b: BuilderModel,
    left: Seq<char>,
    right: Seq<char>,
    info: EdgeInfoModel,
)
    requires
        !b.node_map.contains_key(left) || !b.node_map.contains_key(right),
    ensures
        with_edge(b, left, right, info) == b,
{
}

} // verus!
