//! Node and edge records of a dagitty model, and how they are written.

use vstd::prelude::*;
use vstd::string::*;
use crate::coordinate::Coordinate;
use crate::types::Point;

verus! {

/// The role a vertex plays in the causal model.
#[derive(Clone, Copy, Debug, PartialEq, Eq, Structural)]
pub enum VertexType {
    /// No particular role.
    Unspecified,
    /// Adjusted vertex.
    Adjusted,
    /// Exposure vertex.
    Exposure,
    /// Outcome vertex.
    Outcome,
    /// Selected vertex.
    Selected,
    /// Unobserved vertex.
    Unobserved,
}

/// The keyword that names a vertex type in the notation; empty for a vertex
/// without a role.
pub open spec fn vertex_type_keyword(vertex_type: VertexType) -> Seq<char> {
    match vertex_type {
        VertexType::Unspecified => ""@,
        VertexType::Adjusted => "adjusted"@,
        VertexType::Exposure => "exposure"@,
        VertexType::Outcome => "outcome"@,
        VertexType::Selected => "selected"@,
        VertexType::Unobserved => "unobserved"@,
    }
}

impl VertexType {
    /// The keyword of this vertex type.
    pub fn to_string(&self) -> (r: String)
        ensures
            r@ == vertex_type_keyword(*self),
    {
        let keyword = match self {
            VertexType::Unspecified => "",
            VertexType::Adjusted => "adjusted",
            VertexType::Exposure => "exposure",
            VertexType::Outcome => "outcome",
            VertexType::Selected => "selected",
            VertexType::Unobserved => "unobserved",
        };
        String::from_str(keyword)
    }
}

impl Default for VertexType {
    fn default() -> (r: Self)
        ensures
            r == VertexType::Unspecified,
    {
        VertexType::Unspecified
    }
}

/// The kind of an edge.
#[derive(Clone, Copy, Debug, PartialEq, Eq, Structural)]
pub enum EdgeType {
    /// Directed
    Directed,
    /// Bidirected
    Bidirected,
    /// Undirected
    Undirected,
}

/// A position as a pair of numerals.
pub struct PointModel {
    pub x: Seq<char>,
    pub y: Seq<char>,
}

/// The position that `point` holds.
pub open spec fn point_model(point: Point<Coordinate>) -> PointModel {
    PointModel { x: point.spec_x()@, y: point.spec_y()@ }
}

/// A position as the notation writes it: both numerals with a comma between.
pub open spec fn point_text(point: PointModel) -> Seq<char> {
    point.x + ","@ + point.y
}

impl Point<Coordinate> {
    /// Writes the point as `x,y`.
    pub fn to_string(&self) -> (r: String)
        ensures
            r@ == point_text(point_model(*self)),
    {
        let mut out = String::from_str(self.x().as_str());
        out.append(",");
        out.append(self.y().as_str());
        out
    }
}

/// What a node record says.
pub struct NodeModel {
    pub id: Seq<char>,
    pub layout_pos: PointModel,
    pub vertex_type: VertexType,
}

/// Node information to represent a vertex.
#[derive(Clone, Debug)]
pub struct NodeInfo {
    /// Node identifier.
    pub id: String,
    /// Node layout position.
    pub layout_pos: Point<Coordinate>,
    /// Vertex type.
    pub vertex_type: VertexType,
}

impl View for NodeInfo {
    type V = NodeModel;

    open spec fn view(&self) -> NodeModel {
        NodeModel {
            id: self.id@,
            layout_pos: point_model(self.layout_pos),
            vertex_type: self.vertex_type,
        }
    }
}

/// A node statement: the identifier and, in brackets, the type keyword (left
/// out for a vertex without a role) and the quoted position.
pub open spec fn node_text(node: NodeModel) -> Seq<char> {
    if node.vertex_type == VertexType::Unspecified {
        node.id + " [pos=\""@ + point_text(node.layout_pos) + "\"]"@
    } else {
        node.id + " ["@ + vertex_type_keyword(node.vertex_type) + ",pos=\""@ + point_text(
            node.layout_pos,
        ) + "\"]"@
    }
}

impl NodeInfo {
    /// Create a new vertex.
    pub fn new(
        id: &str,
        layout_pos_x: Coordinate,
        layout_pos_y: Coordinate,
        vertex_type: VertexType,
    ) -> (r: Self)
        ensures
            r@ == (NodeModel {
                id: id@,
                layout_pos: PointModel { x: layout_pos_x@, y: layout_pos_y@ },
                vertex_type,
            }),
    {
        NodeInfo {
            id: String::from_str(id),
            layout_pos: Point::new(layout_pos_x, layout_pos_y),
            vertex_type,
        }
    }

    /// Writes the node as a statement of the notation.
    pub fn to_string(&self) -> (r: String)
        ensures
            r@ == node_text(self@),
    {
        let mut out = self.id.clone();
        if self.vertex_type == VertexType::Unspecified {
            out.append(" [pos=\"");
        } else {
            out.append(" [");
            out.append(self.vertex_type.to_string().as_str());
            out.append(",pos=\"");
        }
        out.append(self.layout_pos.to_string().as_str());
        out.append("\"]");
        out
    }
}

/// What an edge record says.
pub struct EdgeInfoModel {
    pub layout_pos: Option<PointModel>,
    pub edge_type: EdgeType,
}

/// Edge information to represent a edge.
#[derive(Clone, Debug)]
pub struct EdgeInfo {
    /// Edge identifier.
    pub _id: String,
    /// Edge layout position: the control point of a bent edge.
    pub layout_pos: Option<Point<Coordinate>>,
    /// Edge type.
    pub edge_type: EdgeType,
}

impl View for EdgeInfo {
    type V = EdgeInfoModel;

    open spec fn view(&self) -> EdgeInfoModel {
        EdgeInfoModel {
            layout_pos: match self.layout_pos {
                Some(p) => Some(point_model(p)),
                None => None,
            },
            edge_type: self.edge_type,
        }
    }
}

/// What follows the endpoints in an edge statement: the control point in
/// brackets, unquoted, or nothing for a straight edge.
pub open spec fn edge_attr_text(edge: EdgeInfoModel) -> Seq<char> {
    match edge.layout_pos {
        Some(p) => " [pos="@ + point_text(p) + "]"@,
        None => Seq::<char>::empty(),
    }
}

impl EdgeInfo {
    /// Create a new edge.
    pub fn new(id: &str, layout_pos: Option<Point<Coordinate>>, edge_type: EdgeType) -> (r: Self)
        ensures
            r._id@ == id@,
            r.layout_pos == layout_pos,
            r.edge_type == edge_type,
    {
        EdgeInfo { _id: String::from_str(id), layout_pos, edge_type }
    }

    /// Writes the attribute list of the edge.
    pub fn to_string(&self) -> (r: String)
        ensures
            r@ == edge_attr_text(self@),
    {
        match &self.layout_pos {
            Some(p) => {
                let mut out = String::from_str(" [pos=");
                out.append(p.to_string().as_str());
                out.append("]");
                out
            },
            None => String::new(),
        }
    }
}

} // verus!
