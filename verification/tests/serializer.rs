use why_rs::coordinate::Coordinate;
use why_rs::dagitty::{EdgeInfo, EdgeType, NodeInfo, VertexType};
use why_rs::graph::{CausalGraph, EdgeIndex, NodeIndex};
use why_rs::parser::DagittyParser;
use why_rs::section_header::SectionHeader;
use why_rs::types::Point;

fn point(x: &str, y: &str) -> Point<Coordinate> {
    Point::new(Coordinate::parse(x).unwrap(), Coordinate::parse(y).unwrap())
}

fn structure(g: &CausalGraph) -> (bool, Vec<(String, VertexType)>, Vec<(String, String)>) {
    let id = |n: NodeIndex| g.node_weight(n).unwrap().id.clone();
    let nodes = (0..g.node_count())
        .map(|i| {
            let node = g.node_weight(NodeIndex::new(i)).unwrap();
            (node.id.clone(), node.vertex_type)
        })
        .collect();
    let edges = (0..g.edge_count())
        .map(|i| {
            let (a, b) = g.edge_endpoints(EdgeIndex::new(i)).unwrap();
            (id(a), id(b))
        })
        .collect();
    (g.is_directed(), nodes, edges)
}

#[test]
fn vertex_types_are_written_as_keywords() {
    assert_eq!("", VertexType::Unspecified.to_string());
    assert_eq!("adjusted", VertexType::Adjusted.to_string());
    assert_eq!("exposure", VertexType::Exposure.to_string());
    assert_eq!("outcome", VertexType::Outcome.to_string());
    assert_eq!("selected", VertexType::Selected.to_string());
    assert_eq!("unobserved", VertexType::Unobserved.to_string());
    assert_eq!(VertexType::Unspecified, VertexType::default());
}

#[test]
fn a_point_is_written_with_a_comma() {
    assert_eq!("-2.200,1.597", point("-2.200", "1.597").to_string());
    let p = Point::new(3, 4);
    assert_eq!((3, 4), (*p.x(), *p.y()));
}

#[test]
fn a_node_is_written_with_its_type_and_position() {
    let plain = NodeInfo::new(
        "B",
        Coordinate::parse("1.400").unwrap(),
        Coordinate::parse("-1.460").unwrap(),
        VertexType::Unspecified,
    );
    assert_eq!(r#"B [pos="1.400,-1.460"]"#, plain.to_string());
    let typed = NodeInfo::new(
        "D",
        Coordinate::parse("1.4").unwrap(),
        Coordinate::zero(),
        VertexType::Outcome,
    );
    assert_eq!(r#"D [outcome,pos="1.4,0"]"#, typed.to_string());
}

#[test]
fn an_edge_is_written_with_its_control_point_unquoted() {
    let bent = EdgeInfo::new("", Some(point("-0.791", "-1.045")), EdgeType::Directed);
    assert_eq!(" [pos=-0.791,-1.045]", bent.to_string());
    let straight = EdgeInfo::new("", None, EdgeType::Directed);
    assert_eq!("", straight.to_string());
}

#[test]
fn a_directed_graph_is_written_as_a_dag() {
    let text = r#"dag {
A [selected,pos="-2.200,-1.520"]
B [pos="1.400,-1.460"]
Z [adjusted,pos="-0.300,-0.082"]
A -> Z [pos="-0.791,-1.045"]
B <- A
}"#;
    let g = DagittyParser::parse_str(text).unwrap();
    assert_eq!(
        r#"dag {
A [selected,pos="-2.200,-1.520"]
B [pos="1.400,-1.460"]
Z [adjusted,pos="-0.300,-0.082"]
A -> Z [pos=-0.791,-1.045]
A -> B
}"#,
        g.to_string()
    );
}

#[test]
fn an_undirected_graph_is_written_as_a_graph() {
    let mut g = CausalGraph::new_ungraph();
    let a = g.add_node(NodeInfo::new(
        "a",
        Coordinate::zero(),
        Coordinate::zero(),
        VertexType::Unobserved,
    ));
    let b = g.add_node(NodeInfo::new(
        "b",
        Coordinate::parse("1").unwrap(),
        Coordinate::parse("2").unwrap(),
        VertexType::Unspecified,
    ));
    g.add_edge(b, a, EdgeInfo::new("", None, EdgeType::Undirected));
    assert_eq!(
        "graph {\na [unobserved,pos=\"0,0\"]\nb [pos=\"1,2\"]\nb -- a\n}",
        g.to_string()
    );
    assert_eq!("graph {\n}", CausalGraph::new_ungraph().to_string());
    assert_eq!("dag {\n}", CausalGraph::new_dag().to_string());
}

#[test]
fn writing_and_reading_again_keeps_the_structure() {
    let texts = [
        r#"dag {
A [selected,pos="-2.200,-1.520"]
B [pos="1.400,-1.460"]
D [outcome,pos="1.400,1.621"]
E [exposure,pos="-2.200,1.597"]
Z [adjusted,pos="-0.300,-0.082"]
A -> E
A -> Z [pos="-0.791,-1.045"]
B -> D
B -> Z [pos="0.680,-0.496"]
E -> D
}"#,
        r#"graph { a [u] b [pos="+1e3,-inf"] "c d" [s] -1.5 a -- b -- "c d" [pos="+.5,NaN"] -1.5 <- a }"#,
        r#"strict digraph g { x [latent] y x [o] x -> y <- x; y -- y [pos="abc"] missing -> x }"#,
        "pag{}",
    ];
    for text in texts {
        let first = DagittyParser::parse_str(text).unwrap();
        let written = first.to_string();
        let second = DagittyParser::parse_str(&written).unwrap();
        assert_eq!(structure(&first), structure(&second), "{}", written);
    }
}

#[test]
fn a_section_header_keeps_its_title_and_identifier() {
    let header = SectionHeader::new(" Variable".to_string(), "a_variable".to_string());
    assert_eq!(" Variable", header.title());
    assert_eq!("a_variable", header.id());
}
