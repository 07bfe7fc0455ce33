use why_rs::builder::CausalGraphBuilder;
use why_rs::coordinate::Coordinate;
use why_rs::dagitty::{EdgeInfo, EdgeType, NodeInfo, VertexType};
use why_rs::grammar::{EdgeOp, ParseError, ParseErrorKind};
use why_rs::graph::{CausalGraph, EdgeIndex, NodeIndex};
use why_rs::parser::DagittyParser;
use why_rs::syntax::{AList, AttrList, Document, Stmt};
use why_rs::text::Source;

const BASE_DAG_STR: &str = r#"dag {
A [selected,pos="-2.200,-1.520"]
B [pos="1.400,-1.460"]
D [outcome,pos="1.400,1.621"]
E [exposure,pos="-2.200,1.597"]
Z [adjusted,pos="-0.300,-0.082"]
A -> E
A -> Z [pos="-0.791,-1.045"]
B -> D
B -> Z [pos="0.680,-0.496"]
E -> D
}"#;

fn node_ids(g: &CausalGraph) -> Vec<String> {
    (0..g.node_count()).map(|i| g.node_weight(NodeIndex::new(i)).unwrap().id.clone()).collect()
}

fn node_types(g: &CausalGraph) -> Vec<VertexType> {
    (0..g.node_count()).map(|i| g.node_weight(NodeIndex::new(i)).unwrap().vertex_type).collect()
}

fn node_positions(g: &CausalGraph) -> Vec<(String, String)> {
    (0..g.node_count())
        .map(|i| {
            let pos = &g.node_weight(NodeIndex::new(i)).unwrap().layout_pos;
            (pos.x().as_str().to_string(), pos.y().as_str().to_string())
        })
        .collect()
}

fn edge_ends(g: &CausalGraph) -> Vec<(usize, usize)> {
    (0..g.edge_count())
        .map(|i| {
            let (a, b) = g.edge_endpoints(EdgeIndex::new(i)).unwrap();
            (a.index(), b.index())
        })
        .collect()
}

fn edge_types(g: &CausalGraph) -> Vec<EdgeType> {
    (0..g.edge_count()).map(|i| g.edge_weight(EdgeIndex::new(i)).unwrap().edge_type).collect()
}

fn edge_positions(g: &CausalGraph) -> Vec<Option<(String, String)>> {
    (0..g.edge_count())
        .map(|i| {
            g.edge_weight(EdgeIndex::new(i)).unwrap().layout_pos.as_ref().map(|pos| {
                (pos.x().as_str().to_string(), pos.y().as_str().to_string())
            })
        })
        .collect()
}

fn pair(x: &str, y: &str) -> (String, String) {
    (x.to_string(), y.to_string())
}

fn error_of(text: &str) -> ParseError {
    match DagittyParser::parse_str(text) {
        Ok(_) => panic!("the text was accepted"),
        Err(e) => e,
    }
}

#[test]
fn mod_test_parser() {
    let src = Source::new(BASE_DAG_STR);
    let doc = Document::parse(&src).unwrap();
    let strict = doc.strict;
    let name = doc.name;
    assert_eq!(false, strict);
    assert_eq!("dag", doc.graph_type);
    assert_eq!(None, name);
}

#[test]
fn parser_test_parser() {
    let src = Source::new(BASE_DAG_STR);
    let doc = Document::parse(&src).unwrap();
    let strict = doc.strict;
    let name = doc.name;
    assert_eq!(false, strict);
    assert!(doc.directed);
    assert_eq!("dag", doc.graph_type);
    assert_eq!(None, name);
}

#[test]
fn test_parse_a_list() {
    let src = Source::new(r#"selected,pos="-2.200,-1.520""#);
    let (alist, _end) = AList::parse(&src, 0).unwrap();

    assert_eq!(
        [("selected", ""), ("pos", "\"-2.200,-1.520\"")],
        &alist.elems[..]
    );
}

#[test]
fn test_parse_attr_list() {
    let src = Source::new(r#"[selected,pos="-2.200,-1.520"]"#);
    let (attr_list, _end) = AttrList::parse(&src, 0).unwrap();

    assert_eq!(
        [("selected", ""), ("pos", "\"-2.200,-1.520\"")],
        &(attr_list.elems[0]).elems[..]
    );
}

#[test]
fn the_base_graph_is_read_in_full() {
    let g = DagittyParser::parse_str(BASE_DAG_STR).unwrap();
    assert!(g.is_directed());
    assert_eq!(vec!["A", "B", "D", "E", "Z"], node_ids(&g));
    assert_eq!(
        vec![
            VertexType::Selected,
            VertexType::Unspecified,
            VertexType::Outcome,
            VertexType::Exposure,
            VertexType::Adjusted
        ],
        node_types(&g)
    );
    assert_eq!(
        vec![
            pair("-2.200", "-1.520"),
            pair("1.400", "-1.460"),
            pair("1.400", "1.621"),
            pair("-2.200", "1.597"),
            pair("-0.300", "-0.082")
        ],
        node_positions(&g)
    );
    assert_eq!(vec![(0, 3), (0, 4), (1, 2), (1, 4), (3, 2)], edge_ends(&g));
    assert_eq!(
        vec![
            None,
            Some(pair("-0.791", "-1.045")),
            None,
            Some(pair("0.680", "-0.496")),
            None
        ],
        edge_positions(&g)
    );
    assert_eq!(vec![EdgeType::Directed; 5], edge_types(&g));
}

#[test]
fn every_graph_keyword_chooses_its_kind() {
    for keyword in ["digraph", "dag"] {
        let g = DagittyParser::parse_str(&format!("{} {{ a }}", keyword)).unwrap();
        assert!(g.is_directed());
        assert_eq!(1, g.node_count());
    }
    for keyword in ["graph", "mag", "pdag", "pag"] {
        let g = DagittyParser::parse_str(&format!("{} {{ a }}", keyword)).unwrap();
        assert!(!g.is_directed());
        assert_eq!(1, g.node_count());
    }
}

#[test]
fn strict_and_a_name_may_stand_around_the_keyword() {
    let text = "  strict digraph \"my graph\" { a; b; a -> b; }\n";
    let src = Source::new(text);
    let doc = Document::parse(&src).unwrap();
    assert!(doc.strict);
    assert_eq!("digraph", doc.graph_type);
    assert_eq!(Some("\"my graph\""), doc.name);
    assert_eq!(3, doc.stmts.len());
    let g = DagittyParser::parse_str(text).unwrap();
    assert_eq!(vec![(0, 1)], edge_ends(&g));
}

#[test]
fn an_empty_graph_has_nothing() {
    let g = DagittyParser::parse_str("graph{}").unwrap();
    assert!(!g.is_directed());
    assert_eq!(0, g.node_count());
    assert_eq!(0, g.edge_count());
}

#[test]
fn vertex_type_aliases() {
    let table = [
        ("adjusted", VertexType::Adjusted),
        ("a", VertexType::Adjusted),
        ("source", VertexType::Exposure),
        ("exposure", VertexType::Exposure),
        ("e", VertexType::Exposure),
        ("outcome", VertexType::Outcome),
        ("target", VertexType::Outcome),
        ("o", VertexType::Outcome),
        ("selected", VertexType::Selected),
        ("s", VertexType::Selected),
        ("latent", VertexType::Unobserved),
        ("l", VertexType::Unobserved),
        ("unobserved", VertexType::Unobserved),
        ("u", VertexType::Unobserved),
    ];
    for (key, expected) in table {
        assert_eq!(Some(expected), DagittyParser::vertex_type_for(key));
        let g = DagittyParser::parse_str(&format!("dag {{ x [{}] }}", key)).unwrap();
        assert_eq!(vec![expected], node_types(&g));
    }
    for key in ["", "pos", "Adjusted", "exposures", "x", "none"] {
        assert_eq!(None, DagittyParser::vertex_type_for(key));
    }
    let g = DagittyParser::parse_str("dag { x [colour=red,bold] }").unwrap();
    assert_eq!(vec![VertexType::Unspecified], node_types(&g));
}

#[test]
fn the_last_matching_attribute_wins() {
    let g = DagittyParser::parse_str(
        r#"dag { x [a,pos="1,2",o,pos="3,4",shape=box] y [e] [pos="5,6"] [s,pos="7,8"] }"#,
    )
    .unwrap();
    assert_eq!(vec![VertexType::Outcome, VertexType::Selected], node_types(&g));
    assert_eq!(vec![pair("3", "4"), pair("7", "8")], node_positions(&g));
}

#[test]
fn a_value_given_to_a_type_key_is_ignored() {
    let g = DagittyParser::parse_str(r#"dag { x [latent=1] }"#).unwrap();
    assert_eq!(vec![VertexType::Unobserved], node_types(&g));
}

#[test]
fn a_second_declaration_makes_a_second_node() {
    let g = DagittyParser::parse_str(
        r#"dag { x [exposure,pos="1,1"] y x [outcome,pos="2,2"] x -> y }"#,
    )
    .unwrap();
    assert_eq!(vec!["x", "y", "x"], node_ids(&g));
    assert_eq!(
        vec![VertexType::Exposure, VertexType::Unspecified, VertexType::Outcome],
        node_types(&g)
    );
    assert_eq!(vec![pair("1", "1"), pair("0", "0"), pair("2", "2")], node_positions(&g));
    // the identifier names the node that was declared last
    assert_eq!(vec![(2, 1)], edge_ends(&g));
}

#[test]
fn an_edge_to_an_undeclared_node_is_dropped() {
    let g = DagittyParser::parse_str("dag { a b a -> c c -> b a -> b }").unwrap();
    assert_eq!(vec!["a", "b"], node_ids(&g));
    assert_eq!(vec![(0, 1)], edge_ends(&g));
}

#[test]
fn an_edge_may_come_before_a_node_only_if_the_node_is_declared_by_then() {
    let g = DagittyParser::parse_str("dag { a a -> b b a -> b }").unwrap();
    assert_eq!(vec![(0, 1)], edge_ends(&g));
}

#[test]
fn a_chain_makes_one_edge_for_each_hop() {
    let g = DagittyParser::parse_str(r#"dag { A B C A -> B -> C [pos="1.5,-2"] }"#).unwrap();
    assert_eq!(vec![(0, 1), (1, 2)], edge_ends(&g));
    assert_eq!(
        vec![Some(pair("1.5", "-2")), Some(pair("1.5", "-2"))],
        edge_positions(&g)
    );
    let g = DagittyParser::parse_str("dag { A B C A -> B -> C }").unwrap();
    assert_eq!(vec![(0, 1), (1, 2)], edge_ends(&g));
    assert_eq!(vec![None, None], edge_positions(&g));
}

#[test]
fn a_chain_goes_on_behind_a_dropped_edge() {
    let g = DagittyParser::parse_str("dag { A C A -> B -> C <- A }").unwrap();
    assert_eq!(vec![(0, 1)], edge_ends(&g));
}

#[test]
fn edge_operators() {
    let cases = [
        ("->", (0, 1), EdgeType::Directed),
        ("@->", (0, 1), EdgeType::Directed),
        ("<-", (1, 0), EdgeType::Directed),
        ("<-@", (1, 0), EdgeType::Directed),
        ("--", (0, 1), EdgeType::Undirected),
        ("--@", (0, 1), EdgeType::Undirected),
        ("<->", (0, 1), EdgeType::Undirected),
        ("@-@", (0, 1), EdgeType::Undirected),
        ("@--", (0, 1), EdgeType::Undirected),
    ];
    for (op, ends, edge_type) in cases {
        for text in [format!("dag {{ a b a {} b }}", op), format!("graph{{a;b;a{}b}}", op)] {
            let g = DagittyParser::parse_str(&text).unwrap();
            assert_eq!(vec![ends], edge_ends(&g), "{}", text);
            assert_eq!(vec![edge_type], edge_types(&g), "{}", text);
        }
    }
}

#[test]
fn hops_are_read_with_their_operators() {
    let src = Source::new("a -> b <- c -- d");
    let (stmt, end) = why_rs::syntax::read_stmt(&src, 0).unwrap();
    assert_eq!(16, end);
    match stmt {
        Stmt::Edge { id, hops, attrs } => {
            assert_eq!("a", id);
            assert!(attrs.is_none());
            let read: Vec<(EdgeOp, &str)> = hops.iter().map(|h| (h.op, h.node_id)).collect();
            assert_eq!(
                vec![(EdgeOp::Forward, "b"), (EdgeOp::Backward, "c"), (EdgeOp::Undirected, "d")],
                read
            );
        }
        Stmt::Node { .. } => panic!("an edge statement was read as a node statement"),
    }
}

#[test]
fn positions() {
    let cases = [
        (r#""1,2""#, "1", "2"),
        (r#""-2.200,-1.520""#, "-2.200", "-1.520"),
        ("3,4", "3", "4"),
        (r#""abc""#, "0", "0"),
        (r#""abc,def""#, "0", "0"),
        (r#""1,def""#, "1", "0"),
        (r#""abc,2""#, "0", "2"),
        (r#""5""#, "0", "5"),
        ("5", "0", "5"),
        (r#""1,2,3""#, "1", "0"),
        (r#"",""#, "0", "0"),
        (r#""""#, "0", "0"),
        ("", "0", "0"),
        (r#"""#, "0", "0"),
        (r#"" 1,2""#, "0", "2"),
        (r#""1e3,-.5""#, "1e3", "-.5"),
        (r#""+7.,NaN""#, "+7.", "NaN"),
        (r#""inf,-Infinity""#, "inf", "-Infinity"),
    ];
    for (value, x, y) in cases {
        let point = DagittyParser::parse_position(value);
        assert_eq!((x, y), (point.x().as_str(), point.y().as_str()), "{}", value);
    }
}

#[test]
fn a_position_that_is_no_number_is_the_origin() {
    let g = DagittyParser::parse_str(r#"dag { x [pos="abc"] }"#).unwrap();
    assert_eq!(vec![pair("0", "0")], node_positions(&g));
    let node = g.node_weight(NodeIndex::new(0)).unwrap();
    assert_eq!(Ok(0.0), node.layout_pos.x().as_str().parse::<f64>());
    assert_eq!(Ok(0.0), node.layout_pos.y().as_str().parse::<f64>());
}

#[test]
fn a_node_without_a_position_lies_at_the_origin() {
    let g = DagittyParser::parse_str("dag { x }").unwrap();
    assert_eq!(vec![pair("0", "0")], node_positions(&g));
}

#[test]
fn numbers_and_strings_are_identifiers() {
    let g = DagittyParser::parse_str(r#"dag { 1 -2.5 "a b" .5 1 -> "a b" -> -2.5 -> .5 }"#).unwrap();
    assert_eq!(vec!["1", "-2.5", "\"a b\"", ".5"], node_ids(&g));
    assert_eq!(vec![(0, 2), (2, 1), (1, 3)], edge_ends(&g));
}

#[test]
fn statements_may_be_parted_by_semicolons_or_by_nothing() {
    let g = DagittyParser::parse_str("dag{a;b ;c\n;d e;a->b;b->c c->d;}").unwrap();
    assert_eq!(vec!["a", "b", "c", "d", "e"], node_ids(&g));
    assert_eq!(vec![(0, 1), (1, 2), (2, 3)], edge_ends(&g));
}

#[test]
fn attributes_may_be_parted_by_commas_semicolons_or_spaces() {
    let src = Source::new("[a=1;b, c = \"x y\" d] [] [ e ]rest");
    let (lists, end) = AttrList::parse(&src, 0).unwrap();
    assert_eq!(29, end);
    assert_eq!(3, lists.elems.len());
    assert_eq!([("a", "1"), ("b", ""), ("c", "\"x y\""), ("d", "")], &lists.elems[0].elems[..]);
    assert!(lists.elems[1].elems.is_empty());
    assert_eq!([("e", "")], &lists.elems[2].elems[..]);
}

#[test]
fn an_unquoted_position_is_read_as_two_attributes() {
    let src = Source::new("pos=-0.791,-1.045");
    let (alist, end) = AList::parse(&src, 0).unwrap();
    assert_eq!(17, end);
    assert_eq!([("pos", "-0.791"), ("-1.045", "")], &alist.elems[..]);
}

#[test]
fn errors_name_the_place() {
    let cases = [
        ("", 0, ParseErrorKind::MissingGraphType),
        ("   ", 3, ParseErrorKind::MissingGraphType),
        ("{ a }", 0, ParseErrorKind::MissingGraphType),
        ("strict", 6, ParseErrorKind::MissingGraphType),
        ("strict { a }", 7, ParseErrorKind::MissingGraphType),
        ("tree { a }", 0, ParseErrorKind::UnsupportedGraphType),
        ("strict Dag { a }", 7, ParseErrorKind::UnsupportedGraphType),
        ("subgraph { a }", 0, ParseErrorKind::UnsupportedGraphType),
        ("dag", 3, ParseErrorKind::MissingOpenBrace),
        ("dag a b { }", 6, ParseErrorKind::MissingOpenBrace),
        ("dag [ a ]", 4, ParseErrorKind::MissingOpenBrace),
        ("dag \"name { a }", 4, ParseErrorKind::UnterminatedString),
        ("dag {", 5, ParseErrorKind::MissingCloseBrace),
        ("dag { a b", 9, ParseErrorKind::MissingCloseBrace),
        ("dag { a -> b ", 13, ParseErrorKind::MissingCloseBrace),
        ("dag { a [x", 10, ParseErrorKind::MissingCloseBracket),
        ("dag { a [x [y] }", 11, ParseErrorKind::MissingCloseBracket),
        ("dag { a [x=1 = 2] }", 13, ParseErrorKind::MissingCloseBracket),
        ("dag { = }", 6, ParseErrorKind::MissingIdentifier),
        ("dag { a -> }", 11, ParseErrorKind::MissingIdentifier),
        ("dag { a -> -> b }", 11, ParseErrorKind::MissingIdentifier),
        ("dag { a; ; b }", 9, ParseErrorKind::MissingIdentifier),
        ("dag { a - b }", 8, ParseErrorKind::MissingIdentifier),
        ("dag { a [x=] }", 11, ParseErrorKind::MissingValue),
        ("dag { a [x=,y] }", 11, ParseErrorKind::MissingValue),
        ("dag { \"a }", 6, ParseErrorKind::UnterminatedString),
        ("dag { a -> \"b }", 11, ParseErrorKind::UnterminatedString),
        ("dag { a [\"x] }", 9, ParseErrorKind::UnterminatedString),
        ("dag { a [x=\"1] }", 11, ParseErrorKind::UnterminatedString),
        ("dag { a } b", 10, ParseErrorKind::TrailingText),
        ("dag { a } }", 10, ParseErrorKind::TrailingText),
    ];
    for (text, position, kind) in cases {
        assert_eq!(ParseError { position, kind }, error_of(text), "{:?}", text);
    }
}

#[test]
fn positions_of_errors_count_characters() {
    assert_eq!(
        ParseError { position: 12, kind: ParseErrorKind::TrailingText },
        error_of("dag { \"é\" } x")
    );
}

#[test]
fn the_builder_resolves_identifiers_through_its_map() {
    let node = |id: &str| {
        NodeInfo::new(id, Coordinate::zero(), Coordinate::zero(), VertexType::Unspecified)
    };
    let edge = || EdgeInfo::new("", None, EdgeType::Directed);
    let builder = CausalGraphBuilder::new()
        .dag()
        .add_node(node("a"), "a")
        .add_node(node("b"), "b")
        .add_edge("a", "b", edge())
        .add_edge("a", "missing", edge())
        .add_edge("missing", "b", edge())
        .add_node(node("a"), "a")
        .add_edge("b", "a", edge());
    let g = builder.build();
    assert!(g.is_directed());
    assert_eq!(vec!["a", "b", "a"], node_ids(&g));
    assert_eq!(vec![(0, 1), (1, 2)], edge_ends(&g));
}

#[test]
fn a_builder_without_a_graph_takes_nothing() {
    let node = NodeInfo::new("a", Coordinate::zero(), Coordinate::zero(), VertexType::Unspecified);
    let builder = CausalGraphBuilder::new().add_node(node, "a").add_edge(
        "a",
        "a",
        EdgeInfo::new("", None, EdgeType::Directed),
    );
    let g = builder.graph().build();
    assert!(!g.is_directed());
    assert_eq!(0, g.node_count());
    assert_eq!(0, g.edge_count());
}

#[test]
fn every_kind_of_error_says_what_it_is() {
    assert_eq!("expected a graph keyword", ParseErrorKind::MissingGraphType.description());
    assert_eq!("unsupported kind of graph", ParseErrorKind::UnsupportedGraphType.description());
    assert_eq!("expected `{`", ParseErrorKind::MissingOpenBrace.description());
    assert_eq!("expected `}`", ParseErrorKind::MissingCloseBrace.description());
    assert_eq!("expected `]`", ParseErrorKind::MissingCloseBracket.description());
    assert_eq!("expected an identifier", ParseErrorKind::MissingIdentifier.description());
    assert_eq!("expected a value", ParseErrorKind::MissingValue.description());
    assert_eq!("unterminated string", ParseErrorKind::UnterminatedString.description());
    assert_eq!("unexpected text after `}`", ParseErrorKind::TrailingText.description());
}

#[test]
fn ancestors_in_the_base_graph() {
    let g = DagittyParser::parse_str(BASE_DAG_STR).unwrap();
    let ids = node_ids(&g);
    let named = |id: &str| NodeIndex::new(ids.iter().position(|n| n == id).unwrap());
    let ancestors = |id: &str| {
        let mut found: Vec<String> = g
            .ancestors(named(id))
            .into_vec()
            .into_iter()
            .map(|n| g.node_weight(n).unwrap().id.clone())
            .collect();
        found.sort();
        found
    };
    assert_eq!(Vec::<String>::new(), ancestors("A"));
    assert_eq!(Vec::<String>::new(), ancestors("B"));
    assert_eq!(vec!["A", "B"], ancestors("Z"));
    assert_eq!(vec!["A", "B", "E"], ancestors("D"));
    assert_eq!(vec!["A"], ancestors("E"));
}
