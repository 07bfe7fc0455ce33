//! Building a causal graph from statements that name nodes by identifier.

use vstd::prelude::*;
use vstd::hash_map::StringHashMap;
use crate::dagitty::{EdgeInfo, EdgeInfoModel, NodeInfo, NodeModel};
use crate::graph::{edge_model, CausalGraph, EdgeModel, GraphModel, NodeIndex};

verus! {

/// What a builder holds: the graph so far, once its kind is chosen, and for
/// each identifier the index of the node that was last added under it.
pub struct BuilderModel {
    pub graph: Option<GraphModel>,
    pub node_map: Map<Seq<char>, int>,
}

/// A builder before the kind of graph is chosen.
pub open spec fn empty_builder() -> BuilderModel {
    BuilderModel { graph: None, node_map: Map::empty() }
}

/// A builder for a graph of the given kind, without nodes or edges.
pub open spec fn fresh_builder(directed: bool) -> BuilderModel {
    BuilderModel {
        graph: Some(GraphModel { directed, nodes: Seq::empty(), edges: Seq::empty() }),
        node_map: Map::empty(),
    }
}

/// The builder after `node` is added under `id`: the node is appended, and
/// `id` names it from now on. Without a graph nothing changes.
pub open spec fn with_node(b: BuilderModel, node: NodeModel, id: Seq<char>) -> BuilderModel {
    match b.graph {
        Some(g) => BuilderModel {
            graph: Some(GraphModel { nodes: g.nodes.push(node), ..g }),
            node_map: b.node_map.insert(id, g.nodes.len() as int),
        },
        None => b,
    }
}

/// The builder after an edge from `left` to `right` is asked for: the edge
/// is appended if both identifiers name a node; if one does not, or there is
/// no graph, nothing changes.
pub open spec fn with_edge(
    b: BuilderModel,
    left: Seq<char>,
    right: Seq<char>,
    info: EdgeInfoModel,
) -> BuilderModel {
    match b.graph {
        Some(g) => if b.node_map.contains_key(left) && b.node_map.contains_key(right) {
            BuilderModel {
                graph: Some(
                    GraphModel {
                        edges: g.edges.push(
                            EdgeModel {
                                source: b.node_map[left],
                                target: b.node_map[right],
                                info,
                            },
                        ),
                        ..g
                    },
                ),
                ..b
            }
        } else {
            b
        },
        None => b,
    }
}

/// Accumulates a causal graph; identifiers are resolved to nodes through a
/// map of its own.
pub struct CausalGraphBuilder {
    graph: Option<CausalGraph>,
    node_map: StringHashMap<NodeIndex>,
}

impl View for CausalGraphBuilder {
    type V = BuilderModel;

    closed spec fn view(&self) -> BuilderModel {
        BuilderModel {
            graph: match self.graph {
                Some(g) => Some(g@),
                None => None,
            },
            node_map: self.node_map@.map_values(|n: NodeIndex| n.ix as int),
        }
    }
}

impl CausalGraphBuilder {
    /// The builder is consistent: its graph is, and every identifier names
    /// one of the graph's nodes.
    pub closed spec fn well_formed(&self) -> bool {
        match self.graph {
            Some(g) => g.well_formed() && forall|id: Seq<char>| #[trigger]
                self.node_map@.contains_key(id) ==> self.node_map@[id].ix < g.nodes().len(),
            None => self.node_map@ == Map::<Seq<char>, NodeIndex>::empty(),
        }
    }

    /// In a consistent builder every identifier names a node of the graph.
    pub proof fn lemma_well_formed(&self)
        requires
            self.well_formed(),
        ensures
            match self@.graph {
                Some(g) => forall|id: Seq<char>| #[trigger]
                    self@.node_map.contains_key(id) ==> 0 <= self@.node_map[id] < g.nodes.len(),
                None => self@.node_map == Map::<Seq<char>, int>::empty(),
            },
    {
        match self.graph {
            Some(g) => {},
            None => {
            },
        }
    }

    /// A builder without a graph.
    pub fn new() -> (r: Self)
        ensures
            r.well_formed(),
            r@ == empty_builder(),
    {
        let r = CausalGraphBuilder { graph: None, node_map: StringHashMap::new() };
        assert(r@.node_map =~= Map::<Seq<char>, int>::empty());
        r
    }

    /// Starts a directed graph. What was built before is dropped.
    pub fn dag(self) -> (r: Self)
        ensures
            r.well_formed(),
            r@ == fresh_builder(true),
    {
        let r = CausalGraphBuilder {
            graph: Some(CausalGraph::new_dag()),
            node_map: StringHashMap::new(),
        };
        proof {
            let g = r.graph->0;
            assert(g@.nodes =~= Seq::empty());
            assert(g@.edges =~= Seq::empty());
            assert(r@.node_map =~= Map::<Seq<char>, int>::empty());
        }
        r
    }

    /// Starts an undirected graph. What was built before is dropped.
    pub fn graph(self) -> (r: Self)
        ensures
            r.well_formed(),
            r@ == fresh_builder(false),
    {
        let r = CausalGraphBuilder {
            graph: Some(CausalGraph::new_ungraph()),
            node_map: StringHashMap::new(),
        };
        proof {
            let g = r.graph->0;
            assert(g@.nodes =~= Seq::empty());
            assert(g@.edges =~= Seq::empty());
            assert(r@.node_map =~= Map::<Seq<char>, int>::empty());
        }
        r
    }

    /// Adds the node `n` under the identifier `id`. An identifier that was
    /// used before names the new node from now on; the earlier node stays in
    /// the graph. Without a graph nothing happens.
    pub fn add_node(self, n: NodeInfo, id: &str) -> (r: Self)
        requires
            self.well_formed(),
            self@.graph is Some ==> self@.graph->0.nodes.len() < u32::MAX,
        ensures
            r.well_formed(),
            r@ == with_node(self@, n@, id@),
    {
        let mut builder = self;
        match builder.graph {
            Some(mut g) => {
                let ghost before = g;
                let index = g.add_node(n);
                builder.node_map.insert(id.to_owned(), index);
                builder.graph = Some(g);
                proof {
                    assert(g@.nodes =~= before@.nodes.push(n@));
                    assert(builder@.node_map =~= self@.node_map.insert(
                        id@,
                        before@.nodes.len() as int,
                    ));
                }
                builder
            },
            None => builder,
        }
    }

    /// Adds an edge from the node that `left_node` names to the node that
    /// `right_node` names. If either names no node, or there is no graph,
    /// nothing happens.
    pub fn add_edge(self, left_node: &str, right_node: &str, edge: EdgeInfo) -> (r: Self)
        requires
            self.well_formed(),
            self@.graph is Some ==> self@.graph->0.edges.len() < u32::MAX,
        ensures
            r.well_formed(),
            r@ == with_edge(self@, left_node@, right_node@, edge@),
            !self@.node_map.contains_key(left_node@) || !self@.node_map.contains_key(right_node@)
                ==> r@ == self@,
    {
        let mut builder = self;
        let left_id = match builder.node_map.get(left_node) {
            Some(index) => Some(*index),
            None => None,
        };
        let right_id = match builder.node_map.get(right_node) {
            Some(index) => Some(*index),
            None => None,
        };
        match builder.graph {
            Some(mut g) => {
                if left_id.is_some() && right_id.is_some() {
                    let ghost before = g;
                    let left = left_id.unwrap();
                    let right = right_id.unwrap();
                    g.add_edge(left, right, edge);
                    builder.graph = Some(g);
                    proof {
                        assert(g@.edges =~= before@.edges.push(
                            edge_model((left.ix, right.ix, edge)),
                        ));
                    }
                    builder
                } else {
                    builder.graph = Some(g);
                    builder
                }
            },
            None => builder,
        }
    }

    /// Hands out the graph. A kind must have been chosen.
    pub fn build(self) -> (r: CausalGraph)
        requires
            self.well_formed(),
            self@.graph is Some,
        ensures
            r.well_formed(),
            Some(r@) == self@.graph,
    {
        self.graph.unwrap()
    }
}

} // verus!
