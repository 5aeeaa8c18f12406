//! The dependency graph itself: a `petgraph` stable graph, seen through the
//! sequence of its nodes and the sequence of its edges. What is said here of
//! `petgraph` is taken on trust.

use crate::dot::{drawn_edges, each_text, edge_attributes, text_at};
use crate::order::{is_linearization, on_cycle};
use petgraph::algo::toposort;
use petgraph::dot::{Config, Dot};
use petgraph::graph::NodeIndex;
use petgraph::stable_graph::StableGraph;
use petgraph::visit::EdgeRef;
use petgraph::Directed;
use vstd::prelude::*;

verus! {

/// Why one node has to come before another.
#[derive(Debug, Clone, Copy, PartialEq, Eq, Structural, PartialOrd, Ord, Hash)]
pub enum SqlGraphRelationship {
    RequiredBy,
    RequiredByArg,
    RequiredByReturn,
}

/// The kinds of entities that nodes stand for.
#[derive(Debug, Clone, Copy, PartialEq, Eq, Structural, Hash)]
pub enum SqlGraphKind {
    ExtensionRoot,
    Schema,
    CustomSql,
    Function,
    Type,
    BuiltinType,
    Enum,
    Ord,
    Hash,
    Aggregate,
    Trigger,
}

/// What a node of the graph stands for: the kind of entity and its place in
/// the table of that kind.
#[derive(Debug, Clone, Copy, PartialEq, Eq, Structural, Hash)]
pub struct SqlGraphNode {
    pub kind: SqlGraphKind,
    pub position: usize,
}

/// `petgraph::stable_graph::StableGraph`, of which nothing is seen but what
/// the functions below say.
#[verifier::external_type_specification]
#[verifier::external_body]
#[verifier::reject_recursive_types(N)]
#[verifier::reject_recursive_types(E)]
#[verifier::reject_recursive_types(Ty)]
#[verifier::reject_recursive_types(Ix)]
pub struct ExStableGraph<N, E, Ty, Ix>(StableGraph<N, E, Ty, Ix>);

/// `petgraph::Directed`, the mark of a graph whose edges have a direction.
#[verifier::external_type_specification]
#[verifier::external_body]
pub struct ExDirected(Directed);

/// The graph of entities: nodes that stand for entities, edges that say why
/// one comes before the other, indices as wide as the machine has them.
pub type EntityGraph = StableGraph<SqlGraphNode, SqlGraphRelationship, Directed, usize>;

/// An edge: its source, its target and why the source comes first.
pub type Edge = (usize, usize, SqlGraphRelationship);

/// The node weights of a graph, by node index.
pub uninterp spec fn graph_nodes(g: EntityGraph) -> Seq<SqlGraphNode>;

/// The edges of a graph as (source, target, relationship), oldest first.
pub uninterp spec fn graph_edges(g: EntityGraph) -> Seq<(usize, usize, SqlGraphRelationship)>;

/// Whether nothing was ever removed from the graph, so that node and edge
/// indices count up from zero without gaps.
pub uninterp spec fn graph_compact(g: EntityGraph) -> bool;

/// `StableGraph::with_capacity(0, 0)`: a graph without nodes or edges.
#[verifier::external_body]
pub(crate) fn new_graph() -> (g: EntityGraph)
    ensures
        graph_nodes(g) == Seq::<SqlGraphNode>::empty(),
        graph_edges(g) == Seq::<Edge>::empty(),
        graph_compact(g),
{
    StableGraph::with_capacity(0, 0)
}

/// `StableGraph::add_node`: in a graph without gaps the new node takes the
/// next index, and nothing else changes.
#[verifier::external_body]
pub(crate) fn add_node(g: &mut EntityGraph, weight: SqlGraphNode) -> (index: usize)
    requires
        graph_compact(*old(g)),
    ensures
        index == graph_nodes(*old(g)).len(),
        graph_nodes(*final(g)) == graph_nodes(*old(g)).push(weight),
        graph_edges(*final(g)) == graph_edges(*old(g)),
        graph_compact(*final(g)),
{
    g.add_node(weight).index()
}

/// `StableGraph::add_edge` between two nodes of the graph: the edge becomes
/// the newest one, and nothing else changes.
#[verifier::external_body]
pub(crate) fn add_edge(g: &mut EntityGraph, a: usize, b: usize, weight: SqlGraphRelationship)
    requires
        graph_compact(*old(g)),
        a < graph_nodes(*old(g)).len(),
        b < graph_nodes(*old(g)).len(),
    ensures
        graph_edges(*final(g)) == graph_edges(*old(g)).push((a, b, weight)),
        graph_nodes(*final(g)) == graph_nodes(*old(g)),
        graph_compact(*final(g)),
{
    g.add_edge(NodeIndex::new(a), NodeIndex::new(b), weight);
}

/// `StableGraph::node_count`: the number of nodes.
#[verifier::external_body]
pub(crate) fn count_nodes(g: &EntityGraph) -> (count: usize)
    requires
        graph_compact(*g),
    ensures
        count == graph_nodes(*g).len(),
{
    g.node_count()
}

/// `StableGraph` indexed by a node index: the weight of the node.
#[verifier::external_body]
pub(crate) fn node_weight(g: &EntityGraph, a: usize) -> (weight: SqlGraphNode)
    requires
        graph_compact(*g),
        a < graph_nodes(*g).len(),
    ensures
        weight == graph_nodes(*g)[a as int],
{
    g[NodeIndex::new(a)]
}

/// The targets of those of the first `n` edges that leave `a`, newest
/// first.
pub open spec fn successors(edges: Seq<Edge>, a: usize, n: int) -> Seq<usize>
    decreases n,
{
    if n <= 0 {
        Seq::empty()
    } else if edges[n - 1].0 == a {
        seq![edges[n - 1].1] + successors(edges, a, n - 1)
    } else {
        successors(edges, a, n - 1)
    }
}

/// The sources of those of the first `n` edges that reach `a` from another
/// node, newest first.
pub open spec fn predecessors(edges: Seq<Edge>, a: usize, n: int) -> Seq<usize>
    decreases n,
{
    if n <= 0 {
        Seq::empty()
    } else if edges[n - 1].1 == a && edges[n - 1].0 != a {
        seq![edges[n - 1].0] + predecessors(edges, a, n - 1)
    } else {
        predecessors(edges, a, n - 1)
    }
}

/// The neighbours of `a` in the order in which the graph hands them out:
/// along the edges that leave `a`, newest first, then along the edges that
/// reach `a` from another node, newest first.
pub open spec fn neighbors_of(edges: Seq<Edge>, a: usize) -> Seq<usize> {
    successors(edges, a, edges.len() as int) + predecessors(edges, a, edges.len() as int)
}

/// `StableGraph::neighbors_undirected`, collected: the neighbours of `a` in
/// the order in which the graph hands them out, each of them a node of the
/// graph; none for an `a` that is no node.
#[verifier::external_body]
pub(crate) fn neighbors_undirected(g: &EntityGraph, a: usize) -> (neighbors: Vec<usize>)
    requires
        graph_compact(*g),
    ensures
        neighbors@ == neighbors_of(graph_edges(*g), a),
        forall|i: int| 0 <= i < neighbors@.len() ==> neighbors@[i] < graph_nodes(*g).len(),
{
    g.neighbors_undirected(NodeIndex::new(a)).map(|n| n.index()).collect()
}

/// `petgraph::algo::toposort`: an order of all the nodes in which every
/// edge leads from an earlier node to a later one, or a node that lies on a
/// cycle.
#[verifier::external_body]
pub(crate) fn topological_order(g: &EntityGraph) -> (r: Result<Vec<usize>, usize>)
    requires
        graph_compact(*g),
    ensures
        match r {
            Ok(order) => is_linearization(order@, graph_nodes(*g).len(), graph_edges(*g)),
            Err(node) => node < graph_nodes(*g).len() && on_cycle(graph_edges(*g), node as int),
        },
{
    match toposort(g, None) {
        Ok(order) => Ok(order.into_iter().map(|n| n.index()).collect()),
        Err(cycle) => Err(cycle.node_id().index()),
    }
}

/// The graphviz text that `petgraph` writes for a directed graph without
/// labels, of nodes and of edges with the given attributes.
pub uninterp spec fn dot_text(
    node_attributes: Seq<Seq<char>>,
    edges: Seq<(usize, usize, Seq<char>)>,
) -> Seq<char>;

/// `petgraph::dot::Dot` with attribute getters and without labels, written
/// out: the graphviz text of the graph, each node with the attributes at
/// its index and each edge with those of its relationship.
#[verifier::external_body]
pub(crate) fn write_dot(g: &EntityGraph, node_attributes: &Vec<String>) -> (text: String)
    requires
        graph_compact(*g),
        node_attributes@.len() == graph_nodes(*g).len(),
    ensures
        text@ == dot_text(each_text(node_attributes@), drawn_edges(graph_edges(*g))),
{
    format!(
        "{:?}",
        Dot::with_attr_getters(
            g,
            &[Config::EdgeNoLabel, Config::NodeNoLabel],
            &|_, edge| edge_attributes(*edge.weight()),
            &|_, (index, _)| text_at(node_attributes, index.index()),
        )
    )
}

} // verus!
