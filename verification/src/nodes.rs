//! The nodes of a graph: one for each entity, in tables by kind.

use crate::outcome::{all_edges, concat_edges};
use crate::graph::{
    add_node, graph_compact, graph_edges, graph_nodes, Edge, EntityGraph, SqlGraphKind,
    SqlGraphNode, SqlGraphRelationship,
};
use crate::links::{
    edge_from, edge_to, extended_by, lemma_extended_twice, link_from_some, link_to_some,
};
use vstd::prelude::*;

verus! {

/// The node that stands for entry `position` of the table of `kind`.
pub open spec fn node_at(kind: SqlGraphKind, position: int) -> SqlGraphNode {
    SqlGraphNode { kind, position: position as usize }
}

/// The nodes of `kind` for the places from `from` up to `to`.
pub open spec fn nodes_of(kind: SqlGraphKind, from: int, to: int) -> Seq<SqlGraphNode> {
    Seq::new((to - from) as nat, |j: int| node_at(kind, from + j))
}

/// The table of `items` whose nodes follow one another from the index
/// `start` on.
pub open spec fn numbered<T>(items: Seq<T>, start: int) -> Seq<(T, usize)> {
    Seq::new(items.len(), |k: int| (items[k], (start + k) as usize))
}

/// Whether none of the nodes is of the kind `kind`.
pub open spec fn none_of(nodes: Seq<SqlGraphNode>, kind: SqlGraphKind) -> bool {
    forall|i: int| 0 <= i < nodes.len() ==> (#[trigger] nodes[i]).kind != kind
}

/// The nodes of `kind` are those of the table, each at its place: the node
/// of entry `k` stands for entry `k` of that kind, and every node of that
/// kind is the node of the entry that it stands for.
pub open spec fn table_matches<T>(
    nodes: Seq<SqlGraphNode>,
    table: Seq<(T, usize)>,
    kind: SqlGraphKind,
) -> bool {
    &&& forall|k: int|
        0 <= k < table.len() ==> (#[trigger] table[k]).1 < nodes.len() && nodes[table[k].1 as int]
            == node_at(kind, k)
    &&& forall|i: int|
        0 <= i < nodes.len() && (#[trigger] nodes[i]).kind == kind ==> nodes[i].position
            < table.len() && table[nodes[i].position as int].1 == i
}

/// A table still matches when its next entry and the node of that entry
/// are added together.
pub proof fn lemma_table_matches_push<T>(
    nodes: Seq<SqlGraphNode>,
    table: Seq<(T, usize)>,
    kind: SqlGraphKind,
    item: T,
)
    requires
        table_matches(nodes, table, kind),
        nodes.len() <= usize::MAX,
        table.len() <= usize::MAX,
    ensures
        table_matches(
            nodes.push(node_at(kind, table.len() as int)),
            table.push((item, nodes.len() as usize)),
            kind,
        ),
{
}

/// A table still matches when nodes of other kinds are added.
pub proof fn lemma_table_matches_grows<T>(
    nodes: Seq<SqlGraphNode>,
    more: Seq<SqlGraphNode>,
    table: Seq<(T, usize)>,
    kind: SqlGraphKind,
)
    requires
        table_matches(nodes, table, kind),
        forall|j: int| 0 <= j < more.len() ==> (#[trigger] more[j]).kind != kind,
    ensures
        table_matches(nodes + more, table, kind),
{
}

/// The edges that tie a node to the anchors that there are: from the root,
/// from the bootstrap, to the finalize.
pub open spec fn anchor_edges(
    index: usize,
    root: Option<usize>,
    bootstrap: Option<usize>,
    finalize: Option<usize>,
) -> Seq<Edge> {
    edge_from(root, index, SqlGraphRelationship::RequiredBy) + edge_from(
        bootstrap,
        index,
        SqlGraphRelationship::RequiredBy,
    ) + edge_to(index, finalize, SqlGraphRelationship::RequiredBy)
}

/// The anchor edges of each node of a table.
pub open spec fn table_anchor_parts<T>(
    table: Seq<(T, usize)>,
    root: Option<usize>,
    bootstrap: Option<usize>,
    finalize: Option<usize>,
) -> Seq<Seq<Edge>> {
    Seq::new(table.len(), |k: int| anchor_edges(table[k].1, root, bootstrap, finalize))
}

/// Ties the node `index` to the anchors that there are.
pub fn tie_to_anchors(
    graph: &mut EntityGraph,
    index: usize,
    root: Option<usize>,
    bootstrap: Option<usize>,
    finalize: Option<usize>,
)
    requires
        graph_compact(*old(graph)),
        index < graph_nodes(*old(graph)).len(),
        root matches Some(r) ==> r < graph_nodes(*old(graph)).len(),
        bootstrap matches Some(b) ==> b < graph_nodes(*old(graph)).len(),
        finalize matches Some(f) ==> f < graph_nodes(*old(graph)).len(),
    ensures
        extended_by(*old(graph), *final(graph), anchor_edges(index, root, bootstrap, finalize)),
{
    link_from_some(graph, root, index, SqlGraphRelationship::RequiredBy);
    let ghost first = *graph;
    link_from_some(graph, bootstrap, index, SqlGraphRelationship::RequiredBy);
    let ghost second = *graph;
    link_to_some(graph, index, finalize, SqlGraphRelationship::RequiredBy);
    proof {
        let from_root = edge_from(root, index, SqlGraphRelationship::RequiredBy);
        let from_bootstrap = edge_from(bootstrap, index, SqlGraphRelationship::RequiredBy);
        lemma_extended_twice(*old(graph), first, second, from_root, from_bootstrap);
        lemma_extended_twice(
            *old(graph),
            second,
            *graph,
            from_root + from_bootstrap,
            edge_to(index, finalize, SqlGraphRelationship::RequiredBy),
        );
    }
}

/// Puts the node `index` behind the root and the bootstrap and before the
/// finalize.
pub fn build_base_edges(
    graph: &mut EntityGraph,
    index: usize,
    root: usize,
    bootstrap: Option<usize>,
    finalize: Option<usize>,
)
    requires
        graph_compact(*old(graph)),
        index < graph_nodes(*old(graph)).len(),
        root < graph_nodes(*old(graph)).len(),
        bootstrap matches Some(b) ==> b < graph_nodes(*old(graph)).len(),
        finalize matches Some(f) ==> f < graph_nodes(*old(graph)).len(),
    ensures
        extended_by(
            *old(graph),
            *final(graph),
            anchor_edges(index, Some(root), bootstrap, finalize),
        ),
{
    tie_to_anchors(graph, index, Some(root), bootstrap, finalize);
}

/// Makes a node for each of `items`, in their order, and ties each to the
/// anchors that there are. Gives the table of the items with their nodes.
pub fn initialize_nodes<T>(
    graph: &mut EntityGraph,
    kind: SqlGraphKind,
    root: Option<usize>,
    bootstrap: Option<usize>,
    finalize: Option<usize>,
    items: Vec<T>,
) -> (table: Vec<(T, usize)>)
    requires
        graph_compact(*old(graph)),
        root matches Some(r) ==> r < graph_nodes(*old(graph)).len(),
        bootstrap matches Some(b) ==> b < graph_nodes(*old(graph)).len(),
        finalize matches Some(f) ==> f < graph_nodes(*old(graph)).len(),
        none_of(graph_nodes(*old(graph)), kind),
    ensures
        graph_compact(*final(graph)),
        table_matches(graph_nodes(*final(graph)), table@, kind),
        table@ == numbered(items@, graph_nodes(*old(graph)).len() as int),
        graph_nodes(*final(graph)) == graph_nodes(*old(graph)) + nodes_of(
            kind,
            0,
            items@.len() as int,
        ),
        graph_edges(*final(graph)) == graph_edges(*old(graph)) + all_edges(
            table_anchor_parts(table@, root, bootstrap, finalize),
        ),
{
    let ghost start = graph_nodes(*graph).len() as int;
    let ghost parts = table_anchor_parts(numbered(items@, start), root, bootstrap, finalize);
    let mut table: Vec<(T, usize)> = Vec::new();
    for item in it: items
        invariant
            it.seq() == items@,
            start == graph_nodes(*old(graph)).len(),
            parts == table_anchor_parts(numbered(items@, start), root, bootstrap, finalize),
            root matches Some(r) ==> r < start,
            bootstrap matches Some(b) ==> b < start,
            finalize matches Some(f) ==> f < start,
            graph_compact(*graph),
            table_matches(graph_nodes(*graph), table@, kind),
            table@ == numbered(items@.take(it.index() as int), start),
            graph_nodes(*graph) == graph_nodes(*old(graph)) + nodes_of(kind, 0, it.index() as int),
            graph_edges(*graph) == graph_edges(*old(graph)) + concat_edges(
                parts,
                it.index() as int,
            ),
    {
        let ghost before = *graph;
        let index = add_node(graph, SqlGraphNode { kind, position: table.len() });
        tie_to_anchors(graph, index, root, bootstrap, finalize);
        proof {
            lemma_table_matches_push(graph_nodes(before), table@, kind, item);
        }
        table.push((item, index));
    }
    proof {
        assert(items@.take(items@.len() as int) =~= items@);
    }
    table
}

} // verus!
