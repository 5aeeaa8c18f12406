//! Drawing edges, and what a graph is once edges are drawn.

use crate::graph::{
    add_edge, graph_compact, graph_edges, graph_nodes, Edge, EntityGraph, SqlGraphRelationship,
};
use vstd::prelude::*;

verus! {

/// The edge from `source`, if there is one, to `target`.
pub open spec fn edge_from(
    source: Option<usize>,
    target: usize,
    relationship: SqlGraphRelationship,
) -> Seq<Edge> {
    match source {
        Some(s) => seq![(s, target, relationship)],
        None => Seq::empty(),
    }
}

/// The edge from `source` to `target`, if there is one.
pub open spec fn edge_to(
    source: usize,
    target: Option<usize>,
    relationship: SqlGraphRelationship,
) -> Seq<Edge> {
    match target {
        Some(t) => seq![(source, t, relationship)],
        None => Seq::empty(),
    }
}

/// One edge from each of `sources` to `target`.
pub open spec fn edges_from(
    sources: Seq<usize>,
    target: usize,
    relationship: SqlGraphRelationship,
) -> Seq<Edge> {
    Seq::new(sources.len(), |i: int| (sources[i], target, relationship))
}

/// One edge from `source` to each of `targets`.
pub open spec fn edges_to(
    source: usize,
    targets: Seq<usize>,
    relationship: SqlGraphRelationship,
) -> Seq<Edge> {
    Seq::new(targets.len(), |i: int| (source, targets[i], relationship))
}

/// `after` is `before` with the edges `added` behind those it had, and the
/// same nodes.
pub open spec fn extended_by(before: EntityGraph, after: EntityGraph, added: Seq<Edge>) -> bool {
    &&& graph_compact(after)
    &&& graph_nodes(after) == graph_nodes(before)
    &&& graph_edges(after) == graph_edges(before) + added
}

/// Extending by nothing.
pub proof fn lemma_extended_by_nothing(g: EntityGraph)
    requires
        graph_compact(g),
    ensures
        extended_by(g, g, Seq::empty()),
{
}

/// Extending twice is extending by both.
pub proof fn lemma_extended_twice(
    first: EntityGraph,
    second: EntityGraph,
    third: EntityGraph,
    one: Seq<Edge>,
    two: Seq<Edge>,
)
    requires
        extended_by(first, second, one),
        extended_by(second, third, two),
    ensures
        extended_by(first, third, one + two),
{
    assert(graph_edges(first) + (one + two) =~= (graph_edges(first) + one) + two);
}

/// Draws one edge from `a` to `b`.
pub fn link(g: &mut EntityGraph, a: usize, b: usize, relationship: SqlGraphRelationship)
    requires
        graph_compact(*old(g)),
        a < graph_nodes(*old(g)).len(),
        b < graph_nodes(*old(g)).len(),
    ensures
        extended_by(*old(g), *final(g), seq![(a, b, relationship)]),
{
    add_edge(g, a, b, relationship);
    assert(graph_edges(*old(g)).push((a, b, relationship)) =~= graph_edges(*old(g)) + seq![
        (a, b, relationship),
    ]);
}

/// Draws the edge from `source`, if there is one, to `target`.
pub fn link_from_some(
    g: &mut EntityGraph,
    source: Option<usize>,
    target: usize,
    relationship: SqlGraphRelationship,
)
    requires
        graph_compact(*old(g)),
        target < graph_nodes(*old(g)).len(),
        source matches Some(s) ==> s < graph_nodes(*old(g)).len(),
    ensures
        extended_by(*old(g), *final(g), edge_from(source, target, relationship)),
{
    match source {
        Some(s) => link(g, s, target, relationship),
        None => {
            proof {
                lemma_extended_by_nothing(*g);
            }
        },
    }
}

/// Draws the edge from `source` to `target`, if there is one.
pub fn link_to_some(
    g: &mut EntityGraph,
    source: usize,
    target: Option<usize>,
    relationship: SqlGraphRelationship,
)
    requires
        graph_compact(*old(g)),
        source < graph_nodes(*old(g)).len(),
        target matches Some(t) ==> t < graph_nodes(*old(g)).len(),
    ensures
        extended_by(*old(g), *final(g), edge_to(source, target, relationship)),
{
    match target {
        Some(t) => link(g, source, t, relationship),
        None => {
            proof {
                lemma_extended_by_nothing(*g);
            }
        },
    }
}

/// Draws an edge from each of `sources` to `target`, in their order.
pub fn link_from_all(
    g: &mut EntityGraph,
    sources: &Vec<usize>,
    target: usize,
    relationship: SqlGraphRelationship,
)
    requires
        graph_compact(*old(g)),
        target < graph_nodes(*old(g)).len(),
        forall|i: int| 0 <= i < sources@.len() ==> sources@[i] < graph_nodes(*old(g)).len(),
    ensures
        extended_by(*old(g), *final(g), edges_from(sources@, target, relationship)),
{
    proof {
        lemma_extended_by_nothing(*g);
    }
    let mut i: usize = 0;
    while i < sources.len()
        invariant
            i <= sources.len(),
            target < graph_nodes(*old(g)).len(),
            forall|i: int| 0 <= i < sources@.len() ==> sources@[i] < graph_nodes(*old(g)).len(),
            extended_by(*old(g), *g, edges_from(sources@.take(i as int), target, relationship)),
        decreases sources.len() - i,
    {
        let ghost before = *g;
        link(g, sources[i], target, relationship);
        proof {
            lemma_extended_twice(
                *old(g),
                before,
                *g,
                edges_from(sources@.take(i as int), target, relationship),
                seq![(sources@[i as int], target, relationship)],
            );
            assert(edges_from(sources@.take(i + 1), target, relationship) =~= edges_from(
                sources@.take(i as int),
                target,
                relationship,
            ) + seq![(sources@[i as int], target, relationship)]);
        }
        i += 1;
    }
    assert(sources@.take(sources@.len() as int) =~= sources@);
}

/// Draws an edge from `source` to each of `targets`, in their order.
pub fn link_to_all(
    g: &mut EntityGraph,
    source: usize,
    targets: &Vec<usize>,
    relationship: SqlGraphRelationship,
)
    requires
        graph_compact(*old(g)),
        source < graph_nodes(*old(g)).len(),
        forall|i: int| 0 <= i < targets@.len() ==> targets@[i] < graph_nodes(*old(g)).len(),
    ensures
        extended_by(*old(g), *final(g), edges_to(source, targets@, relationship)),
{
    proof {
        lemma_extended_by_nothing(*g);
    }
    let mut i: usize = 0;
    while i < targets.len()
        invariant
            i <= targets.len(),
            source < graph_nodes(*old(g)).len(),
            forall|i: int| 0 <= i < targets@.len() ==> targets@[i] < graph_nodes(*old(g)).len(),
            extended_by(*old(g), *g, edges_to(source, targets@.take(i as int), relationship)),
        decreases targets.len() - i,
    {
        let ghost before = *g;
        link(g, source, targets[i], relationship);
        proof {
            lemma_extended_twice(
                *old(g),
                before,
                *g,
                edges_to(source, targets@.take(i as int), relationship),
                seq![(source, targets@[i as int], relationship)],
            );
            assert(edges_to(source, targets@.take(i + 1), relationship) =~= edges_to(
                source,
                targets@.take(i as int),
                relationship,
            ) + seq![(source, targets@[i as int], relationship)]);
        }
        i += 1;
    }
    assert(targets@.take(targets@.len() as int) =~= targets@);
}

} // verus!
