//! Orders of the nodes of a graph that respect its edges, and cycles.

use crate::graph::SqlGraphRelationship;
use vstd::prelude::*;
use vstd::set_lib::{lemma_int_range, lemma_subset_equality, set_int_range};

verus! {

/// Whether one of the edges leads from `a` to `b`.
pub open spec fn has_edge(
    edges: Seq<(usize, usize, SqlGraphRelationship)>,
    a: int,
    b: int,
) -> bool {
    exists|k: int| 0 <= k < edges.len() && (#[trigger] edges[k]).0 == a && edges[k].1 == b
}

/// Whether an edge leads from each node of the walk to the next.
pub open spec fn is_walk(edges: Seq<(usize, usize, SqlGraphRelationship)>, walk: Seq<int>) -> bool {
    walk.len() >= 2 && forall|i: int|
        0 <= i < walk.len() - 1 ==> has_edge(edges, #[trigger] walk[i], walk[i + 1])
}

/// Whether `node` lies on a cycle: a walk leads from it back to it. An edge
/// from a node to itself is a cycle.
pub open spec fn on_cycle(edges: Seq<(usize, usize, SqlGraphRelationship)>, node: int) -> bool {
    exists|walk: Seq<int>| is_walk(edges, walk) && walk[0] == node && walk.last() == node
}

/// Whether no node lies on a cycle.
pub open spec fn acyclic(edges: Seq<(usize, usize, SqlGraphRelationship)>) -> bool {
    forall|node: int| !on_cycle(edges, node)
}

/// Whether `a` stands before `b` in the order.
pub open spec fn comes_before(order: Seq<usize>, a: usize, b: usize) -> bool {
    exists|i: int, j: int|
        0 <= i < j < order.len() && #[trigger] order[i] == a && #[trigger] order[j] == b
}

/// Whether the order holds each of the `count` nodes exactly once, and the
/// source of every edge before its target.
pub open spec fn is_linearization(
    order: Seq<usize>,
    count: nat,
    edges: Seq<(usize, usize, SqlGraphRelationship)>,
) -> bool {
    &&& order.len() == count
    &&& order.no_duplicates()
    &&& forall|i: int| 0 <= i < order.len() ==> #[trigger] order[i] < count
    &&& forall|k: int|
        0 <= k < edges.len() ==> comes_before(order, (#[trigger] edges[k]).0, edges[k].1)
}

/// Along a walk in a linearised graph the place in the order only grows.
proof fn lemma_walk_goes_forward(
    order: Seq<usize>,
    count: nat,
    edges: Seq<(usize, usize, SqlGraphRelationship)>,
    walk: Seq<int>,
    m: int,
)
    requires
        is_linearization(order, count, edges),
        is_walk(edges, walk),
        1 <= m < walk.len(),
    ensures
        exists|i: int, j: int|
            0 <= i < j < order.len() && #[trigger] order[i] == walk[0] && #[trigger] order[j]
                == walk[m],
    decreases m,
{
    assert(has_edge(edges, walk[m - 1], walk[m]));
    let k = choose|k: int|
        0 <= k < edges.len() && (#[trigger] edges[k]).0 == walk[m - 1] && edges[k].1 == walk[m];
    assert(comes_before(order, edges[k].0, edges[k].1));
    let (i2, j2) = choose|i: int, j: int|
        0 <= i < j < order.len() && #[trigger] order[i] == edges[k].0 && #[trigger] order[j]
            == edges[k].1;
    if m == 1 {
        assert(order[i2] == walk[0] && order[j2] == walk[m]);
    } else {
        lemma_walk_goes_forward(order, count, edges, walk, m - 1);
        let (i1, j1) = choose|i: int, j: int|
            0 <= i < j < order.len() && #[trigger] order[i] == walk[0] && #[trigger] order[j]
                == walk[m - 1];
        assert(order[j1] == order[i2]);
        assert(j1 == i2);
        assert(order[i1] == walk[0] && order[j2] == walk[m]);
    }
}

/// A graph whose nodes can be put in an order that respects its edges has
/// no cycle.
pub proof fn lemma_linearized_is_acyclic(
    order: Seq<usize>,
    count: nat,
    edges: Seq<(usize, usize, SqlGraphRelationship)>,
)
    requires
        is_linearization(order, count, edges),
    ensures
        acyclic(edges),
{
    assert forall|node: int| !on_cycle(edges, node) by {
        if on_cycle(edges, node) {
            let walk = choose|walk: Seq<int>|
                is_walk(edges, walk) && walk[0] == node && walk.last() == node;
            lemma_walk_goes_forward(order, count, edges, walk, walk.len() - 1);
            let (i, j) = choose|i: int, j: int|
                0 <= i < j < order.len() && #[trigger] order[i] == walk[0] && #[trigger] order[j]
                    == walk[walk.len() - 1];
        }
    }
}

/// An order of the nodes of a graph holds every node.
pub proof fn lemma_linearization_holds_all(
    order: Seq<usize>,
    count: nat,
    edges: Seq<(usize, usize, SqlGraphRelationship)>,
)
    requires
        is_linearization(order, count, edges),
    ensures
        forall|node: usize| node < count ==> order.contains(node),
{
    let places = Seq::new(order.len(), |i: int| order[i] as int);
    let all = set_int_range(0, count as int);
    assert(places.no_duplicates());
    places.unique_seq_to_set();
    lemma_int_range(0, count as int);
    assert(places.to_set().subset_of(all)) by {
        assert forall|x: int| places.to_set().contains(x) implies all.contains(x) by {
            let i = choose|i: int| 0 <= i < places.len() && places[i] == x;
            assert(order[i] < count);
        }
    }
    lemma_subset_equality(places.to_set(), all);
    assert forall|node: usize| node < count implies order.contains(node) by {
        assert(all.contains(node as int));
        assert(places.to_set().contains(node as int));
        let i = choose|i: int| 0 <= i < places.len() && places[i] == node as int;
        assert(order[i] == node);
    }
}

} // verus!
