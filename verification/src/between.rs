//! Between the anchors: the bootstrap comes before every entity, and the
//! finalize after every entity.

use crate::classify::Classified;
use crate::drawn::lemma_build_holds;
use crate::entity::ExtensionSqlEntity;
use crate::graph::{Edge, SqlGraphKind, SqlGraphRelationship};
use crate::initialize::sql_anchor_parts;
use crate::laws::{lemma_node_edges_by_kind, node_edge_terms};
use crate::links::{edge_from, edge_to};
use crate::nodes::{anchor_edges, table_anchor_parts};
use crate::outcome::{all_edges, holds_all, lemma_concat_edges_holds, lemma_holds_all_within};
use crate::plan::{
    build_outcome, kind_anchor_parts, node_edges, planned, planned_bootstrap, planned_finalize,
};
use crate::tables::Corpus;
use vstd::prelude::*;

verus! {

/// Whether an edge leads from the bootstrap, if there is one, to `node`,
/// and one from `node` to the finalize, if there is one.
pub open spec fn between(
    edges: Seq<Edge>,
    bootstrap: Option<usize>,
    finalize: Option<usize>,
    node: usize,
) -> bool {
    &&& bootstrap matches Some(b) ==> edges.contains((b, node, SqlGraphRelationship::RequiredBy))
    &&& finalize matches Some(f) ==> edges.contains((node, f, SqlGraphRelationship::RequiredBy))
}

/// Whether the node of each entry of the table is between the anchors.
pub open spec fn all_between<T>(
    edges: Seq<Edge>,
    bootstrap: Option<usize>,
    finalize: Option<usize>,
    table: Seq<(T, usize)>,
) -> bool {
    forall|k: int|
        0 <= k < table.len() ==> between(edges, bootstrap, finalize, (#[trigger] table[k]).1)
}

/// The bootstrap that SQL fragment `sql` is tied to: none where it asks to
/// be the bootstrap.
pub open spec fn bootstrap_for(sql: ExtensionSqlEntity, bootstrap: Option<usize>) -> Option<
    usize,
> {
    if sql.bootstrap {
        None
    } else {
        bootstrap
    }
}

/// The finalize that SQL fragment `sql` is tied to: none where it asks to
/// be the finalize.
pub open spec fn finalize_for(sql: ExtensionSqlEntity, finalize: Option<usize>) -> Option<usize> {
    if sql.finalize {
        None
    } else {
        finalize
    }
}

/// Whether each SQL fragment is between the anchors: behind the bootstrap
/// unless it asks to be the bootstrap, before the finalize unless it asks to
/// be the finalize.
pub open spec fn fragments_between(
    edges: Seq<Edge>,
    bootstrap: Option<usize>,
    finalize: Option<usize>,
    table: Seq<(ExtensionSqlEntity, usize)>,
) -> bool {
    forall|k: int|
        0 <= k < table.len() ==> between(
            edges,
            bootstrap_for((#[trigger] table[k]).0, bootstrap),
            finalize_for(table[k].0, finalize),
            table[k].1,
        )
}

/// The edges that tie a node to the anchors put it between them.
pub proof fn lemma_anchor_edges_between(
    index: usize,
    root: Option<usize>,
    bootstrap: Option<usize>,
    finalize: Option<usize>,
)
    ensures
        between(anchor_edges(index, root, bootstrap, finalize), bootstrap, finalize, index),
{
    let from_root = edge_from(root, index, SqlGraphRelationship::RequiredBy);
    let from_bootstrap = edge_from(bootstrap, index, SqlGraphRelationship::RequiredBy);
    let to_finalize = edge_to(index, finalize, SqlGraphRelationship::RequiredBy);
    let all = anchor_edges(index, root, bootstrap, finalize);
    assert(all == from_root + from_bootstrap + to_finalize);
    if bootstrap is Some {
        assert(all[from_root.len() as int] == from_bootstrap[0]);
    }
    if finalize is Some {
        assert(all[(from_root.len() + from_bootstrap.len()) as int] == to_finalize[0]);
    }
}

/// What is between the anchors among some edges is so among edges that
/// hold them.
pub proof fn lemma_between_within(
    edges: Seq<Edge>,
    part: Seq<Edge>,
    bootstrap: Option<usize>,
    finalize: Option<usize>,
    node: usize,
)
    requires
        holds_all(edges, part),
        between(part, bootstrap, finalize, node),
    ensures
        between(edges, bootstrap, finalize, node),
{
    if bootstrap is Some {
        let e = (bootstrap->0, node, SqlGraphRelationship::RequiredBy);
        let i = choose|i: int| 0 <= i < part.len() && part[i] == e;
        assert(edges.contains(part[i]));
    }
    if finalize is Some {
        let e = (node, finalize->0, SqlGraphRelationship::RequiredBy);
        let i = choose|i: int| 0 <= i < part.len() && part[i] == e;
        assert(edges.contains(part[i]));
    }
}

/// Edges that hold the anchor edges of a table have each of its nodes
/// between the anchors.
pub proof fn lemma_table_between<T>(
    edges: Seq<Edge>,
    table: Seq<(T, usize)>,
    root: Option<usize>,
    bootstrap: Option<usize>,
    finalize: Option<usize>,
)
    requires
        holds_all(edges, all_edges(table_anchor_parts(table, root, bootstrap, finalize))),
    ensures
        all_between(edges, bootstrap, finalize, table),
{
    let parts = table_anchor_parts(table, root, bootstrap, finalize);
    assert forall|k: int| 0 <= k < table.len() implies between(
        edges,
        bootstrap,
        finalize,
        (#[trigger] table[k]).1,
    ) by {
        lemma_concat_edges_holds(parts, parts.len() as int, k);
        lemma_holds_all_within(edges, all_edges(parts), parts[k]);
        lemma_anchor_edges_between(table[k].1, root, bootstrap, finalize);
        lemma_between_within(edges, parts[k], bootstrap, finalize, table[k].1);
    }
}

/// Edges that hold the anchor edges of the SQL fragments have each of them
/// between the anchors.
pub proof fn lemma_fragments_between(
    edges: Seq<Edge>,
    table: Seq<(ExtensionSqlEntity, usize)>,
    root: usize,
    bootstrap: Option<usize>,
    finalize: Option<usize>,
)
    requires
        holds_all(edges, all_edges(sql_anchor_parts(table, root, bootstrap, finalize))),
    ensures
        fragments_between(edges, bootstrap, finalize, table),
{
    let parts = sql_anchor_parts(table, root, bootstrap, finalize);
    assert forall|k: int| 0 <= k < table.len() implies between(
        edges,
        bootstrap_for((#[trigger] table[k]).0, bootstrap),
        finalize_for(table[k].0, finalize),
        table[k].1,
    ) by {
        let first = bootstrap_for(table[k].0, bootstrap);
        let last = finalize_for(table[k].0, finalize);
        lemma_concat_edges_holds(parts, parts.len() as int, k);
        lemma_holds_all_within(edges, all_edges(parts), parts[k]);
        lemma_anchor_edges_between(table[k].1, Some(root), first, last);
        assert(parts[k] == anchor_edges(table[k].1, Some(root), first, last));
        lemma_between_within(edges, parts[k], first, last, table[k].1);
    }
}

/// The edges of the node phase hold the anchor edges of each kind.
pub proof fn lemma_node_phase_holds(
    t: Corpus,
    root: usize,
    bootstrap: Option<usize>,
    finalize: Option<usize>,
    kind: SqlGraphKind,
    at: int,
)
    requires
        0 <= at < 9,
        node_edge_terms(t, root, bootstrap, finalize)[at] == all_edges(
            kind_anchor_parts(t, kind, root, bootstrap, finalize),
        ),
    ensures
        holds_all(
            node_edges(t, root, bootstrap, finalize),
            all_edges(kind_anchor_parts(t, kind, root, bootstrap, finalize)),
        ),
{
    lemma_node_edges_by_kind(t, root, bootstrap, finalize);
    lemma_concat_edges_holds(node_edge_terms(t, root, bootstrap, finalize), 9, at);
}

/// In a graph that was built, every entity is between the anchors: an edge
/// leads from the bootstrap, if there is one, to the node of each entity,
/// and one from the node of each entity to the finalize, if there is one.
/// The fragment that is the bootstrap is not behind itself, and the one that
/// is the finalize not before itself.
pub proof fn law_between_the_anchors(c: Classified)
    requires
        build_outcome(c) is Ok,
    ensures
        fragments_between(
            build_outcome(c)->Ok_0,
            planned_bootstrap(c),
            planned_finalize(c),
            planned(c).extension_sqls,
        ),
        all_between(
            build_outcome(c)->Ok_0,
            planned_bootstrap(c),
            planned_finalize(c),
            planned(c).schemas,
        ),
        all_between(
            build_outcome(c)->Ok_0,
            planned_bootstrap(c),
            planned_finalize(c),
            planned(c).enums,
        ),
        all_between(
            build_outcome(c)->Ok_0,
            planned_bootstrap(c),
            planned_finalize(c),
            planned(c).types,
        ),
        all_between(
            build_outcome(c)->Ok_0,
            planned_bootstrap(c),
            planned_finalize(c),
            planned(c).externs,
        ),
        all_between(
            build_outcome(c)->Ok_0,
            planned_bootstrap(c),
            planned_finalize(c),
            planned(c).ords,
        ),
        all_between(
            build_outcome(c)->Ok_0,
            planned_bootstrap(c),
            planned_finalize(c),
            planned(c).hashes,
        ),
        all_between(
            build_outcome(c)->Ok_0,
            planned_bootstrap(c),
            planned_finalize(c),
            planned(c).aggregates,
        ),
        all_between(
            build_outcome(c)->Ok_0,
            planned_bootstrap(c),
            planned_finalize(c),
            planned(c).triggers,
        ),
{
    let t = planned(c);
    let b = planned_bootstrap(c);
    let f = planned_finalize(c);
    let edges = build_outcome(c)->Ok_0;
    let by_nodes = node_edges(t, 0, b, f);
    lemma_build_holds(c);
    lemma_node_phase_holds(t, 0, b, f, SqlGraphKind::CustomSql, 0);
    lemma_holds_all_within(edges, by_nodes, all_edges(sql_anchor_parts(t.extension_sqls, 0, b, f)));
    lemma_fragments_between(edges, t.extension_sqls, 0, b, f);
    lemma_node_phase_holds(t, 0, b, f, SqlGraphKind::Schema, 1);
    lemma_holds_all_within(edges, by_nodes, all_edges(table_anchor_parts(t.schemas, None, b, f)));
    lemma_table_between(edges, t.schemas, None, b, f);
    lemma_node_phase_holds(t, 0, b, f, SqlGraphKind::Enum, 2);
    lemma_holds_all_within(edges, by_nodes, all_edges(table_anchor_parts(t.enums, Some(0), b, f)));
    lemma_table_between(edges, t.enums, Some(0), b, f);
    lemma_node_phase_holds(t, 0, b, f, SqlGraphKind::Type, 3);
    lemma_holds_all_within(edges, by_nodes, all_edges(table_anchor_parts(t.types, Some(0), b, f)));
    lemma_table_between(edges, t.types, Some(0), b, f);
    lemma_node_phase_holds(t, 0, b, f, SqlGraphKind::Function, 4);
    lemma_holds_all_within(
        edges,
        by_nodes,
        all_edges(table_anchor_parts(t.externs, Some(0), b, f)),
    );
    lemma_table_between(edges, t.externs, Some(0), b, f);
    lemma_node_phase_holds(t, 0, b, f, SqlGraphKind::Ord, 5);
    lemma_holds_all_within(edges, by_nodes, all_edges(table_anchor_parts(t.ords, Some(0), b, f)));
    lemma_table_between(edges, t.ords, Some(0), b, f);
    lemma_node_phase_holds(t, 0, b, f, SqlGraphKind::Hash, 6);
    lemma_holds_all_within(edges, by_nodes, all_edges(table_anchor_parts(t.hashes, Some(0), b, f)));
    lemma_table_between(edges, t.hashes, Some(0), b, f);
    lemma_node_phase_holds(t, 0, b, f, SqlGraphKind::Aggregate, 7);
    lemma_holds_all_within(
        edges,
        by_nodes,
        all_edges(table_anchor_parts(t.aggregates, Some(0), b, f)),
    );
    lemma_table_between(edges, t.aggregates, Some(0), b, f);
    lemma_node_phase_holds(t, 0, b, f, SqlGraphKind::Trigger, 8);
    lemma_holds_all_within(
        edges,
        by_nodes,
        all_edges(table_anchor_parts(t.triggers, Some(0), b, f)),
    );
    lemma_table_between(edges, t.triggers, Some(0), b, f);
}

} // verus!
