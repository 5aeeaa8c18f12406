//! What a build comes to: the tables, the nodes and the edges that a set of
//! entities leads to, or why there is no graph for it.

use crate::aggregates::aggregate_outcomes;
use crate::classes::{hash_parts, ord_parts};
use crate::classify::Classified;
use crate::connect::extern_outcomes;
use crate::error::BuildError;
use crate::outcome::{all_edges, all_outcomes, and_then, fails, Outcome};
use crate::fragments::{enum_parts, root_to_schemas, sql_outcomes, trigger_parts, type_parts};
use crate::graph::{Edge, SqlGraphKind, SqlGraphNode};
use crate::initialize::{
    anchor_outcomes, first_bootstrap, first_finalize, node_after, sql_anchor_parts,
    uses_of_aggregates, uses_of_externs,
};
use crate::nodes::{lemma_table_matches_grows, node_at, numbered, table_anchor_parts, table_matches};
use crate::placeholders::{user_table, users_absorbed};
use crate::tables::Corpus;
use vstd::prelude::*;

verus! {

/// The tables that the entities of the buckets are put in. The root is node
/// 0. The nodes follow kind by kind: SQL fragments, schemas, enumerations,
/// types, functions, ordering operator classes, hashing operator classes,
/// aggregates, triggers. Behind the node of a function or an aggregate come
/// the placeholders that its uses add. Every entity of the buckets has an
/// entry and a node of its own, equal entities too.
pub open spec fn planned(c: Classified) -> Corpus {
    let sqls_at = 1int;
    let schemas_at = sqls_at + c.extension_sqls.len();
    let enums_at = schemas_at + c.schemas.len();
    let types_at = enums_at + c.enums.len();
    let externs_at = types_at + c.types.len();
    let types = numbered(c.types, types_at);
    let enums = numbered(c.enums, enums_at);
    let after_externs = users_absorbed(
        Seq::empty(),
        uses_of_externs(c.externs),
        types,
        enums,
        externs_at,
        c.externs.len() as int,
    );
    let ords_at = externs_at + c.externs.len() + after_externs.len();
    let hashes_at = ords_at + c.ords.len();
    let aggregates_at = hashes_at + c.hashes.len();
    let others = aggregates_at - after_externs.len();
    let after_aggregates = users_absorbed(
        after_externs,
        uses_of_aggregates(c.aggregates),
        types,
        enums,
        others,
        c.aggregates.len() as int,
    );
    let triggers_at = others + c.aggregates.len() + after_aggregates.len();
    Corpus {
        schemas: numbered(c.schemas, schemas_at),
        extension_sqls: numbered(c.extension_sqls, sqls_at),
        externs: user_table(
            c.externs,
            Seq::empty(),
            uses_of_externs(c.externs),
            types,
            enums,
            externs_at,
        ),
        types,
        builtin_types: after_aggregates,
        enums,
        ords: numbered(c.ords, ords_at),
        hashes: numbered(c.hashes, hashes_at),
        aggregates: user_table(
            c.aggregates,
            after_externs,
            uses_of_aggregates(c.aggregates),
            types,
            enums,
            others,
        ),
        triggers: numbered(c.triggers, triggers_at),
    }
}

/// The node of the bootstrap: that of the first SQL fragment that asks to
/// be it.
pub open spec fn planned_bootstrap(c: Classified) -> Option<usize> {
    node_after(1, first_bootstrap(c.extension_sqls, c.extension_sqls.len() as int))
}

/// The node of the finalize: that of the first SQL fragment that asks to be
/// it.
pub open spec fn planned_finalize(c: Classified) -> Option<usize> {
    node_after(1, first_finalize(c.extension_sqls, c.extension_sqls.len() as int))
}

/// The number of nodes that stand for the entries of the tables and the
/// root.
pub open spec fn node_count(t: Corpus) -> nat {
    1 + t.extension_sqls.len() + t.schemas.len() + t.enums.len() + t.types.len()
        + t.externs.len() + t.ords.len() + t.hashes.len() + t.aggregates.len()
        + t.triggers.len() + t.builtin_types.len()
}

/// The anchor edges of the nodes of one kind. A schema is not tied to the
/// root here; the root and the placeholders are tied to nothing.
pub open spec fn kind_anchor_parts(
    t: Corpus,
    kind: SqlGraphKind,
    root: usize,
    bootstrap: Option<usize>,
    finalize: Option<usize>,
) -> Seq<Seq<Edge>> {
    match kind {
        SqlGraphKind::ExtensionRoot => Seq::empty(),
        SqlGraphKind::Schema => table_anchor_parts(t.schemas, None, bootstrap, finalize),
        SqlGraphKind::CustomSql => sql_anchor_parts(t.extension_sqls, root, bootstrap, finalize),
        SqlGraphKind::Function => table_anchor_parts(t.externs, Some(root), bootstrap, finalize),
        SqlGraphKind::Type => table_anchor_parts(t.types, Some(root), bootstrap, finalize),
        SqlGraphKind::BuiltinType => Seq::empty(),
        SqlGraphKind::Enum => table_anchor_parts(t.enums, Some(root), bootstrap, finalize),
        SqlGraphKind::Ord => table_anchor_parts(t.ords, Some(root), bootstrap, finalize),
        SqlGraphKind::Hash => table_anchor_parts(t.hashes, Some(root), bootstrap, finalize),
        SqlGraphKind::Aggregate => table_anchor_parts(
            t.aggregates,
            Some(root),
            bootstrap,
            finalize,
        ),
        SqlGraphKind::Trigger => table_anchor_parts(t.triggers, Some(root), bootstrap, finalize),
    }
}

/// The edges of the node phase: those that tie the nodes to the anchors,
/// kind by kind.
pub open spec fn node_edges(
    t: Corpus,
    root: usize,
    bootstrap: Option<usize>,
    finalize: Option<usize>,
) -> Seq<Edge> {
    all_edges(kind_anchor_parts(t, SqlGraphKind::CustomSql, root, bootstrap, finalize))
        + all_edges(kind_anchor_parts(t, SqlGraphKind::Schema, root, bootstrap, finalize))
        + all_edges(kind_anchor_parts(t, SqlGraphKind::Enum, root, bootstrap, finalize))
        + all_edges(kind_anchor_parts(t, SqlGraphKind::Type, root, bootstrap, finalize))
        + all_edges(kind_anchor_parts(t, SqlGraphKind::Function, root, bootstrap, finalize))
        + all_edges(kind_anchor_parts(t, SqlGraphKind::Ord, root, bootstrap, finalize))
        + all_edges(kind_anchor_parts(t, SqlGraphKind::Hash, root, bootstrap, finalize))
        + all_edges(kind_anchor_parts(t, SqlGraphKind::Aggregate, root, bootstrap, finalize))
        + all_edges(kind_anchor_parts(t, SqlGraphKind::Trigger, root, bootstrap, finalize))
}

/// What the edge phase leads to: schemas, SQL fragments, enumerations,
/// types, functions, ordering operator classes, hashing operator classes,
/// aggregates and triggers are connected in this order, up to the first
/// failure.
pub open spec fn connect_outcome(t: Corpus, root: usize) -> Outcome {
    and_then(
        and_then(
            and_then(
                and_then(
                    and_then(
                        and_then(
                            and_then(
                                and_then(
                                    Ok(root_to_schemas(t.schemas, root)),
                                    all_outcomes(sql_outcomes(t)),
                                ),
                                Ok(all_edges(enum_parts(t.enums, t.schemas))),
                            ),
                            Ok(all_edges(type_parts(t.types, t.schemas))),
                        ),
                        all_outcomes(extern_outcomes(t)),
                    ),
                    Ok(all_edges(ord_parts(t))),
                ),
                Ok(all_edges(hash_parts(t))),
            ),
            all_outcomes(aggregate_outcomes(t)),
        ),
        Ok(all_edges(trigger_parts(t.triggers, t.schemas))),
    )
}

/// What a build of the entities in the buckets leads to: the edges of the
/// graph, or why there is none. It fails where there is no control entity;
/// else where two SQL fragments ask for the same anchor; else where the
/// edge phase fails.
pub open spec fn build_outcome(c: Classified) -> Outcome {
    if c.control is None {
        fails(BuildError::MissingControlFile)
    } else {
        and_then(
            and_then(
                all_outcomes(anchor_outcomes(c.extension_sqls)),
                Ok(node_edges(planned(c), 0, planned_bootstrap(c), planned_finalize(c))),
            ),
            connect_outcome(planned(c), 0),
        )
    }
}

/// The table of `kind` matches the nodes.
pub open spec fn kind_matches(nodes: Seq<SqlGraphNode>, t: Corpus, kind: SqlGraphKind) -> bool {
    match kind {
        SqlGraphKind::ExtensionRoot => forall|i: int|
            0 <= i < nodes.len() && (#[trigger] nodes[i]).kind == SqlGraphKind::ExtensionRoot
                ==> i == 0 && nodes[i].position == 0,
        SqlGraphKind::Schema => table_matches(nodes, t.schemas, kind),
        SqlGraphKind::CustomSql => table_matches(nodes, t.extension_sqls, kind),
        SqlGraphKind::Function => table_matches(nodes, t.externs, kind),
        SqlGraphKind::Type => table_matches(nodes, t.types, kind),
        SqlGraphKind::BuiltinType => table_matches(nodes, t.builtin_types, kind),
        SqlGraphKind::Enum => table_matches(nodes, t.enums, kind),
        SqlGraphKind::Ord => table_matches(nodes, t.ords, kind),
        SqlGraphKind::Hash => table_matches(nodes, t.hashes, kind),
        SqlGraphKind::Aggregate => table_matches(nodes, t.aggregates, kind),
        SqlGraphKind::Trigger => table_matches(nodes, t.triggers, kind),
    }
}

/// The nodes are the root, at index 0, and one node for each entry of each
/// table: the node of the entry stands for it, and every node stands for
/// the root or for one entry, of which it is the node.
pub open spec fn nodes_match(nodes: Seq<SqlGraphNode>, t: Corpus) -> bool {
    &&& nodes.len() > 0
    &&& nodes[0] == node_at(SqlGraphKind::ExtensionRoot, 0)
    &&& forall|kind: SqlGraphKind| #[trigger] kind_matches(nodes, t, kind)
}

/// Whether two sets of tables differ at most in the table of `kind` and in
/// that of the placeholders.
pub open spec fn same_but(before: Corpus, after: Corpus, kind: SqlGraphKind) -> bool {
    &&& kind == SqlGraphKind::Schema || after.schemas == before.schemas
    &&& kind == SqlGraphKind::CustomSql || after.extension_sqls == before.extension_sqls
    &&& kind == SqlGraphKind::Function || after.externs == before.externs
    &&& kind == SqlGraphKind::Type || after.types == before.types
    &&& kind == SqlGraphKind::Enum || after.enums == before.enums
    &&& kind == SqlGraphKind::Ord || after.ords == before.ords
    &&& kind == SqlGraphKind::Hash || after.hashes == before.hashes
    &&& kind == SqlGraphKind::Aggregate || after.aggregates == before.aggregates
    &&& kind == SqlGraphKind::Trigger || after.triggers == before.triggers
}

/// Tables that match the nodes still do after a pass that adds nodes of one
/// kind and placeholders and leaves the tables of the other kinds as they
/// are, if the table of that kind and that of the placeholders match.
pub proof fn lemma_nodes_match_step(
    nodes: Seq<SqlGraphNode>,
    more: Seq<SqlGraphNode>,
    before: Corpus,
    after: Corpus,
    kind: SqlGraphKind,
)
    requires
        nodes_match(nodes, before),
        kind != SqlGraphKind::ExtensionRoot,
        kind != SqlGraphKind::BuiltinType,
        forall|j: int|
            0 <= j < more.len() ==> (#[trigger] more[j]).kind == kind || more[j].kind
                == SqlGraphKind::BuiltinType,
        same_but(before, after, kind),
        kind_matches(nodes + more, after, kind),
        kind_matches(nodes + more, after, SqlGraphKind::BuiltinType) || (after.builtin_types
            == before.builtin_types && forall|j: int|
            0 <= j < more.len() ==> (#[trigger] more[j]).kind != SqlGraphKind::BuiltinType),
    ensures
        nodes_match(nodes + more, after),
{
    let all = nodes + more;
    if !kind_matches(all, after, SqlGraphKind::BuiltinType) {
        assert(kind_matches(nodes, before, SqlGraphKind::BuiltinType));
        lemma_table_matches_grows(nodes, more, before.builtin_types, SqlGraphKind::BuiltinType);
    }
    assert forall|other: SqlGraphKind| #[trigger] kind_matches(all, after, other) by {
        assert(kind_matches(nodes, before, other));
        if other != kind && other != SqlGraphKind::BuiltinType {
            match other {
                SqlGraphKind::ExtensionRoot => {},
                SqlGraphKind::Schema => lemma_table_matches_grows(
                    nodes,
                    more,
                    before.schemas,
                    other,
                ),
                SqlGraphKind::CustomSql => lemma_table_matches_grows(
                    nodes,
                    more,
                    before.extension_sqls,
                    other,
                ),
                SqlGraphKind::Function => lemma_table_matches_grows(
                    nodes,
                    more,
                    before.externs,
                    other,
                ),
                SqlGraphKind::Type => lemma_table_matches_grows(nodes, more, before.types, other),
                SqlGraphKind::BuiltinType => {},
                SqlGraphKind::Enum => lemma_table_matches_grows(nodes, more, before.enums, other),
                SqlGraphKind::Ord => lemma_table_matches_grows(nodes, more, before.ords, other),
                SqlGraphKind::Hash => lemma_table_matches_grows(nodes, more, before.hashes, other),
                SqlGraphKind::Aggregate => lemma_table_matches_grows(
                    nodes,
                    more,
                    before.aggregates,
                    other,
                ),
                SqlGraphKind::Trigger => lemma_table_matches_grows(
                    nodes,
                    more,
                    before.triggers,
                    other,
                ),
            }
        }
    }
}

/// Tables that match the nodes are in bounds.
pub proof fn lemma_nodes_match_in_bounds(nodes: Seq<SqlGraphNode>, t: Corpus)
    requires
        nodes_match(nodes, t),
    ensures
        t.all_in_bounds(nodes.len()),
{
    assert(kind_matches(nodes, t, SqlGraphKind::Schema));
    assert(kind_matches(nodes, t, SqlGraphKind::CustomSql));
    assert(kind_matches(nodes, t, SqlGraphKind::Function));
    assert(kind_matches(nodes, t, SqlGraphKind::Type));
    assert(kind_matches(nodes, t, SqlGraphKind::BuiltinType));
    assert(kind_matches(nodes, t, SqlGraphKind::Enum));
    assert(kind_matches(nodes, t, SqlGraphKind::Ord));
    assert(kind_matches(nodes, t, SqlGraphKind::Hash));
    assert(kind_matches(nodes, t, SqlGraphKind::Aggregate));
    assert(kind_matches(nodes, t, SqlGraphKind::Trigger));
}

} // verus!
