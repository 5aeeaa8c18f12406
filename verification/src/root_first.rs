//! Nothing comes before the root: no edge of a build leads to it.

use crate::aggregates::{
    aggregate_edges, aggregate_outcome, aggregate_outcomes, aggregate_use_parts, support_outcomes,
};
use crate::classes::{hash_edges, hash_parts, ord_edges, ord_parts};
use crate::classify::Classified;
use crate::connect::{
    attr_outcome, attr_outcomes, extern_outcome, extern_outcomes, extern_rest, require_outcomes,
    uses_parts,
};
use crate::drawn::{lemma_build_holds, lemma_connect_phase_holds};
use crate::entity::{ExternArgs, PositioningRef};
use crate::fragments::{
    enum_parts, root_to_schemas, sql_outcome, sql_outcomes, trigger_parts, type_parts,
};
use crate::graph::{Edge, SqlGraphKind, SqlGraphNode};
use crate::initialize::{anchor_outcomes, first_finalize};
use crate::laws::{lemma_first_finalize, lemma_node_edges_by_kind, node_edge_terms};
use crate::entity::ExtensionSqlEntity;
use crate::initialize::sql_anchor_parts;
use crate::nodes::{anchor_edges, table_anchor_parts, table_matches};
use crate::order::{has_edge, is_walk, on_cycle};
use crate::outcome::{
    all_edges, all_outcomes, and_then, concat_edges, fold_outcomes, lemma_and_then_holds, Outcome,
};
use crate::plan::{
    build_outcome, connect_outcome, kind_matches, node_edges, nodes_match, planned,
    planned_bootstrap, planned_finalize,
};
use crate::tables::{matching, Corpus};
use crate::uses::{aggregate_uses, extern_uses};
use vstd::prelude::*;

verus! {

/// Whether no entry of the table has the node `root`.
pub open spec fn table_apart<T>(table: Seq<(T, usize)>, root: usize) -> bool {
    forall|k: int| 0 <= k < table.len() ==> (#[trigger] table[k]).1 != root
}

/// Whether no entity has the node `root`.
pub open spec fn apart_from(t: Corpus, root: usize) -> bool {
    &&& table_apart(t.schemas, root)
    &&& table_apart(t.extension_sqls, root)
    &&& table_apart(t.externs, root)
    &&& table_apart(t.types, root)
    &&& table_apart(t.enums, root)
    &&& table_apart(t.ords, root)
    &&& table_apart(t.hashes, root)
    &&& table_apart(t.aggregates, root)
    &&& table_apart(t.triggers, root)
}

/// Whether none of the edges leads to `root`.
pub open spec fn none_enters(edges: Seq<Edge>, root: usize) -> bool {
    forall|j: int| 0 <= j < edges.len() ==> (#[trigger] edges[j]).1 != root
}

/// The node of an entity is not that of the root.
pub proof fn lemma_table_apart<T>(
    nodes: Seq<SqlGraphNode>,
    table: Seq<(T, usize)>,
    kind: SqlGraphKind,
)
    requires
        nodes.len() > 0,
        nodes[0].kind == SqlGraphKind::ExtensionRoot,
        kind != SqlGraphKind::ExtensionRoot,
        table_matches(nodes, table, kind),
    ensures
        table_apart(table, 0),
{
    assert forall|k: int| 0 <= k < table.len() implies (#[trigger] table[k]).1 != 0 by {
        assert(nodes[table[k].1 as int].kind == kind);
    }
}

/// Where the nodes are those of the tables, no entity has the node of the
/// root.
pub proof fn lemma_nodes_match_apart(nodes: Seq<SqlGraphNode>, t: Corpus)
    requires
        nodes_match(nodes, t),
    ensures
        apart_from(t, 0),
{
    assert(kind_matches(nodes, t, SqlGraphKind::Schema));
    lemma_table_apart(nodes, t.schemas, SqlGraphKind::Schema);
    assert(kind_matches(nodes, t, SqlGraphKind::CustomSql));
    lemma_table_apart(nodes, t.extension_sqls, SqlGraphKind::CustomSql);
    assert(kind_matches(nodes, t, SqlGraphKind::Function));
    lemma_table_apart(nodes, t.externs, SqlGraphKind::Function);
    assert(kind_matches(nodes, t, SqlGraphKind::Type));
    lemma_table_apart(nodes, t.types, SqlGraphKind::Type);
    assert(kind_matches(nodes, t, SqlGraphKind::Enum));
    lemma_table_apart(nodes, t.enums, SqlGraphKind::Enum);
    assert(kind_matches(nodes, t, SqlGraphKind::Ord));
    lemma_table_apart(nodes, t.ords, SqlGraphKind::Ord);
    assert(kind_matches(nodes, t, SqlGraphKind::Hash));
    lemma_table_apart(nodes, t.hashes, SqlGraphKind::Hash);
    assert(kind_matches(nodes, t, SqlGraphKind::Aggregate));
    lemma_table_apart(nodes, t.aggregates, SqlGraphKind::Aggregate);
    assert(kind_matches(nodes, t, SqlGraphKind::Trigger));
    lemma_table_apart(nodes, t.triggers, SqlGraphKind::Trigger);
}

/// Parts none of which has an edge to `root` make edges none of which leads
/// there.
pub proof fn lemma_concat_none_enters(parts: Seq<Seq<Edge>>, n: int, root: usize)
    requires
        0 <= n <= parts.len(),
        forall|k: int| 0 <= k < n ==> none_enters(#[trigger] parts[k], root),
    ensures
        none_enters(concat_edges(parts, n), root),
    decreases n,
{
    if n > 0 {
        lemma_concat_none_enters(parts, n - 1, root);
        assert(none_enters(parts[n - 1], root));
    }
}

/// Two steps neither of which draws an edge to `root` draw none together.
pub proof fn lemma_and_then_none_enters(first: Outcome, second: Outcome, root: usize)
    requires
        first matches Ok(drawn) ==> none_enters(drawn, root),
        second matches Ok(drawn) ==> none_enters(drawn, root),
    ensures
        and_then(first, second) matches Ok(drawn) ==> none_enters(drawn, root),
{
    if and_then(first, second) is Ok {
        lemma_and_then_holds(first, second);
    }
}

/// Steps none of which draws an edge to `root` draw none together.
pub proof fn lemma_fold_none_enters(steps: Seq<Outcome>, n: int, root: usize)
    requires
        0 <= n <= steps.len(),
        fold_outcomes(steps, n) is Ok,
        forall|k: int|
            0 <= k < n ==> (#[trigger] steps[k] matches Ok(drawn) ==> none_enters(drawn, root)),
    ensures
        none_enters(fold_outcomes(steps, n)->Ok_0, root),
    decreases n,
{
    if n > 0 {
        lemma_and_then_holds(fold_outcomes(steps, n - 1), steps[n - 1]);
        lemma_fold_none_enters(steps, n - 1, root);
        assert(steps[n - 1] matches Ok(drawn) ==> none_enters(drawn, root));
    }
}

/// The nodes of the entries that match are nodes of the table.
pub proof fn lemma_matching_apart<T>(
    table: Seq<(T, usize)>,
    p: spec_fn(T) -> bool,
    m: int,
    root: usize,
)
    requires
        table_apart(table, root),
        0 <= m <= table.len(),
    ensures
        forall|i: int|
            0 <= i < matching(table, p, m).len() ==> #[trigger] matching(table, p, m)[i] != root,
    decreases m,
{
    if m > 0 {
        lemma_matching_apart(table, p, m - 1, root);
        let before = matching(table, p, m - 1);
        assert(table[m - 1].1 != root);
        assert forall|i: int| 0 <= i < matching(table, p, m).len() implies #[trigger] matching(
            table,
            p,
            m,
        )[i] != root by {
            if i < before.len() {
                assert(before[i] != root);
            }
        }
    }
}

/// Following the required references of a node that is not `root` draws no
/// edge to `root`.
pub proof fn lemma_requires_none_enters(
    refs: Seq<PositioningRef>,
    owner: String,
    file: String,
    line: u32,
    index: usize,
    t: Corpus,
    root: usize,
)
    requires
        index != root,
        all_outcomes(require_outcomes(refs, owner, file, line, index, t)) is Ok,
    ensures
        none_enters(
            all_outcomes(require_outcomes(refs, owner, file, line, index, t))->Ok_0,
            root,
        ),
{
    let steps = require_outcomes(refs, owner, file, line, index, t);
    lemma_fold_none_enters(steps, refs.len() as int, root);
}

/// Connecting a function draws no edge to `root`.
pub proof fn lemma_function_none_enters(t: Corpus, k: int, root: usize)
    requires
        apart_from(t, root),
        0 <= k < t.externs.len(),
        extern_outcomes(t)[k] is Ok,
    ensures
        none_enters(extern_outcomes(t)[k]->Ok_0, root),
{
    let f = t.externs[k].0;
    let index = t.externs[k].1;
    assert(extern_outcomes(t)[k] == extern_outcome(f, index, t));
    let attrs = attr_outcomes(f, index, t);
    lemma_and_then_holds(all_outcomes(attrs), Ok(extern_rest(f, index, t)));
    assert forall|j: int| 0 <= j < attrs.len() implies (#[trigger] attrs[j] matches Ok(
        drawn,
    ) ==> none_enters(drawn, root)) by {
        assert(attrs[j] == attr_outcome(f, j, index, t));
        match f.extern_attrs@[j] {
            ExternArgs::Requires(refs) => {
                if attrs[j] is Ok {
                    lemma_requires_none_enters(
                        refs@,
                        f.full_path,
                        f.file,
                        f.line,
                        index,
                        t,
                        root,
                    );
                }
            },
            _ => {},
        }
    }
    lemma_fold_none_enters(attrs, attrs.len() as int, root);
    let uses = uses_parts(extern_uses(f), index, t);
    lemma_concat_none_enters(uses, uses.len() as int, root);
    lemma_matching_apart(
        t.hashes,
        crate::find::hash_with_equality(f.module@, f.name@),
        t.hashes.len() as int,
        root,
    );
}

/// Connecting an SQL fragment draws no edge to `root`.
pub proof fn lemma_fragment_none_enters(t: Corpus, k: int, root: usize)
    requires
        apart_from(t, root),
        0 <= k < t.extension_sqls.len(),
        sql_outcomes(t)[k] is Ok,
    ensures
        none_enters(sql_outcomes(t)[k]->Ok_0, root),
{
    let sql = t.extension_sqls[k].0;
    let index = t.extension_sqls[k].1;
    assert(sql_outcomes(t)[k] == sql_outcome(sql, index, t));
    lemma_requires_none_enters(sql.requires@, sql.full_path, sql.file, sql.line, index, t, root);
}

/// Connecting an aggregate draws no edge to `root`.
pub proof fn lemma_aggregate_none_enters(t: Corpus, k: int, root: usize)
    requires
        apart_from(t, root),
        0 <= k < t.aggregates.len(),
        aggregate_outcomes(t)[k] is Ok,
    ensures
        none_enters(aggregate_outcomes(t)[k]->Ok_0, root),
{
    let a = t.aggregates[k].0;
    let index = t.aggregates[k].1;
    assert(aggregate_outcomes(t)[k] == aggregate_outcome(a, index, t));
    let supports = support_outcomes(a, index, t);
    lemma_and_then_holds(Ok(aggregate_edges(a, index, t)), all_outcomes(supports));
    lemma_fold_none_enters(supports, supports.len() as int, root);
    let uses = aggregate_use_parts(aggregate_uses(a), index, t);
    lemma_concat_none_enters(uses, uses.len() as int, root);
}

/// The passes of the edge phase that can fail draw no edge to `root`.
pub proof fn lemma_followed_none_enter(t: Corpus, root: usize)
    requires
        apart_from(t, root),
        all_outcomes(sql_outcomes(t)) is Ok,
        all_outcomes(extern_outcomes(t)) is Ok,
        all_outcomes(aggregate_outcomes(t)) is Ok,
    ensures
        none_enters(all_outcomes(sql_outcomes(t))->Ok_0, root),
        none_enters(all_outcomes(extern_outcomes(t))->Ok_0, root),
        none_enters(all_outcomes(aggregate_outcomes(t))->Ok_0, root),
{
    let sqls = sql_outcomes(t);
    let externs = extern_outcomes(t);
    let aggregates = aggregate_outcomes(t);
    assert forall|k: int| 0 <= k < sqls.len() implies (#[trigger] sqls[k] matches Ok(
        drawn,
    ) ==> none_enters(drawn, root)) by {
        if sqls[k] is Ok {
            lemma_fragment_none_enters(t, k, root);
        }
    }
    lemma_fold_none_enters(sqls, sqls.len() as int, root);
    assert forall|k: int| 0 <= k < externs.len() implies (#[trigger] externs[k] matches Ok(
        drawn,
    ) ==> none_enters(drawn, root)) by {
        if externs[k] is Ok {
            lemma_function_none_enters(t, k, root);
        }
    }
    lemma_fold_none_enters(externs, externs.len() as int, root);
    assert forall|k: int| 0 <= k < aggregates.len() implies (#[trigger] aggregates[k] matches Ok(
        drawn,
    ) ==> none_enters(drawn, root)) by {
        if aggregates[k] is Ok {
            lemma_aggregate_none_enters(t, k, root);
        }
    }
    lemma_fold_none_enters(aggregates, aggregates.len() as int, root);
}

/// Putting enumerations, types and triggers behind their schemas draws no
/// edge to `root`.
pub proof fn lemma_schema_passes_none_enter(t: Corpus, root: usize)
    requires
        apart_from(t, root),
    ensures
        none_enters(root_to_schemas(t.schemas, root), root),
        none_enters(all_edges(enum_parts(t.enums, t.schemas)), root),
        none_enters(all_edges(type_parts(t.types, t.schemas)), root),
        none_enters(all_edges(trigger_parts(t.triggers, t.schemas)), root),
{
    let enums = enum_parts(t.enums, t.schemas);
    assert forall|k: int| 0 <= k < enums.len() implies none_enters(#[trigger] enums[k], root) by {
        assert(t.enums[k].1 != root);
    }
    lemma_concat_none_enters(enums, enums.len() as int, root);
    let types = type_parts(t.types, t.schemas);
    assert forall|k: int| 0 <= k < types.len() implies none_enters(#[trigger] types[k], root) by {
        assert(t.types[k].1 != root);
    }
    lemma_concat_none_enters(types, types.len() as int, root);
    let triggers = trigger_parts(t.triggers, t.schemas);
    assert forall|k: int| 0 <= k < triggers.len() implies none_enters(
        #[trigger] triggers[k],
        root,
    ) by {
        assert(t.triggers[k].1 != root);
    }
    lemma_concat_none_enters(triggers, triggers.len() as int, root);
    let schemas = root_to_schemas(t.schemas, root);
    assert forall|j: int| 0 <= j < schemas.len() implies (#[trigger] schemas[j]).1 != root by {
        assert(t.schemas[j].1 != root);
    }
}

/// Connecting the operator classes draws no edge to `root`.
pub proof fn lemma_classes_none_enter(t: Corpus, root: usize)
    requires
        apart_from(t, root),
    ensures
        none_enters(all_edges(ord_parts(t)), root),
        none_enters(all_edges(hash_parts(t)), root),
{
    let ords = ord_parts(t);
    assert forall|k: int| 0 <= k < ords.len() implies none_enters(#[trigger] ords[k], root) by {
        assert(ords[k] == ord_edges(t.ords[k].0, t.ords[k].1, t));
        assert(t.ords[k].1 != root);
    }
    lemma_concat_none_enters(ords, ords.len() as int, root);
    let hashes = hash_parts(t);
    assert forall|k: int| 0 <= k < hashes.len() implies none_enters(#[trigger] hashes[k], root) by {
        assert(hashes[k] == hash_edges(t.hashes[k].0, t.hashes[k].1, t));
        assert(t.hashes[k].1 != root);
    }
    lemma_concat_none_enters(hashes, hashes.len() as int, root);
}

/// The edge phase draws no edge to the root, if no entity has its node.
pub proof fn lemma_connect_none_enters(t: Corpus, root: usize)
    requires
        apart_from(t, root),
        connect_outcome(t, root) is Ok,
    ensures
        none_enters(connect_outcome(t, root)->Ok_0, root),
{
    lemma_connect_phase_holds(t, root);
    lemma_followed_none_enter(t, root);
    lemma_schema_passes_none_enter(t, root);
    lemma_classes_none_enter(t, root);
    let schemas: Outcome = Ok(root_to_schemas(t.schemas, root));
    let sqls = all_outcomes(sql_outcomes(t));
    let enums: Outcome = Ok(all_edges(enum_parts(t.enums, t.schemas)));
    let types: Outcome = Ok(all_edges(type_parts(t.types, t.schemas)));
    let externs = all_outcomes(extern_outcomes(t));
    let ords: Outcome = Ok(all_edges(ord_parts(t)));
    let hashes: Outcome = Ok(all_edges(hash_parts(t)));
    let aggregates = all_outcomes(aggregate_outcomes(t));
    let triggers: Outcome = Ok(all_edges(trigger_parts(t.triggers, t.schemas)));
    let upto_sqls = and_then(schemas, sqls);
    lemma_and_then_none_enters(schemas, sqls, root);
    let upto_enums = and_then(upto_sqls, enums);
    lemma_and_then_none_enters(upto_sqls, enums, root);
    let upto_types = and_then(upto_enums, types);
    lemma_and_then_none_enters(upto_enums, types, root);
    let upto_externs = and_then(upto_types, externs);
    lemma_and_then_none_enters(upto_types, externs, root);
    let upto_ords = and_then(upto_externs, ords);
    lemma_and_then_none_enters(upto_externs, ords, root);
    let upto_hashes = and_then(upto_ords, hashes);
    lemma_and_then_none_enters(upto_ords, hashes, root);
    let upto_aggregates = and_then(upto_hashes, aggregates);
    lemma_and_then_none_enters(upto_hashes, aggregates, root);
    let all = and_then(upto_aggregates, triggers);
    lemma_and_then_none_enters(upto_aggregates, triggers, root);
    assert(all == connect_outcome(t, root));
}

/// Tying a node other than `root` to the anchors draws no edge to `root`,
/// if the finalize is another node too.
pub proof fn lemma_anchor_edges_none_enter(
    index: usize,
    from: Option<usize>,
    bootstrap: Option<usize>,
    finalize: Option<usize>,
    root: usize,
)
    requires
        index != root,
        finalize != Some(root),
    ensures
        none_enters(anchor_edges(index, from, bootstrap, finalize), root),
{
}

/// Tying the nodes of a table to the anchors draws no edge to `root`.
pub proof fn lemma_table_anchors_none_enter<T>(
    table: Seq<(T, usize)>,
    from: Option<usize>,
    bootstrap: Option<usize>,
    finalize: Option<usize>,
    root: usize,
)
    requires
        table_apart(table, root),
        finalize != Some(root),
    ensures
        none_enters(all_edges(table_anchor_parts(table, from, bootstrap, finalize)), root),
{
    let parts = table_anchor_parts(table, from, bootstrap, finalize);
    assert forall|k: int| 0 <= k < parts.len() implies none_enters(#[trigger] parts[k], root) by {
        assert(table[k].1 != root);
        lemma_anchor_edges_none_enter(table[k].1, from, bootstrap, finalize, root);
    }
    lemma_concat_none_enters(parts, parts.len() as int, root);
}

/// Tying the SQL fragments to the anchors draws no edge to `root`.
pub proof fn lemma_sql_anchors_none_enter(
    table: Seq<(ExtensionSqlEntity, usize)>,
    from: usize,
    bootstrap: Option<usize>,
    finalize: Option<usize>,
    root: usize,
)
    requires
        table_apart(table, root),
        finalize != Some(root),
    ensures
        none_enters(all_edges(sql_anchor_parts(table, from, bootstrap, finalize)), root),
{
    let parts = sql_anchor_parts(table, from, bootstrap, finalize);
    assert forall|k: int| 0 <= k < parts.len() implies none_enters(#[trigger] parts[k], root) by {
        let sql = table[k].0;
        assert(table[k].1 != root);
        lemma_anchor_edges_none_enter(
            table[k].1,
            Some(from),
            if sql.bootstrap {
                None
            } else {
                bootstrap
            },
            if sql.finalize {
                None
            } else {
                finalize
            },
            root,
        );
    }
    lemma_concat_none_enters(parts, parts.len() as int, root);
}

/// The node phase draws no edge to the root, if no entity has its node and
/// the finalize is not the root.
pub proof fn lemma_node_phase_none_enters(
    t: Corpus,
    root: usize,
    bootstrap: Option<usize>,
    finalize: Option<usize>,
)
    requires
        apart_from(t, root),
        finalize != Some(root),
    ensures
        none_enters(node_edges(t, root, bootstrap, finalize), root),
{
    let terms = node_edge_terms(t, root, bootstrap, finalize);
    lemma_node_edges_by_kind(t, root, bootstrap, finalize);
    lemma_sql_anchors_none_enter(t.extension_sqls, root, bootstrap, finalize, root);
    assert(none_enters(terms[0], root));
    lemma_table_anchors_none_enter(t.schemas, None, bootstrap, finalize, root);
    assert(none_enters(terms[1], root));
    lemma_table_anchors_none_enter(t.enums, Some(root), bootstrap, finalize, root);
    assert(none_enters(terms[2], root));
    lemma_table_anchors_none_enter(t.types, Some(root), bootstrap, finalize, root);
    assert(none_enters(terms[3], root));
    lemma_table_anchors_none_enter(t.externs, Some(root), bootstrap, finalize, root);
    assert(none_enters(terms[4], root));
    lemma_table_anchors_none_enter(t.ords, Some(root), bootstrap, finalize, root);
    assert(none_enters(terms[5], root));
    lemma_table_anchors_none_enter(t.hashes, Some(root), bootstrap, finalize, root);
    assert(none_enters(terms[6], root));
    lemma_table_anchors_none_enter(t.aggregates, Some(root), bootstrap, finalize, root);
    assert(none_enters(terms[7], root));
    lemma_table_anchors_none_enter(t.triggers, Some(root), bootstrap, finalize, root);
    assert(none_enters(terms[8], root));
    assert forall|k: int| 0 <= k < 9 implies none_enters(#[trigger] terms[k], root) by {
        if k == 0 {
        } else if k == 1 {
        } else if k == 2 {
        } else if k == 3 {
        } else if k == 4 {
        } else if k == 5 {
        } else if k == 6 {
        } else if k == 7 {
        } else {
        }
    }
    lemma_concat_none_enters(terms, 9, root);
}

/// A node to which no edge leads lies on no cycle.
pub proof fn lemma_source_is_on_no_cycle(edges: Seq<Edge>, root: usize)
    requires
        none_enters(edges, root),
    ensures
        !on_cycle(edges, root as int),
{
    if on_cycle(edges, root as int) {
        let walk = choose|walk: Seq<int>|
            is_walk(edges, walk) && walk[0] == root as int && walk.last() == root as int;
        let last = walk.len() - 2;
        assert(has_edge(edges, walk[last], walk[last + 1]));
        let k = choose|k: int|
            0 <= k < edges.len() && (#[trigger] edges[k]).0 == walk[last] && edges[k].1
                == walk[last + 1];
        assert(edges[k].1 != root);
    }
}

/// In a graph that was built, nothing comes before the root: no edge leads
/// to it, and it lies on no cycle. This holds of every build whose nodes
/// can be numbered, as those of every graph that was built are.
pub proof fn law_nothing_before_root(c: Classified, nodes: Seq<SqlGraphNode>)
    requires
        build_outcome(c) is Ok,
        nodes_match(nodes, planned(c)),
    ensures
        none_enters(build_outcome(c)->Ok_0, 0),
        !on_cycle(build_outcome(c)->Ok_0, 0),
{
    let t = planned(c);
    lemma_nodes_match_apart(nodes, t);
    lemma_build_holds(c);
    let sqls = c.extension_sqls;
    lemma_first_finalize(sqls, sqls.len() as int);
    if planned_finalize(c) is Some {
        let i = first_finalize(sqls, sqls.len() as int)->0;
        assert(planned_finalize(c) == Some(t.extension_sqls[i].1));
    }
    lemma_node_phase_none_enters(t, 0, planned_bootstrap(c), planned_finalize(c));
    lemma_connect_none_enters(t, 0);
    let anchors = all_outcomes(anchor_outcomes(sqls));
    crate::outcome::lemma_fold_outcomes(anchor_outcomes(sqls), sqls.len() as int);
    lemma_fold_none_enters(anchor_outcomes(sqls), sqls.len() as int, 0);
    let by_nodes = node_edges(t, 0, planned_bootstrap(c), planned_finalize(c));
    let by_connect = connect_outcome(t, 0)->Ok_0;
    assert(build_outcome(c)->Ok_0 == (anchors->Ok_0 + by_nodes) + by_connect);
    lemma_source_is_on_no_cycle(build_outcome(c)->Ok_0, 0);
}

} // verus!
