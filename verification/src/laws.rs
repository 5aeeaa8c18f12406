//! What holds of every build.

use crate::aggregates::aggregates_covered;
use crate::classify::{classified, classified_upto, Classified};
use crate::counting::{
    count_where, lemma_count_agrees, lemma_count_insert, lemma_count_two, lemma_none_counted,
    lemma_two_counted,
};
use crate::entity::SqlGraphEntity;
use crate::sorting::{arranged, by_place, lemma_slot, slot_from, Placed};
use crate::connect::externs_covered;
use crate::initialize::{uses_of_aggregates, uses_of_externs};
use crate::placeholders::{
    distinct_paths, lemma_covered_stays, lemma_users_absorbed, users_absorbed,
};
use crate::uses::{aggregate_uses, all_covered, covered, extern_uses};
use crate::fragments::root_to_schemas;
use crate::graph::SqlGraphKind;
use crate::tables::Corpus;
use crate::entity::ExtensionSqlEntity;
use crate::outcome::{
    all_edges, all_outcomes, concat_edges, fold_outcomes, lemma_concat_edges_each,
    lemma_concat_edges_has, lemma_fold_outcomes, Outcome,
};
use crate::graph::{Edge, SqlGraphRelationship};
use crate::initialize::{anchor_outcome, anchor_outcomes, first_bootstrap, first_finalize};

use crate::plan::{
    build_outcome, connect_outcome, kind_anchor_parts, node_edges, planned, planned_bootstrap,
    planned_finalize,
};
use vstd::prelude::*;

verus! {

/// Among the first `k` SQL fragments there is a first that asks to be the
/// bootstrap exactly where one of them asks to be it.
pub proof fn lemma_first_bootstrap(sqls: Seq<ExtensionSqlEntity>, k: int)
    requires
        0 <= k <= sqls.len(),
    ensures
        first_bootstrap(sqls, k) is Some <==> exists|i: int|
            0 <= i < k && (#[trigger] sqls[i]).bootstrap,
        first_bootstrap(sqls, k) matches Some(i) ==> 0 <= i < k && sqls[i].bootstrap,
    decreases k,
{
    if k > 0 {
        lemma_first_bootstrap(sqls, k - 1);
    }
}

/// Among the first `k` SQL fragments there is a first that asks to be the
/// finalize exactly where one of them asks to be it.
pub proof fn lemma_first_finalize(sqls: Seq<ExtensionSqlEntity>, k: int)
    requires
        0 <= k <= sqls.len(),
    ensures
        first_finalize(sqls, k) is Some <==> exists|i: int|
            0 <= i < k && (#[trigger] sqls[i]).finalize,
        first_finalize(sqls, k) matches Some(i) ==> 0 <= i < k && sqls[i].finalize,
    decreases k,
{
    if k > 0 {
        lemma_first_finalize(sqls, k - 1);
    }
}

/// Whether the outcome is a failure for the shape of what was handed over:
/// no control entity, or two SQL fragments that ask for the same anchor.
pub open spec fn is_structural_failure(outcome: Outcome) -> bool {
    outcome matches Err(f) && (f.error is MissingControlFile || f.error is MultipleBootstrap
        || f.error is MultipleFinalize)
}

/// A build with two SQL fragments that both ask to be the bootstrap fails
/// for the shape of what was handed over.
pub proof fn law_two_bootstraps_fail(c: Classified, i: int, j: int)
    requires
        0 <= i < j < c.extension_sqls.len(),
        c.extension_sqls[i].bootstrap,
        c.extension_sqls[j].bootstrap,
    ensures
        is_structural_failure(build_outcome(c)),
{
    let sqls = c.extension_sqls;
    let steps = anchor_outcomes(sqls);
    lemma_first_bootstrap(sqls, j);
    assert(anchor_outcome(sqls, j) is Err);
    assert(steps[j] is Err);
    lemma_fold_outcomes(steps, sqls.len() as int);
    let failure = fold_outcomes(steps, sqls.len() as int)->Err_0;
    let at = choose|at: int|
        0 <= at < sqls.len() && (#[trigger] steps[at]) is Err && steps[at]->Err_0.error
            == failure.error && forall|k: int| 0 <= k < at ==> steps[k] is Ok;
    assert(steps[at] == anchor_outcome(sqls, at));
}

/// A build with two SQL fragments that both ask to be the finalize fails
/// for the shape of what was handed over.
pub proof fn law_two_finalizes_fail(c: Classified, i: int, j: int)
    requires
        0 <= i < j < c.extension_sqls.len(),
        c.extension_sqls[i].finalize,
        c.extension_sqls[j].finalize,
    ensures
        is_structural_failure(build_outcome(c)),
{
    let sqls = c.extension_sqls;
    let steps = anchor_outcomes(sqls);
    lemma_first_finalize(sqls, j);
    assert(anchor_outcome(sqls, j) is Err);
    assert(steps[j] is Err);
    lemma_fold_outcomes(steps, sqls.len() as int);
    let failure = fold_outcomes(steps, sqls.len() as int)->Err_0;
    let at = choose|at: int|
        0 <= at < sqls.len() && (#[trigger] steps[at]) is Err && steps[at]->Err_0.error
            == failure.error && forall|k: int| 0 <= k < at ==> steps[k] is Ok;
    assert(steps[at] == anchor_outcome(sqls, at));
}

/// Whether two of the SQL fragments ask to be the bootstrap.
pub open spec fn two_ask_bootstrap(sqls: Seq<ExtensionSqlEntity>) -> bool {
    exists|i: int, j: int|
        0 <= i < j < sqls.len() && (#[trigger] sqls[i]).bootstrap && (#[trigger] sqls[j]).bootstrap
}

/// Whether two of the SQL fragments ask to be the finalize.
pub open spec fn two_ask_finalize(sqls: Seq<ExtensionSqlEntity>) -> bool {
    exists|i: int, j: int|
        0 <= i < j < sqls.len() && (#[trigger] sqls[i]).finalize && (#[trigger] sqls[j]).finalize
}

/// The anchors clash exactly where two SQL fragments ask to be the
/// bootstrap or two ask to be the finalize; a build then fails for the shape
/// of what was handed over, and never for its anchors otherwise.
pub proof fn law_anchors_clash_exactly(c: Classified)
    ensures
        all_outcomes(anchor_outcomes(c.extension_sqls)) is Err <==> two_ask_bootstrap(
            c.extension_sqls,
        ) || two_ask_finalize(c.extension_sqls),
        two_ask_bootstrap(c.extension_sqls) || two_ask_finalize(c.extension_sqls)
            ==> is_structural_failure(build_outcome(c)),
{
    let sqls = c.extension_sqls;
    let steps = anchor_outcomes(sqls);
    lemma_fold_outcomes(steps, sqls.len() as int);
    if two_ask_bootstrap(sqls) {
        let (i, j) = choose|i: int, j: int|
            0 <= i < j < sqls.len() && (#[trigger] sqls[i]).bootstrap && (
            #[trigger] sqls[j]).bootstrap;
        lemma_first_bootstrap(sqls, j);
        assert(steps[j] == anchor_outcome(sqls, j));
        assert(steps[j] is Err);
        law_two_bootstraps_fail(c, i, j);
    } else if two_ask_finalize(sqls) {
        let (i, j) = choose|i: int, j: int|
            0 <= i < j < sqls.len() && (#[trigger] sqls[i]).finalize && (
            #[trigger] sqls[j]).finalize;
        lemma_first_finalize(sqls, j);
        assert(steps[j] == anchor_outcome(sqls, j));
        assert(steps[j] is Err);
        law_two_finalizes_fail(c, i, j);
    } else {
        assert forall|k: int| 0 <= k < sqls.len() implies (#[trigger] steps[k]) is Ok by {
            assert(steps[k] == anchor_outcome(sqls, k));
            lemma_first_bootstrap(sqls, k);
            lemma_first_finalize(sqls, k);
            if sqls[k].bootstrap && first_bootstrap(sqls, k) is Some {
                let i = first_bootstrap(sqls, k)->0;
                assert(sqls[i].bootstrap && sqls[k].bootstrap);
            }
            if sqls[k].finalize && first_finalize(sqls, k) is Some {
                let i = first_finalize(sqls, k)->0;
                assert(sqls[i].finalize && sqls[k].finalize);
            }
        }
    }
}

/// Putting items in the order of their places changes none of them: as
/// many satisfy `p` as before.
pub proof fn lemma_count_by_place<T: Placed>(items: Seq<T>, p: spec_fn(T) -> bool, n: int)
    requires
        0 <= n <= items.len(),
    ensures
        by_place(items, n).len() == n,
        count_where(by_place(items, n), p, n) == count_where(items, p, n),
    decreases n,
{
    if n > 0 {
        lemma_count_by_place(items, p, n - 1);
        let before = by_place(items, n - 1);
        lemma_slot(before, items[n - 1], 0);
        lemma_count_insert(before, slot_from(before, items[n - 1], 0), items[n - 1], p, n);
    }
}

/// SQL fragments that ask to be the bootstrap.
pub open spec fn asks_bootstrap() -> spec_fn(ExtensionSqlEntity) -> bool {
    |sql: ExtensionSqlEntity| sql.bootstrap
}

/// SQL fragments that ask to be the finalize.
pub open spec fn asks_finalize() -> spec_fn(ExtensionSqlEntity) -> bool {
    |sql: ExtensionSqlEntity| sql.finalize
}

/// Entities that are SQL fragments of the kind `p`.
pub open spec fn fragment_that(p: spec_fn(ExtensionSqlEntity) -> bool) -> spec_fn(
    SqlGraphEntity,
) -> bool {
    |entity: SqlGraphEntity| entity matches SqlGraphEntity::CustomSql(sql) && p(sql)
}

/// The bucket of the SQL fragments holds as many fragments of a kind as the
/// entities do.
pub proof fn lemma_count_classified(
    entities: Seq<SqlGraphEntity>,
    p: spec_fn(ExtensionSqlEntity) -> bool,
    n: int,
)
    requires
        0 <= n <= entities.len(),
    ensures
        count_where(
            classified_upto(entities, n).extension_sqls,
            p,
            classified_upto(entities, n).extension_sqls.len() as int,
        ) == count_where(entities, fragment_that(p), n),
    decreases n,
{
    if n > 0 {
        lemma_count_classified(entities, p, n - 1);
        let before = classified_upto(entities, n - 1).extension_sqls;
        let after = classified_upto(entities, n).extension_sqls;
        match entities[n - 1] {
            SqlGraphEntity::CustomSql(sql) => {
                assert(after == before.push(sql));
                lemma_count_agrees(before, after, p, before.len() as int);
            },
            _ => {
                assert(after == before);
            },
        }
    }
}

/// A build of entities two of which are SQL fragments that ask to be the
/// bootstrap, or two that ask to be the finalize, fails for the shape of
/// what was handed over.
pub proof fn law_one_anchor_of_a_kind(entities: Seq<SqlGraphEntity>, i: int, j: int)
    requires
        0 <= i < j < entities.len(),
        ({
            ||| fragment_that(asks_bootstrap())(entities[i]) && fragment_that(asks_bootstrap())(
                entities[j],
            )
            ||| fragment_that(asks_finalize())(entities[i]) && fragment_that(asks_finalize())(
                entities[j],
            )
        }),
    ensures
        is_structural_failure(build_outcome(arranged(classified(entities)))),
{
    let c = classified(entities);
    let sqls = c.extension_sqls;
    let sorted = arranged(c).extension_sqls;
    let n = sqls.len() as int;
    if fragment_that(asks_bootstrap())(entities[i]) && fragment_that(asks_bootstrap())(
        entities[j],
    ) {
        let p = asks_bootstrap();
        lemma_count_two(entities, fragment_that(p), i, j, entities.len() as int);
        lemma_count_classified(entities, p, entities.len() as int);
        lemma_count_by_place(sqls, p, n);
        lemma_two_counted(sorted, p, n);
        let (a, b) = choose|a: int, b: int|
            0 <= a < b < n && p(#[trigger] sorted[a]) && p(#[trigger] sorted[b]);
        law_two_bootstraps_fail(arranged(c), a, b);
    } else {
        let p = asks_finalize();
        lemma_count_two(entities, fragment_that(p), i, j, entities.len() as int);
        lemma_count_classified(entities, p, entities.len() as int);
        lemma_count_by_place(sqls, p, n);
        lemma_two_counted(sorted, p, n);
        let (a, b) = choose|a: int, b: int|
            0 <= a < b < n && p(#[trigger] sorted[a]) && p(#[trigger] sorted[b]);
        law_two_finalizes_fail(arranged(c), a, b);
    }
}

/// The edges of the node phase by kind, in the order of the kinds.
pub open spec fn node_edge_terms(
    t: Corpus,
    root: usize,
    bootstrap: Option<usize>,
    finalize: Option<usize>,
) -> Seq<Seq<Edge>> {
    seq![
        all_edges(kind_anchor_parts(t, SqlGraphKind::CustomSql, root, bootstrap, finalize)),
        all_edges(kind_anchor_parts(t, SqlGraphKind::Schema, root, bootstrap, finalize)),
        all_edges(kind_anchor_parts(t, SqlGraphKind::Enum, root, bootstrap, finalize)),
        all_edges(kind_anchor_parts(t, SqlGraphKind::Type, root, bootstrap, finalize)),
        all_edges(kind_anchor_parts(t, SqlGraphKind::Function, root, bootstrap, finalize)),
        all_edges(kind_anchor_parts(t, SqlGraphKind::Ord, root, bootstrap, finalize)),
        all_edges(kind_anchor_parts(t, SqlGraphKind::Hash, root, bootstrap, finalize)),
        all_edges(kind_anchor_parts(t, SqlGraphKind::Aggregate, root, bootstrap, finalize)),
        all_edges(kind_anchor_parts(t, SqlGraphKind::Trigger, root, bootstrap, finalize)),
    ]
}

/// The edges of the node phase are those of its kinds, one kind after
/// another.
pub proof fn lemma_node_edges_by_kind(
    t: Corpus,
    root: usize,
    bootstrap: Option<usize>,
    finalize: Option<usize>,
)
    ensures
        node_edges(t, root, bootstrap, finalize) == all_edges(
            node_edge_terms(t, root, bootstrap, finalize),
        ),
{
    let terms = node_edge_terms(t, root, bootstrap, finalize);
    assert(concat_edges(terms, 0) =~= Seq::<Edge>::empty());
    assert(concat_edges(terms, 1) =~= terms[0]);
    assert(concat_edges(terms, 2) =~= concat_edges(terms, 1) + terms[1]);
    assert(concat_edges(terms, 3) =~= concat_edges(terms, 2) + terms[2]);
    assert(concat_edges(terms, 4) =~= concat_edges(terms, 3) + terms[3]);
    assert(concat_edges(terms, 5) =~= concat_edges(terms, 4) + terms[4]);
    assert(concat_edges(terms, 6) =~= concat_edges(terms, 5) + terms[5]);
    assert(concat_edges(terms, 7) =~= concat_edges(terms, 6) + terms[6]);
    assert(concat_edges(terms, 8) =~= concat_edges(terms, 7) + terms[7]);
    assert(concat_edges(terms, 9) =~= concat_edges(terms, 8) + terms[8]);
}

/// What is among the edges of one of two sequences is among those of both.
pub proof fn lemma_contains_add(a: Seq<Edge>, b: Seq<Edge>, e: Edge)
    ensures
        a.contains(e) ==> (a + b).contains(e),
        b.contains(e) ==> (a + b).contains(e),
{
    if a.contains(e) {
        let i = choose|i: int| 0 <= i < a.len() && a[i] == e;
        assert((a + b)[i] == e);
    }
    if b.contains(e) {
        let i = choose|i: int| 0 <= i < b.len() && b[i] == e;
        assert((a + b)[a.len() + i] == e);
    }
}

/// Without anchors every edge of the node phase leads from the root to the
/// node that it ties: no edge is there for an anchor's sake.
pub proof fn law_node_edges_without_anchors(t: Corpus, root: usize)
    ensures
        forall|j: int|
            0 <= j < node_edges(t, root, None, None).len() ==> (#[trigger] node_edges(
                t,
                root,
                None,
                None,
            )[j]).0 == root,
{
    let from_root = |e: Edge| e.0 == root;
    let terms = node_edge_terms(t, root, None, None);
    lemma_node_edges_by_kind(t, root, None, None);
    assert forall|k: int, i: int| 0 <= k < 9 && 0 <= i < terms[k].len() implies from_root(
        #[trigger] terms[k][i],
    ) by {
        let kind = if k == 0 {
            SqlGraphKind::CustomSql
        } else if k == 1 {
            SqlGraphKind::Schema
        } else if k == 2 {
            SqlGraphKind::Enum
        } else if k == 3 {
            SqlGraphKind::Type
        } else if k == 4 {
            SqlGraphKind::Function
        } else if k == 5 {
            SqlGraphKind::Ord
        } else if k == 6 {
            SqlGraphKind::Hash
        } else if k == 7 {
            SqlGraphKind::Aggregate
        } else {
            SqlGraphKind::Trigger
        };
        let parts = kind_anchor_parts(t, kind, root, None, None);
        lemma_concat_edges_each(parts, parts.len() as int, from_root);
    }
    lemma_concat_edges_each(terms, 9, from_root);
}

/// A build in which no SQL fragment asks to be the bootstrap or the
/// finalize does not fail for its anchors and has neither; every edge of
/// its node phase then leads from the root to the node that it ties.
pub proof fn law_without_anchors(c: Classified)
    requires
        forall|k: int|
            0 <= k < c.extension_sqls.len() ==> !(#[trigger] c.extension_sqls[k]).bootstrap
                && !c.extension_sqls[k].finalize,
    ensures
        all_outcomes(anchor_outcomes(c.extension_sqls)) is Ok,
        planned_bootstrap(c) is None,
        planned_finalize(c) is None,
        forall|j: int|
            0 <= j < node_edges(planned(c), 0, planned_bootstrap(c), planned_finalize(c)).len()
                ==> (#[trigger] node_edges(
                planned(c),
                0,
                planned_bootstrap(c),
                planned_finalize(c),
            )[j]).0 == 0,
{
    let sqls = c.extension_sqls;
    let steps = anchor_outcomes(sqls);
    lemma_first_bootstrap(sqls, sqls.len() as int);
    lemma_first_finalize(sqls, sqls.len() as int);
    lemma_fold_outcomes(steps, sqls.len() as int);
    law_node_edges_without_anchors(planned(c), 0);
}

/// A build of entities none of which is an SQL fragment that asks to be the
/// bootstrap or the finalize does not fail for its anchors and has neither;
/// every edge of its node phase then leads from the root to the node that
/// it ties.
pub proof fn law_no_anchor_asked_for(entities: Seq<SqlGraphEntity>)
    requires
        forall|k: int|
            0 <= k < entities.len() ==> !fragment_that(asks_bootstrap())(#[trigger] entities[k])
                && !fragment_that(asks_finalize())(entities[k]),
    ensures
        ({
            let c = arranged(classified(entities));
            &&& all_outcomes(anchor_outcomes(c.extension_sqls)) is Ok
            &&& planned_bootstrap(c) is None
            &&& planned_finalize(c) is None
            &&& forall|j: int|
                0 <= j < node_edges(planned(c), 0, None, None).len() ==> (#[trigger] node_edges(
                    planned(c),
                    0,
                    None,
                    None,
                )[j]).0 == 0
        }),
{
    let c = classified(entities);
    let sqls = c.extension_sqls;
    let sorted = arranged(c).extension_sqls;
    let n = sqls.len() as int;
    lemma_none_counted(entities, fragment_that(asks_bootstrap()), entities.len() as int);
    lemma_count_classified(entities, asks_bootstrap(), entities.len() as int);
    lemma_count_by_place(sqls, asks_bootstrap(), n);
    lemma_none_counted(sorted, asks_bootstrap(), n);
    lemma_none_counted(entities, fragment_that(asks_finalize()), entities.len() as int);
    lemma_count_classified(entities, asks_finalize(), entities.len() as int);
    lemma_count_by_place(sqls, asks_finalize(), n);
    lemma_none_counted(sorted, asks_finalize(), n);
    assert forall|k: int| 0 <= k < sorted.len() implies !(#[trigger] sorted[k]).bootstrap
        && !sorted[k].finalize by {
        assert(!asks_bootstrap()(sorted[k]));
        assert(!asks_finalize()(sorted[k]));
    }
    law_without_anchors(arranged(c));
}

/// Whether an edge leads from the root to the node of each entry of the
/// table.
pub open spec fn behind_root<T>(edges: Seq<Edge>, root: usize, table: Seq<(T, usize)>) -> bool {
    forall|k: int|
        0 <= k < table.len() ==> edges.contains(
            (root, (#[trigger] table[k]).1, SqlGraphRelationship::RequiredBy),
        )
}

/// The entries of a table whose nodes the node phase ties to the root are
/// behind the root among the edges of the node phase.
proof fn lemma_tied_to_root<T>(
    t: Corpus,
    bootstrap: Option<usize>,
    finalize: Option<usize>,
    table: Seq<(T, usize)>,
    kind: SqlGraphKind,
    at: int,
)
    requires
        0 <= at < 9,
        node_edge_terms(t, 0, bootstrap, finalize)[at] == all_edges(
            kind_anchor_parts(t, kind, 0, bootstrap, finalize),
        ),
        kind_anchor_parts(t, kind, 0, bootstrap, finalize).len() == table.len(),
        forall|k: int|
            0 <= k < table.len() ==> {
                let part = #[trigger] kind_anchor_parts(t, kind, 0, bootstrap, finalize)[k];
                part.len() > 0 && part[0] == (0usize, table[k].1, SqlGraphRelationship::RequiredBy)
            },
    ensures
        behind_root(node_edges(t, 0, bootstrap, finalize), 0, table),
{
    let parts = kind_anchor_parts(t, kind, 0, bootstrap, finalize);
    let terms = node_edge_terms(t, 0, bootstrap, finalize);
    lemma_node_edges_by_kind(t, 0, bootstrap, finalize);
    assert forall|k: int| 0 <= k < table.len() implies node_edges(
        t,
        0,
        bootstrap,
        finalize,
    ).contains((0usize, (#[trigger] table[k]).1, SqlGraphRelationship::RequiredBy)) by {
        let e = (0usize, table[k].1, SqlGraphRelationship::RequiredBy);
        lemma_concat_edges_has(parts, parts.len() as int, k, 0);
        let i = choose|i: int| 0 <= i < terms[at].len() && terms[at][i] == e;
        lemma_concat_edges_has(terms, 9, at, i);
    }
}

/// What is behind the root among some edges is so among more edges.
proof fn lemma_behind_root_add<T>(a: Seq<Edge>, b: Seq<Edge>, table: Seq<(T, usize)>)
    ensures
        behind_root(a, 0, table) ==> behind_root(a + b, 0, table),
        behind_root(b, 0, table) ==> behind_root(a + b, 0, table),
{
    assert forall|k: int| 0 <= k < table.len() implies (a.contains(
        (0usize, (#[trigger] table[k]).1, SqlGraphRelationship::RequiredBy),
    ) ==> (a + b).contains((0usize, table[k].1, SqlGraphRelationship::RequiredBy))) && (b.contains(
        (0usize, table[k].1, SqlGraphRelationship::RequiredBy),
    ) ==> (a + b).contains((0usize, table[k].1, SqlGraphRelationship::RequiredBy))) by {
        lemma_contains_add(a, b, (0usize, table[k].1, SqlGraphRelationship::RequiredBy));
    }
}

/// The node phase ties every entity but a schema to the root.
pub proof fn lemma_node_phase_ties(t: Corpus, bootstrap: Option<usize>, finalize: Option<usize>)
    ensures
        behind_root(node_edges(t, 0, bootstrap, finalize), 0, t.extension_sqls),
        behind_root(node_edges(t, 0, bootstrap, finalize), 0, t.externs),
        behind_root(node_edges(t, 0, bootstrap, finalize), 0, t.types),
        behind_root(node_edges(t, 0, bootstrap, finalize), 0, t.enums),
        behind_root(node_edges(t, 0, bootstrap, finalize), 0, t.ords),
        behind_root(node_edges(t, 0, bootstrap, finalize), 0, t.hashes),
        behind_root(node_edges(t, 0, bootstrap, finalize), 0, t.aggregates),
        behind_root(node_edges(t, 0, bootstrap, finalize), 0, t.triggers),
{
    lemma_tied_to_root(t, bootstrap, finalize, t.extension_sqls, SqlGraphKind::CustomSql, 0);
    lemma_tied_to_root(t, bootstrap, finalize, t.enums, SqlGraphKind::Enum, 2);
    lemma_tied_to_root(t, bootstrap, finalize, t.types, SqlGraphKind::Type, 3);
    lemma_tied_to_root(t, bootstrap, finalize, t.externs, SqlGraphKind::Function, 4);
    lemma_tied_to_root(t, bootstrap, finalize, t.ords, SqlGraphKind::Ord, 5);
    lemma_tied_to_root(t, bootstrap, finalize, t.hashes, SqlGraphKind::Hash, 6);
    lemma_tied_to_root(t, bootstrap, finalize, t.aggregates, SqlGraphKind::Aggregate, 7);
    lemma_tied_to_root(t, bootstrap, finalize, t.triggers, SqlGraphKind::Trigger, 8);
}

/// The edge phase ties every schema to the root.
pub proof fn lemma_edge_phase_ties(t: Corpus)
    requires
        connect_outcome(t, 0) is Ok,
    ensures
        behind_root(connect_outcome(t, 0)->Ok_0, 0, t.schemas),
{
    let to_schemas = root_to_schemas(t.schemas, 0);
    let all = connect_outcome(t, 0)->Ok_0;
    assert forall|k: int| 0 <= k < t.schemas.len() implies all.contains(
        (0usize, (#[trigger] t.schemas[k]).1, SqlGraphRelationship::RequiredBy),
    ) by {
        assert(all[k] == to_schemas[k]);
    }
}

/// In a graph that was built, the root comes before every entity: an edge
/// leads from the root to the node of each.
pub proof fn law_root_before_all(c: Classified)
    requires
        build_outcome(c) is Ok,
    ensures
        behind_root(build_outcome(c)->Ok_0, 0, planned(c).schemas),
        behind_root(build_outcome(c)->Ok_0, 0, planned(c).extension_sqls),
        behind_root(build_outcome(c)->Ok_0, 0, planned(c).externs),
        behind_root(build_outcome(c)->Ok_0, 0, planned(c).types),
        behind_root(build_outcome(c)->Ok_0, 0, planned(c).enums),
        behind_root(build_outcome(c)->Ok_0, 0, planned(c).ords),
        behind_root(build_outcome(c)->Ok_0, 0, planned(c).hashes),
        behind_root(build_outcome(c)->Ok_0, 0, planned(c).aggregates),
        behind_root(build_outcome(c)->Ok_0, 0, planned(c).triggers),
{
    let t = planned(c);
    let anchors = all_outcomes(anchor_outcomes(c.extension_sqls))->Ok_0;
    let by_nodes = node_edges(t, 0, planned_bootstrap(c), planned_finalize(c));
    let by_connect = connect_outcome(t, 0)->Ok_0;
    lemma_node_phase_ties(t, planned_bootstrap(c), planned_finalize(c));
    lemma_edge_phase_ties(t);
    lemma_behind_root_add(anchors, by_nodes, t.extension_sqls);
    lemma_behind_root_add(anchors + by_nodes, by_connect, t.extension_sqls);
    lemma_behind_root_add(anchors, by_nodes, t.externs);
    lemma_behind_root_add(anchors + by_nodes, by_connect, t.externs);
    lemma_behind_root_add(anchors, by_nodes, t.types);
    lemma_behind_root_add(anchors + by_nodes, by_connect, t.types);
    lemma_behind_root_add(anchors, by_nodes, t.enums);
    lemma_behind_root_add(anchors + by_nodes, by_connect, t.enums);
    lemma_behind_root_add(anchors, by_nodes, t.ords);
    lemma_behind_root_add(anchors + by_nodes, by_connect, t.ords);
    lemma_behind_root_add(anchors, by_nodes, t.hashes);
    lemma_behind_root_add(anchors + by_nodes, by_connect, t.hashes);
    lemma_behind_root_add(anchors, by_nodes, t.aggregates);
    lemma_behind_root_add(anchors + by_nodes, by_connect, t.aggregates);
    lemma_behind_root_add(anchors, by_nodes, t.triggers);
    lemma_behind_root_add(anchors + by_nodes, by_connect, t.triggers);
    lemma_behind_root_add(anchors + by_nodes, by_connect, t.schemas);
}

/// However many uses name a path, one placeholder stands for it: no two
/// placeholders of a build stand for the same path.
pub proof fn law_one_placeholder_for_a_path(c: Classified)
    ensures
        distinct_paths(planned(c).builtin_types),
{
    let t = planned(c);
    let externs_at = 1int + c.extension_sqls.len() + c.schemas.len() + c.enums.len()
        + c.types.len();
    lemma_users_absorbed(
        Seq::empty(),
        uses_of_externs(c.externs),
        t.types,
        t.enums,
        externs_at,
        c.externs.len() as int,
    );
    let after_externs = users_absorbed(
        Seq::empty(),
        uses_of_externs(c.externs),
        t.types,
        t.enums,
        externs_at,
        c.externs.len() as int,
    );
    lemma_users_absorbed(
        after_externs,
        uses_of_aggregates(c.aggregates),
        t.types,
        t.enums,
        externs_at + c.externs.len() + c.ords.len() + c.hashes.len(),
        c.aggregates.len() as int,
    );
}

/// Before any entity is connected, a placeholder is there for every type
/// that a function or an aggregate uses and nothing declares.
pub proof fn law_placeholders_are_there(c: Classified)
    ensures
        externs_covered(planned(c)),
        aggregates_covered(planned(c)),
{
    let t = planned(c);
    let externs_at = 1int + c.extension_sqls.len() + c.schemas.len() + c.enums.len()
        + c.types.len();
    let extern_uses_all = uses_of_externs(c.externs);
    let aggregate_uses_all = uses_of_aggregates(c.aggregates);
    lemma_users_absorbed(
        Seq::empty(),
        extern_uses_all,
        t.types,
        t.enums,
        externs_at,
        c.externs.len() as int,
    );
    let after_externs = users_absorbed(
        Seq::empty(),
        extern_uses_all,
        t.types,
        t.enums,
        externs_at,
        c.externs.len() as int,
    );
    lemma_users_absorbed(
        after_externs,
        aggregate_uses_all,
        t.types,
        t.enums,
        externs_at + c.externs.len() + c.ords.len() + c.hashes.len(),
        c.aggregates.len() as int,
    );
    assert forall|k: int| 0 <= k < t.externs.len() implies all_covered(
        extern_uses((#[trigger] t.externs[k]).0),
        t.types,
        t.enums,
        t.builtin_types,
    ) by {
        let uses = extern_uses_all[k];
        assert forall|i: int| 0 <= i < uses.len() implies covered(
            #[trigger] uses[i],
            t.types,
            t.enums,
            t.builtin_types,
        ) by {
            lemma_covered_stays(uses[i], t.types, t.enums, after_externs, t.builtin_types);
        }
    }
    assert forall|k: int| 0 <= k < t.aggregates.len() implies all_covered(
        aggregate_uses((#[trigger] t.aggregates[k]).0),
        t.types,
        t.enums,
        t.builtin_types,
    ) by {
        assert(aggregate_uses_all[k] == aggregate_uses(t.aggregates[k].0));
    }
}

} // verus!
