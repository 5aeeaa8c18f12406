//! The node phase: a node for every entity, kind by kind, before any edge
//! between entities is drawn.

use crate::entity::{
    ExtensionSqlEntity, PgAggregateEntity, PgExternEntity, PgTriggerEntity, PostgresEnumEntity,
    PostgresHashEntity, PostgresOrdEntity, PostgresTypeEntity, SchemaEntity,
};
use crate::error::BuildError;
use crate::outcome::{
    all_edges, all_outcomes, concat_edges, fails, fold_outcomes, lemma_failure_stays, Failure,
    Outcome,
};
use crate::graph::{
    add_node, graph_compact, graph_edges, graph_nodes, Edge, EntityGraph, SqlGraphKind,
    SqlGraphNode,
};
use crate::nodes::{
    none_of, anchor_edges, initialize_nodes, lemma_table_matches_push, nodes_of, numbered,
    table_anchor_parts, table_matches, tie_to_anchors,
};
use crate::placeholders::{
    distinct_paths, each_view, initialize_users, lemma_users_absorbed, user_table, users_absorbed,
};
use crate::uses::{
    aggregate_uses, all_covered, extern_uses, uses_of_aggregate, uses_of_extern, TypeUse,
};
use vstd::prelude::*;

verus! {

/// The first of the first `k` SQL fragments that asks to be the bootstrap.
pub open spec fn first_bootstrap(sqls: Seq<ExtensionSqlEntity>, k: int) -> Option<int>
    decreases k,
{
    if k <= 0 {
        None
    } else {
        match first_bootstrap(sqls, k - 1) {
            Some(i) => Some(i),
            None => if sqls[k - 1].bootstrap {
                Some(k - 1)
            } else {
                None
            },
        }
    }
}

/// The first of the first `k` SQL fragments that asks to be the finalize.
pub open spec fn first_finalize(sqls: Seq<ExtensionSqlEntity>, k: int) -> Option<int>
    decreases k,
{
    if k <= 0 {
        None
    } else {
        match first_finalize(sqls, k - 1) {
            Some(i) => Some(i),
            None => if sqls[k - 1].finalize {
                Some(k - 1)
            } else {
                None
            },
        }
    }
}

/// Whether SQL fragment `k` may stand where it asks to: it fails where it
/// asks to be the bootstrap and one before it did, or asks to be the
/// finalize and one before it did.
pub open spec fn anchor_outcome(sqls: Seq<ExtensionSqlEntity>, k: int) -> Outcome {
    if sqls[k].bootstrap && first_bootstrap(sqls, k) is Some {
        fails(
            BuildError::MultipleBootstrap {
                found: sqls[k].full_path,
                other: sqls[first_bootstrap(sqls, k)->0].full_path,
            },
        )
    } else if sqls[k].finalize && first_finalize(sqls, k) is Some {
        fails(
            BuildError::MultipleFinalize {
                found: sqls[k].full_path,
                other: sqls[first_finalize(sqls, k)->0].full_path,
            },
        )
    } else {
        Ok(Seq::empty())
    }
}

/// Whether each SQL fragment may stand where it asks to.
pub open spec fn anchor_outcomes(sqls: Seq<ExtensionSqlEntity>) -> Seq<Outcome> {
    Seq::new(sqls.len(), |k: int| anchor_outcome(sqls, k))
}

/// A place in a table, if there is one, as a number without a type.
pub open spec fn place_of(position: Option<usize>) -> Option<int> {
    match position {
        Some(i) => Some(i as int),
        None => None,
    }
}

/// The node of the entry at `position`, if there is one, of a table whose
/// nodes follow one another from `start` on.
pub open spec fn node_after(start: int, position: Option<int>) -> Option<usize> {
    match position {
        Some(i) => Some((start + i) as usize),
        None => None,
    }
}

/// The anchor edges of an SQL fragment: those of any node, but that the
/// bootstrap does not come behind itself, nor the finalize before itself.
pub open spec fn sql_anchor_edges(
    sql: ExtensionSqlEntity,
    index: usize,
    root: usize,
    bootstrap: Option<usize>,
    finalize: Option<usize>,
) -> Seq<Edge> {
    anchor_edges(
        index,
        Some(root),
        if sql.bootstrap {
            None
        } else {
            bootstrap
        },
        if sql.finalize {
            None
        } else {
            finalize
        },
    )
}

/// The anchor edges of each SQL fragment.
pub open spec fn sql_anchor_parts(
    table: Seq<(ExtensionSqlEntity, usize)>,
    root: usize,
    bootstrap: Option<usize>,
    finalize: Option<usize>,
) -> Seq<Seq<Edge>> {
    Seq::new(
        table.len(),
        |k: int| sql_anchor_edges(table[k].0, table[k].1, root, bootstrap, finalize),
    )
}

/// Makes a node for every SQL fragment and finds the bootstrap and the
/// finalize among them; then ties every fragment to the root and to those
/// two. Fails where two fragments ask to be the bootstrap, or two the
/// finalize.
pub fn initialize_extension_sqls(
    graph: &mut EntityGraph,
    root: usize,
    extension_sqls: Vec<ExtensionSqlEntity>,
) -> (r: Result<(Vec<(ExtensionSqlEntity, usize)>, Option<usize>, Option<usize>), BuildError>)
    requires
        graph_compact(*old(graph)),
        root < graph_nodes(*old(graph)).len(),
        none_of(graph_nodes(*old(graph)), SqlGraphKind::CustomSql),
    ensures
        match r {
            Ok((table, bootstrap, finalize)) => {
                &&& all_outcomes(anchor_outcomes(extension_sqls@)) == Ok::<
                    Seq<Edge>,
                    Failure,
                >(Seq::empty())
                &&& graph_compact(*final(graph))
                &&& table_matches(graph_nodes(*final(graph)), table@, SqlGraphKind::CustomSql)
                &&& bootstrap matches Some(b) ==> b < graph_nodes(*final(graph)).len()
                &&& finalize matches Some(f) ==> f < graph_nodes(*final(graph)).len()
                &&& table@ == numbered(extension_sqls@, graph_nodes(*old(graph)).len() as int)
                &&& bootstrap == node_after(
                    graph_nodes(*old(graph)).len() as int,
                    first_bootstrap(extension_sqls@, extension_sqls@.len() as int),
                )
                &&& finalize == node_after(
                    graph_nodes(*old(graph)).len() as int,
                    first_finalize(extension_sqls@, extension_sqls@.len() as int),
                )
                &&& graph_nodes(*final(graph)) == graph_nodes(*old(graph)) + nodes_of(
                    SqlGraphKind::CustomSql,
                    0,
                    extension_sqls@.len() as int,
                )
                &&& graph_edges(*final(graph)) == graph_edges(*old(graph)) + all_edges(
                    sql_anchor_parts(table@, root, bootstrap, finalize),
                )
            },
            Err(e) => {
                &&& all_outcomes(anchor_outcomes(extension_sqls@)) == fails(e)
                &&& graph_compact(*final(graph))
                &&& graph_edges(*final(graph)) == graph_edges(*old(graph))
                &&& exists|k: int|
                    {
                        &&& 0 <= k < extension_sqls@.len()
                        &&& #[trigger] anchor_outcome(extension_sqls@, k) is Err
                        &&& forall|j: int|
                            0 <= j < k ==> #[trigger] anchor_outcome(extension_sqls@, j) is Ok
                        &&& graph_nodes(*final(graph)) == graph_nodes(*old(graph)) + nodes_of(
                            SqlGraphKind::CustomSql,
                            0,
                            k + 1,
                        )
                    }
            },
        },
{
    let ghost start = graph_nodes(*graph).len() as int;
    let ghost steps = anchor_outcomes(extension_sqls@);
    let mut bootstrap: Option<usize> = None;
    let mut finalize: Option<usize> = None;
    let mut table: Vec<(ExtensionSqlEntity, usize)> = Vec::new();
    for item in it: extension_sqls
        invariant
            it.seq() == extension_sqls@,
            start == graph_nodes(*old(graph)).len(),
            steps == anchor_outcomes(extension_sqls@),
            graph_compact(*graph),
            graph_edges(*graph) == graph_edges(*old(graph)),
            table_matches(graph_nodes(*graph), table@, SqlGraphKind::CustomSql),
            table@ == numbered(extension_sqls@.take(it.index() as int), start),
            graph_nodes(*graph) == graph_nodes(*old(graph)) + nodes_of(
                SqlGraphKind::CustomSql,
                0,
                it.index() as int,
            ),
            place_of(bootstrap) == first_bootstrap(extension_sqls@, it.index() as int),
            place_of(finalize) == first_finalize(extension_sqls@, it.index() as int),
            bootstrap matches Some(i) ==> i < it.index(),
            finalize matches Some(i) ==> i < it.index(),
            fold_outcomes(steps, it.index() as int) == Ok::<Seq<Edge>, Failure>(Seq::empty()),
            forall|j: int|
                0 <= j < it.index() ==> #[trigger] anchor_outcome(extension_sqls@, j) is Ok,
    {
        let ghost k = it.index() as int;
        let ghost nodes = graph_nodes(*graph);
        let index = add_node(
            graph,
            SqlGraphNode { kind: SqlGraphKind::CustomSql, position: table.len() },
        );
        proof {
            lemma_table_matches_push(nodes, table@, SqlGraphKind::CustomSql, item);
        }
        if item.bootstrap {
            match bootstrap {
                Some(existing) => {
                    let other = table[existing].0.full_path.clone();
                    proof {
                        lemma_failure_stays(steps, k, extension_sqls@.len() as int);
                    }
                    return Err(
                        BuildError::MultipleBootstrap { found: item.full_path.clone(), other },
                    );
                },
                None => {},
            }
            bootstrap = Some(table.len());
        }
        if item.finalize {
            match finalize {
                Some(existing) => {
                    let other = table[existing].0.full_path.clone();
                    proof {
                        lemma_failure_stays(steps, k, extension_sqls@.len() as int);
                    }
                    return Err(
                        BuildError::MultipleFinalize { found: item.full_path.clone(), other },
                    );
                },
                None => {},
            }
            finalize = Some(table.len());
        }
        table.push((item, index));
    }
    let bootstrap = match bootstrap {
        Some(i) => Some(table[i].1),
        None => None,
    };
    let finalize = match finalize {
        Some(i) => Some(table[i].1),
        None => None,
    };
    let ghost parts = sql_anchor_parts(table@, root, bootstrap, finalize);
    let ghost nodes = graph_nodes(*graph);
    let mut k: usize = 0;
    while k < table.len()
        invariant
            k <= table.len(),
            parts == sql_anchor_parts(table@, root, bootstrap, finalize),
            table@ == numbered(extension_sqls@, start),
            start == graph_nodes(*old(graph)).len(),
            root < start,
            nodes.len() == start + table@.len(),
            bootstrap matches Some(b) ==> b < nodes.len(),
            finalize matches Some(f) ==> f < nodes.len(),
            graph_compact(*graph),
            graph_nodes(*graph) == nodes,
            table_matches(nodes, table@, SqlGraphKind::CustomSql),
            graph_edges(*graph) == graph_edges(*old(graph)) + concat_edges(parts, k as int),
        decreases table.len() - k,
    {
        let ghost before = *graph;
        tie_to_anchors(
            graph,
            table[k].1,
            Some(root),
            if table[k].0.bootstrap {
                None
            } else {
                bootstrap
            },
            if table[k].0.finalize {
                None
            } else {
                finalize
            },
        );
        k += 1;
    }
    Ok((table, bootstrap, finalize))
}

/// Makes a node for every schema, behind the bootstrap and before the
/// finalize.
pub fn initialize_schemas(
    graph: &mut EntityGraph,
    bootstrap: Option<usize>,
    finalize: Option<usize>,
    schemas: Vec<SchemaEntity>,
) -> (table: Vec<(SchemaEntity, usize)>)
    requires
        graph_compact(*old(graph)),
        bootstrap matches Some(b) ==> b < graph_nodes(*old(graph)).len(),
        finalize matches Some(f) ==> f < graph_nodes(*old(graph)).len(),
        none_of(graph_nodes(*old(graph)), SqlGraphKind::Schema),
    ensures
        graph_compact(*final(graph)),
        table_matches(graph_nodes(*final(graph)), table@, SqlGraphKind::Schema),
        table@ == numbered(schemas@, graph_nodes(*old(graph)).len() as int),
        graph_nodes(*final(graph)) == graph_nodes(*old(graph)) + nodes_of(
            SqlGraphKind::Schema,
            0,
            schemas@.len() as int,
        ),
        graph_edges(*final(graph)) == graph_edges(*old(graph)) + all_edges(
            table_anchor_parts(table@, None, bootstrap, finalize),
        ),
{
    initialize_nodes(graph, SqlGraphKind::Schema, None, bootstrap, finalize, schemas)
}

/// Makes a node for every enumeration, tied to the anchors.
pub fn initialize_enums(
    graph: &mut EntityGraph,
    root: usize,
    bootstrap: Option<usize>,
    finalize: Option<usize>,
    enums: Vec<PostgresEnumEntity>,
) -> (table: Vec<(PostgresEnumEntity, usize)>)
    requires
        graph_compact(*old(graph)),
        root < graph_nodes(*old(graph)).len(),
        bootstrap matches Some(b) ==> b < graph_nodes(*old(graph)).len(),
        finalize matches Some(f) ==> f < graph_nodes(*old(graph)).len(),
        none_of(graph_nodes(*old(graph)), SqlGraphKind::Enum),
    ensures
        graph_compact(*final(graph)),
        table_matches(graph_nodes(*final(graph)), table@, SqlGraphKind::Enum),
        table@ == numbered(enums@, graph_nodes(*old(graph)).len() as int),
        graph_nodes(*final(graph)) == graph_nodes(*old(graph)) + nodes_of(
            SqlGraphKind::Enum,
            0,
            enums@.len() as int,
        ),
        graph_edges(*final(graph)) == graph_edges(*old(graph)) + all_edges(
            table_anchor_parts(table@, Some(root), bootstrap, finalize),
        ),
{
    initialize_nodes(graph, SqlGraphKind::Enum, Some(root), bootstrap, finalize, enums)
}

/// Makes a node for every type, tied to the anchors.
pub fn initialize_types(
    graph: &mut EntityGraph,
    root: usize,
    bootstrap: Option<usize>,
    finalize: Option<usize>,
    types: Vec<PostgresTypeEntity>,
) -> (table: Vec<(PostgresTypeEntity, usize)>)
    requires
        graph_compact(*old(graph)),
        root < graph_nodes(*old(graph)).len(),
        bootstrap matches Some(b) ==> b < graph_nodes(*old(graph)).len(),
        finalize matches Some(f) ==> f < graph_nodes(*old(graph)).len(),
        none_of(graph_nodes(*old(graph)), SqlGraphKind::Type),
    ensures
        graph_compact(*final(graph)),
        table_matches(graph_nodes(*final(graph)), table@, SqlGraphKind::Type),
        table@ == numbered(types@, graph_nodes(*old(graph)).len() as int),
        graph_nodes(*final(graph)) == graph_nodes(*old(graph)) + nodes_of(
            SqlGraphKind::Type,
            0,
            types@.len() as int,
        ),
        graph_edges(*final(graph)) == graph_edges(*old(graph)) + all_edges(
            table_anchor_parts(table@, Some(root), bootstrap, finalize),
        ),
{
    initialize_nodes(graph, SqlGraphKind::Type, Some(root), bootstrap, finalize, types)
}

/// Makes a node for every ordering operator class, tied to the anchors.
pub fn initialize_ords(
    graph: &mut EntityGraph,
    root: usize,
    bootstrap: Option<usize>,
    finalize: Option<usize>,
    ords: Vec<PostgresOrdEntity>,
) -> (table: Vec<(PostgresOrdEntity, usize)>)
    requires
        graph_compact(*old(graph)),
        root < graph_nodes(*old(graph)).len(),
        bootstrap matches Some(b) ==> b < graph_nodes(*old(graph)).len(),
        finalize matches Some(f) ==> f < graph_nodes(*old(graph)).len(),
        none_of(graph_nodes(*old(graph)), SqlGraphKind::Ord),
    ensures
        graph_compact(*final(graph)),
        table_matches(graph_nodes(*final(graph)), table@, SqlGraphKind::Ord),
        table@ == numbered(ords@, graph_nodes(*old(graph)).len() as int),
        graph_nodes(*final(graph)) == graph_nodes(*old(graph)) + nodes_of(
            SqlGraphKind::Ord,
            0,
            ords@.len() as int,
        ),
        graph_edges(*final(graph)) == graph_edges(*old(graph)) + all_edges(
            table_anchor_parts(table@, Some(root), bootstrap, finalize),
        ),
{
    initialize_nodes(graph, SqlGraphKind::Ord, Some(root), bootstrap, finalize, ords)
}

/// Makes a node for every hashing operator class, tied to the anchors.
pub fn initialize_hashes(
    graph: &mut EntityGraph,
    root: usize,
    bootstrap: Option<usize>,
    finalize: Option<usize>,
    hashes: Vec<PostgresHashEntity>,
) -> (table: Vec<(PostgresHashEntity, usize)>)
    requires
        graph_compact(*old(graph)),
        root < graph_nodes(*old(graph)).len(),
        bootstrap matches Some(b) ==> b < graph_nodes(*old(graph)).len(),
        finalize matches Some(f) ==> f < graph_nodes(*old(graph)).len(),
        none_of(graph_nodes(*old(graph)), SqlGraphKind::Hash),
    ensures
        graph_compact(*final(graph)),
        table_matches(graph_nodes(*final(graph)), table@, SqlGraphKind::Hash),
        table@ == numbered(hashes@, graph_nodes(*old(graph)).len() as int),
        graph_nodes(*final(graph)) == graph_nodes(*old(graph)) + nodes_of(
            SqlGraphKind::Hash,
            0,
            hashes@.len() as int,
        ),
        graph_edges(*final(graph)) == graph_edges(*old(graph)) + all_edges(
            table_anchor_parts(table@, Some(root), bootstrap, finalize),
        ),
{
    initialize_nodes(graph, SqlGraphKind::Hash, Some(root), bootstrap, finalize, hashes)
}

/// Makes a node for every trigger, tied to the anchors.
pub fn initialize_triggers(
    graph: &mut EntityGraph,
    root: usize,
    bootstrap: Option<usize>,
    finalize: Option<usize>,
    triggers: Vec<PgTriggerEntity>,
) -> (table: Vec<(PgTriggerEntity, usize)>)
    requires
        graph_compact(*old(graph)),
        root < graph_nodes(*old(graph)).len(),
        bootstrap matches Some(b) ==> b < graph_nodes(*old(graph)).len(),
        finalize matches Some(f) ==> f < graph_nodes(*old(graph)).len(),
        none_of(graph_nodes(*old(graph)), SqlGraphKind::Trigger),
    ensures
        graph_compact(*final(graph)),
        table_matches(graph_nodes(*final(graph)), table@, SqlGraphKind::Trigger),
        table@ == numbered(triggers@, graph_nodes(*old(graph)).len() as int),
        graph_nodes(*final(graph)) == graph_nodes(*old(graph)) + nodes_of(
            SqlGraphKind::Trigger,
            0,
            triggers@.len() as int,
        ),
        graph_edges(*final(graph)) == graph_edges(*old(graph)) + all_edges(
            table_anchor_parts(table@, Some(root), bootstrap, finalize),
        ),
{
    initialize_nodes(graph, SqlGraphKind::Trigger, Some(root), bootstrap, finalize, triggers)
}

/// The uses that each function makes.
pub open spec fn uses_of_externs(externs: Seq<PgExternEntity>) -> Seq<Seq<TypeUse>> {
    Seq::new(externs.len(), |k: int| extern_uses(externs[k]))
}

/// The uses that each aggregate makes.
pub open spec fn uses_of_aggregates(aggregates: Seq<PgAggregateEntity>) -> Seq<Seq<TypeUse>> {
    Seq::new(aggregates.len(), |k: int| aggregate_uses(aggregates[k]))
}

/// Makes a node for every function, tied to the anchors, and a placeholder
/// for every type that a function uses and nothing declares: one for each
/// path, however many uses name it.
pub fn initialize_externs(
    graph: &mut EntityGraph,
    root: usize,
    bootstrap: Option<usize>,
    finalize: Option<usize>,
    externs: Vec<PgExternEntity>,
    mapped_types: &Vec<(PostgresTypeEntity, usize)>,
    mapped_enums: &Vec<(PostgresEnumEntity, usize)>,
) -> (r: (Vec<(PgExternEntity, usize)>, Vec<(String, usize)>))
    requires
        graph_compact(*old(graph)),
        root < graph_nodes(*old(graph)).len(),
        bootstrap matches Some(b) ==> b < graph_nodes(*old(graph)).len(),
        finalize matches Some(f) ==> f < graph_nodes(*old(graph)).len(),
        none_of(graph_nodes(*old(graph)), SqlGraphKind::Function),
        none_of(graph_nodes(*old(graph)), SqlGraphKind::BuiltinType),
    ensures
        graph_compact(*final(graph)),
        r.1@ == users_absorbed(
            Seq::empty(),
            uses_of_externs(externs@),
            mapped_types@,
            mapped_enums@,
            graph_nodes(*old(graph)).len() as int,
            externs@.len() as int,
        ),
        r.0@ == user_table(
            externs@,
            Seq::empty(),
            uses_of_externs(externs@),
            mapped_types@,
            mapped_enums@,
            graph_nodes(*old(graph)).len() as int,
        ),
        graph_nodes(*final(graph)).len() == graph_nodes(*old(graph)).len() + externs@.len()
            + r.1@.len(),
        graph_nodes(*final(graph)).take(graph_nodes(*old(graph)).len() as int) == graph_nodes(
            *old(graph),
        ),
        forall|i: int|
            graph_nodes(*old(graph)).len() <= i < graph_nodes(*final(graph)).len() ==> {
                ||| (#[trigger] graph_nodes(*final(graph))[i]).kind == SqlGraphKind::Function
                ||| graph_nodes(*final(graph))[i].kind == SqlGraphKind::BuiltinType
            },
        table_matches(graph_nodes(*final(graph)), r.0@, SqlGraphKind::Function),
        table_matches(graph_nodes(*final(graph)), r.1@, SqlGraphKind::BuiltinType),
        graph_edges(*final(graph)) == graph_edges(*old(graph)) + all_edges(
            table_anchor_parts(r.0@, Some(root), bootstrap, finalize),
        ),
        distinct_paths(r.1@),
        forall|k: int|
            0 <= k < externs@.len() ==> all_covered(
                extern_uses(#[trigger] externs@[k]),
                mapped_types@,
                mapped_enums@,
                r.1@,
            ),
{
    let mut uses: Vec<Vec<TypeUse>> = Vec::new();
    let mut k: usize = 0;
    while k < externs.len()
        invariant
            k <= externs.len(),
            uses@.len() == k,
            forall|j: int| 0 <= j < k ==> (#[trigger] uses@[j])@ == extern_uses(externs@[j]),
        decreases externs.len() - k,
    {
        uses.push(uses_of_extern(&externs[k]));
        k += 1;
    }
    let mut builtin_types: Vec<(String, usize)> = Vec::new();
    let ghost all = uses_of_externs(externs@);
    proof {
        assert(each_view(uses@) =~= all);
        lemma_users_absorbed(
            Seq::empty(),
            all,
            mapped_types@,
            mapped_enums@,
            graph_nodes(*graph).len() as int,
            externs@.len() as int,
        );
    }
    let table = initialize_users(
        graph,
        SqlGraphKind::Function,
        root,
        bootstrap,
        finalize,
        externs,
        &uses,
        &mut builtin_types,
        mapped_types,
        mapped_enums,
    );
    proof {
        assert forall|k: int| 0 <= k < externs@.len() implies all_covered(
            extern_uses(#[trigger] externs@[k]),
            mapped_types@,
            mapped_enums@,
            builtin_types@,
        ) by {
            assert(all[k] == extern_uses(externs@[k]));
        }
    }
    (table, builtin_types)
}

/// Makes a node for every aggregate, tied to the anchors, and a placeholder
/// for every type that an aggregate uses, nothing declares and no
/// placeholder stands for yet.
pub fn initialize_aggregates(
    graph: &mut EntityGraph,
    root: usize,
    bootstrap: Option<usize>,
    finalize: Option<usize>,
    aggregates: Vec<PgAggregateEntity>,
    mapped_builtin_types: &mut Vec<(String, usize)>,
    mapped_enums: &Vec<(PostgresEnumEntity, usize)>,
    mapped_types: &Vec<(PostgresTypeEntity, usize)>,
) -> (table: Vec<(PgAggregateEntity, usize)>)
    requires
        graph_compact(*old(graph)),
        root < graph_nodes(*old(graph)).len(),
        bootstrap matches Some(b) ==> b < graph_nodes(*old(graph)).len(),
        finalize matches Some(f) ==> f < graph_nodes(*old(graph)).len(),
        old(mapped_builtin_types)@.len() <= graph_nodes(*old(graph)).len(),
        table_matches(
            graph_nodes(*old(graph)),
            old(mapped_builtin_types)@,
            SqlGraphKind::BuiltinType,
        ),
        none_of(graph_nodes(*old(graph)), SqlGraphKind::Aggregate),
    ensures
        graph_compact(*final(graph)),
        final(mapped_builtin_types)@ == users_absorbed(
            old(mapped_builtin_types)@,
            uses_of_aggregates(aggregates@),
            mapped_types@,
            mapped_enums@,
            graph_nodes(*old(graph)).len() - old(mapped_builtin_types)@.len(),
            aggregates@.len() as int,
        ),
        table@ == user_table(
            aggregates@,
            old(mapped_builtin_types)@,
            uses_of_aggregates(aggregates@),
            mapped_types@,
            mapped_enums@,
            graph_nodes(*old(graph)).len() - old(mapped_builtin_types)@.len(),
        ),
        graph_nodes(*final(graph)).len() == graph_nodes(*old(graph)).len() + aggregates@.len()
            + final(mapped_builtin_types)@.len() - old(mapped_builtin_types)@.len(),
        old(mapped_builtin_types)@.len() <= final(mapped_builtin_types)@.len(),
        graph_nodes(*final(graph)).take(graph_nodes(*old(graph)).len() as int) == graph_nodes(
            *old(graph),
        ),
        forall|i: int|
            graph_nodes(*old(graph)).len() <= i < graph_nodes(*final(graph)).len() ==> {
                ||| (#[trigger] graph_nodes(*final(graph))[i]).kind == SqlGraphKind::Aggregate
                ||| graph_nodes(*final(graph))[i].kind == SqlGraphKind::BuiltinType
            },
        table_matches(graph_nodes(*final(graph)), table@, SqlGraphKind::Aggregate),
        table_matches(
            graph_nodes(*final(graph)),
            final(mapped_builtin_types)@,
            SqlGraphKind::BuiltinType,
        ),
        graph_edges(*final(graph)) == graph_edges(*old(graph)) + all_edges(
            table_anchor_parts(table@, Some(root), bootstrap, finalize),
        ),
        distinct_paths(old(mapped_builtin_types)@) ==> distinct_paths(final(mapped_builtin_types)@),
        forall|k: int|
            0 <= k < aggregates@.len() ==> all_covered(
                aggregate_uses(#[trigger] aggregates@[k]),
                mapped_types@,
                mapped_enums@,
                final(mapped_builtin_types)@,
            ),
{
    let mut uses: Vec<Vec<TypeUse>> = Vec::new();
    let mut k: usize = 0;
    while k < aggregates.len()
        invariant
            k <= aggregates.len(),
            uses@.len() == k,
            forall|j: int| 0 <= j < k ==> (#[trigger] uses@[j])@ == aggregate_uses(aggregates@[j]),
        decreases aggregates.len() - k,
    {
        uses.push(uses_of_aggregate(&aggregates[k]));
        k += 1;
    }
    let ghost all = uses_of_aggregates(aggregates@);
    proof {
        assert(each_view(uses@) =~= all);
        lemma_users_absorbed(
            mapped_builtin_types@,
            all,
            mapped_types@,
            mapped_enums@,
            graph_nodes(*graph).len() - mapped_builtin_types@.len(),
            aggregates@.len() as int,
        );
    }
    let table = initialize_users(
        graph,
        SqlGraphKind::Aggregate,
        root,
        bootstrap,
        finalize,
        aggregates,
        &uses,
        mapped_builtin_types,
        mapped_types,
        mapped_enums,
    );
    proof {
        assert forall|k: int| 0 <= k < aggregates@.len() implies all_covered(
            aggregate_uses(#[trigger] aggregates@[k]),
            mapped_types@,
            mapped_enums@,
            mapped_builtin_types@,
        ) by {
            assert(all[k] == aggregate_uses(aggregates@[k]));
        }
    }
    table
}

} // verus!
