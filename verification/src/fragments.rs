//! How schemas, SQL fragments, enumerations, types and triggers are
//! connected.

use crate::connect::{connect_requires, make_schema_connection, require_outcomes, schema_edges};
use crate::entity::{
    ExtensionSqlEntity, PgTriggerEntity, PostgresEnumEntity, PostgresTypeEntity, SchemaEntity,
};
use crate::error::BuildError;
use crate::outcome::{
    all_edges, all_outcomes, and_then, concat_edges, fold_outcomes, follows, lemma_failure_stays,
    Failure, Outcome,
};
use crate::graph::{graph_compact, graph_nodes, Edge, EntityGraph, SqlGraphRelationship};
use crate::links::{extended_by, lemma_extended_by_nothing, lemma_extended_twice, link};
use crate::tables::{in_bounds, Corpus, EntityTables};
use vstd::prelude::*;

verus! {

/// An edge from the root to every schema.
pub open spec fn root_to_schemas(schemas: Seq<(SchemaEntity, usize)>, root: usize) -> Seq<Edge> {
    Seq::new(schemas.len(), |k: int| (root, schemas[k].1, SqlGraphRelationship::RequiredBy))
}

/// Puts every schema behind the root.
pub fn connect_schemas(graph: &mut EntityGraph, schemas: &Vec<(SchemaEntity, usize)>, root: usize)
    requires
        graph_compact(*old(graph)),
        root < graph_nodes(*old(graph)).len(),
        in_bounds(schemas@, graph_nodes(*old(graph)).len()),
    ensures
        extended_by(*old(graph), *final(graph), root_to_schemas(schemas@, root)),
{
    proof {
        lemma_extended_by_nothing(*graph);
    }
    let mut k: usize = 0;
    while k < schemas.len()
        invariant
            k <= schemas.len(),
            root < graph_nodes(*old(graph)).len(),
            in_bounds(schemas@, graph_nodes(*old(graph)).len()),
            extended_by(*old(graph), *graph, root_to_schemas(schemas@, root).take(k as int)),
        decreases schemas.len() - k,
    {
        let ghost before = *graph;
        link(graph, root, schemas[k].1, SqlGraphRelationship::RequiredBy);
        proof {
            let all = root_to_schemas(schemas@, root);
            lemma_extended_twice(
                *old(graph),
                before,
                *graph,
                all.take(k as int),
                seq![(root, schemas@[k as int].1, SqlGraphRelationship::RequiredBy)],
            );
            assert(all.take(k + 1) =~= all.take(k as int) + seq![
                (root, schemas@[k as int].1, SqlGraphRelationship::RequiredBy),
            ]);
        }
        k += 1;
    }
    assert(root_to_schemas(schemas@, root).take(schemas@.len() as int) =~= root_to_schemas(
        schemas@,
        root,
    ));
}

/// What connecting the SQL fragment `sql` at the node `index` leads to: an
/// edge from the schema of its module, then what its required references
/// lead to.
pub open spec fn sql_outcome(sql: ExtensionSqlEntity, index: usize, t: Corpus) -> Outcome {
    and_then(
        Ok(schema_edges(t.schemas, sql.module@, index)),
        all_outcomes(
            require_outcomes(sql.requires@, sql.full_path, sql.file, sql.line, index, t),
        ),
    )
}

/// What connecting each SQL fragment leads to.
pub open spec fn sql_outcomes(t: Corpus) -> Seq<Outcome> {
    Seq::new(
        t.extension_sqls.len(),
        |k: int| sql_outcome(t.extension_sqls[k].0, t.extension_sqls[k].1, t),
    )
}

/// Connects every SQL fragment: to its schema and to what it requires.
/// Fails at the first required reference that names nothing.
pub fn connect_extension_sqls(graph: &mut EntityGraph, t: &EntityTables) -> (r: Result<
    (),
    BuildError,
>)
    requires
        graph_compact(*old(graph)),
        t@.all_in_bounds(graph_nodes(*old(graph)).len()),
    ensures
        follows(all_outcomes(sql_outcomes(t@)), *old(graph), *final(graph), r),
{
    let ghost steps = sql_outcomes(t@);
    let ghost mut added: Seq<Edge> = Seq::empty();
    proof {
        lemma_extended_by_nothing(*graph);
    }
    let mut k: usize = 0;
    while k < t.extension_sqls.len()
        invariant
            k <= t.extension_sqls.len(),
            steps == sql_outcomes(t@),
            t@.all_in_bounds(graph_nodes(*old(graph)).len()),
            fold_outcomes(steps, k as int) == Ok::<Seq<Edge>, Failure>(added),
            extended_by(*old(graph), *graph, added),
        decreases t.extension_sqls.len() - k,
    {
        let ghost before = *graph;
        let item = &t.extension_sqls[k].0;
        let index = t.extension_sqls[k].1;
        make_schema_connection(graph, index, &item.module, &t.schemas);
        let ghost between = *graph;
        match connect_requires(
            graph,
            &item.requires,
            &item.full_path,
            &item.file,
            item.line,
            index,
            t,
        ) {
            Ok(()) => {
                proof {
                    let by_schema = schema_edges(t.schemas@, item.module@, index);
                    let required = all_outcomes(
                        require_outcomes(
                            item.requires@,
                            item.full_path,
                            item.file,
                            item.line,
                            index,
                            t@,
                        ),
                    )->Ok_0;
                    lemma_extended_twice(before, between, *graph, by_schema, required);
                    lemma_extended_twice(*old(graph), before, *graph, added, by_schema + required);
                    added = added + (by_schema + required);
                }
            },
            Err(e) => {
                proof {
                    let by_schema = schema_edges(t.schemas@, item.module@, index);
                    let drawn = all_outcomes(
                        require_outcomes(
                            item.requires@,
                            item.full_path,
                            item.file,
                            item.line,
                            index,
                            t@,
                        ),
                    )->Err_0.drawn;
                    lemma_failure_stays(steps, k as int, t.extension_sqls@.len() as int);
                    lemma_extended_twice(before, between, *graph, by_schema, drawn);
                    lemma_extended_twice(*old(graph), before, *graph, added, by_schema + drawn);
                }
                return Err(e);
            },
        }
        k += 1;
    }
    Ok(())
}

/// The edge from its schema for each enumeration.
pub open spec fn enum_parts(
    enums: Seq<(PostgresEnumEntity, usize)>,
    schemas: Seq<(SchemaEntity, usize)>,
) -> Seq<Seq<Edge>> {
    Seq::new(enums.len(), |k: int| schema_edges(schemas, enums[k].0.module@, enums[k].1))
}

/// Puts every enumeration behind the schema of its module.
pub fn connect_enums(
    graph: &mut EntityGraph,
    enums: &Vec<(PostgresEnumEntity, usize)>,
    schemas: &Vec<(SchemaEntity, usize)>,
)
    requires
        graph_compact(*old(graph)),
        in_bounds(enums@, graph_nodes(*old(graph)).len()),
        in_bounds(schemas@, graph_nodes(*old(graph)).len()),
    ensures
        extended_by(*old(graph), *final(graph), all_edges(enum_parts(enums@, schemas@))),
{
    let ghost parts = enum_parts(enums@, schemas@);
    proof {
        lemma_extended_by_nothing(*graph);
    }
    let mut k: usize = 0;
    while k < enums.len()
        invariant
            k <= enums.len(),
            parts == enum_parts(enums@, schemas@),
            in_bounds(enums@, graph_nodes(*old(graph)).len()),
            in_bounds(schemas@, graph_nodes(*old(graph)).len()),
            extended_by(*old(graph), *graph, concat_edges(parts, k as int)),
        decreases enums.len() - k,
    {
        let ghost before = *graph;
        make_schema_connection(graph, enums[k].1, &enums[k].0.module, schemas);
        proof {
            lemma_extended_twice(
                *old(graph),
                before,
                *graph,
                concat_edges(parts, k as int),
                parts[k as int],
            );
        }
        k += 1;
    }
}

/// The edge from its schema for each type.
pub open spec fn type_parts(
    types: Seq<(PostgresTypeEntity, usize)>,
    schemas: Seq<(SchemaEntity, usize)>,
) -> Seq<Seq<Edge>> {
    Seq::new(types.len(), |k: int| schema_edges(schemas, types[k].0.module@, types[k].1))
}

/// Puts every type behind the schema of its module.
pub fn connect_types(
    graph: &mut EntityGraph,
    types: &Vec<(PostgresTypeEntity, usize)>,
    schemas: &Vec<(SchemaEntity, usize)>,
)
    requires
        graph_compact(*old(graph)),
        in_bounds(types@, graph_nodes(*old(graph)).len()),
        in_bounds(schemas@, graph_nodes(*old(graph)).len()),
    ensures
        extended_by(*old(graph), *final(graph), all_edges(type_parts(types@, schemas@))),
{
    let ghost parts = type_parts(types@, schemas@);
    proof {
        lemma_extended_by_nothing(*graph);
    }
    let mut k: usize = 0;
    while k < types.len()
        invariant
            k <= types.len(),
            parts == type_parts(types@, schemas@),
            in_bounds(types@, graph_nodes(*old(graph)).len()),
            in_bounds(schemas@, graph_nodes(*old(graph)).len()),
            extended_by(*old(graph), *graph, concat_edges(parts, k as int)),
        decreases types.len() - k,
    {
        let ghost before = *graph;
        make_schema_connection(graph, types[k].1, &types[k].0.module, schemas);
        proof {
            lemma_extended_twice(
                *old(graph),
                before,
                *graph,
                concat_edges(parts, k as int),
                parts[k as int],
            );
        }
        k += 1;
    }
}

/// The edge from its schema for each trigger.
pub open spec fn trigger_parts(
    triggers: Seq<(PgTriggerEntity, usize)>,
    schemas: Seq<(SchemaEntity, usize)>,
) -> Seq<Seq<Edge>> {
    Seq::new(
        triggers.len(),
        |k: int| schema_edges(schemas, triggers[k].0.module@, triggers[k].1),
    )
}

/// Puts every trigger behind the schema of its module.
pub fn connect_triggers(
    graph: &mut EntityGraph,
    triggers: &Vec<(PgTriggerEntity, usize)>,
    schemas: &Vec<(SchemaEntity, usize)>,
)
    requires
        graph_compact(*old(graph)),
        in_bounds(triggers@, graph_nodes(*old(graph)).len()),
        in_bounds(schemas@, graph_nodes(*old(graph)).len()),
    ensures
        extended_by(*old(graph), *final(graph), all_edges(trigger_parts(triggers@, schemas@))),
{
    let ghost parts = trigger_parts(triggers@, schemas@);
    proof {
        lemma_extended_by_nothing(*graph);
    }
    let mut k: usize = 0;
    while k < triggers.len()
        invariant
            k <= triggers.len(),
            parts == trigger_parts(triggers@, schemas@),
            in_bounds(triggers@, graph_nodes(*old(graph)).len()),
            in_bounds(schemas@, graph_nodes(*old(graph)).len()),
            extended_by(*old(graph), *graph, concat_edges(parts, k as int)),
        decreases triggers.len() - k,
    {
        let ghost before = *graph;
        make_schema_connection(graph, triggers[k].1, &triggers[k].0.module, schemas);
        proof {
            lemma_extended_twice(
                *old(graph),
                before,
                *graph,
                concat_edges(parts, k as int),
                parts[k as int],
            );
        }
        k += 1;
    }
}

} // verus!
