//! How aggregates are connected.

use crate::classes::{make_type_or_enum_connection, type_or_enum_edges};
use crate::connect::{make_schema_connection, schema_edges};
use crate::entity::{PgAggregateEntity, PgExternEntity};
use crate::error::BuildError;
use crate::outcome::{
    all_edges, all_outcomes, and_then, concat_edges, fails, fold_outcomes, follows,
    lemma_failure_stays, Failure, Outcome,
};
use crate::find::{extern_at, find_builtin, find_extern_at, path_is};
use crate::graph::{graph_compact, graph_nodes, Edge, EntityGraph, SqlGraphRelationship};
use crate::links::{
    edge_from, extended_by, lemma_extended_by_nothing, lemma_extended_twice, link, link_from_some,
};
use crate::tables::{first_where, in_bounds, lemma_first_where_in_bounds, Corpus, EntityTables};
use crate::text::{join_path, joined};
use crate::uses::{aggregate_uses, all_covered, covered, is_declared, uses_of_aggregate, TypeUse};
use vstd::prelude::*;

verus! {

/// What naming the support function `function` of the module `module` leads
/// to, for the entity `owner` at the node `index`: an edge from the first
/// function whose full path is the module and the name, or a failure where
/// there is none.
pub open spec fn support_outcome(
    owner: String,
    module: String,
    function: String,
    index: usize,
    externs: Seq<(PgExternEntity, usize)>,
) -> Outcome {
    match first_where(externs, extern_at(joined(module@, function@))) {
        Some(found) => Ok(seq![(found, index, SqlGraphRelationship::RequiredBy)]),
        None => fails(BuildError::FunctionNotFound { entity: owner, module, function }),
    }
}

/// Puts the node `index` behind the function `function` of the module
/// `module`, and fails where there is no such function.
pub fn make_extern_connection(
    graph: &mut EntityGraph,
    index: usize,
    owner: &String,
    module: &String,
    function: &String,
    externs: &Vec<(PgExternEntity, usize)>,
) -> (r: Result<(), BuildError>)
    requires
        graph_compact(*old(graph)),
        index < graph_nodes(*old(graph)).len(),
        in_bounds(externs@, graph_nodes(*old(graph)).len()),
    ensures
        follows(
            support_outcome(*owner, *module, *function, index, externs@),
            *old(graph),
            *final(graph),
            r,
        ),
{
    let full_path = join_path(module, function);
    proof {
        lemma_first_where_in_bounds(externs@, extern_at(full_path@), graph_nodes(*graph).len());
    }
    match find_extern_at(externs, &full_path) {
        Some(found) => {
            link(graph, found, index, SqlGraphRelationship::RequiredBy);
            Ok(())
        },
        None => {
            proof {
                lemma_extended_by_nothing(*graph);
            }
            Err(
                BuildError::FunctionNotFound {
                    entity: owner.clone(),
                    module: module.clone(),
                    function: function.clone(),
                },
            )
        },
    }
}

/// The support functions that an aggregate may name, in the order in which
/// they are looked up: the state function, which it always names, then the
/// final, combine, serial, deserial, moving state, moving inverse and
/// moving final functions and the sort operator.
pub open spec fn support_functions(a: PgAggregateEntity) -> Seq<Option<String>> {
    seq![
        Some(a.sfunc),
        a.finalfunc,
        a.combinefunc,
        a.serialfunc,
        a.deserialfunc,
        a.msfunc,
        a.minvfunc,
        a.mfinalfunc,
        a.sortop,
    ]
}

/// What each support function that the aggregate may name leads to.
pub open spec fn support_outcomes(a: PgAggregateEntity, index: usize, t: Corpus) -> Seq<
    Outcome,
> {
    Seq::new(
        support_functions(a).len(),
        |i: int|
            match support_functions(a)[i] {
                Some(function) => support_outcome(
                    a.full_path,
                    a.module,
                    function,
                    index,
                    t.externs,
                ),
                None => Ok(Seq::empty()),
            },
    )
}

/// The edges that one use of a type by an aggregate at the node `index`
/// adds: from the first type and the first enumeration declared under the
/// identity; where there is neither, from the placeholder of the path.
pub open spec fn aggregate_use_edges(used: TypeUse, index: usize, t: Corpus) -> Seq<Edge> {
    type_or_enum_edges(used.ty_id, index, t.types, t.enums) + (if is_declared(
        used.ty_id,
        t.types,
        t.enums,
    ) {
        Seq::empty()
    } else {
        edge_from(
            first_where(t.builtin_types, path_is(used.path@)),
            index,
            SqlGraphRelationship::RequiredByArg,
        )
    })
}

/// The edges that each use of a type by an aggregate adds.
pub open spec fn aggregate_use_parts(
    uses: Seq<TypeUse>,
    index: usize,
    t: Corpus,
) -> Seq<Seq<Edge>> {
    Seq::new(uses.len(), |i: int| aggregate_use_edges(uses[i], index, t))
}

/// The edges that an aggregate at the node `index` gets before its support
/// functions are looked up: from the schema of its module, from the type or
/// enumeration that it is declared on, and from the types that it uses.
pub open spec fn aggregate_edges(a: PgAggregateEntity, index: usize, t: Corpus) -> Seq<
    Edge,
> {
    schema_edges(t.schemas, a.module@, index) + type_or_enum_edges(
        a.ty_id,
        index,
        t.types,
        t.enums,
    ) + all_edges(aggregate_use_parts(aggregate_uses(a), index, t))
}

/// What connecting the aggregate `a` at the node `index` leads to.
pub open spec fn aggregate_outcome(a: PgAggregateEntity, index: usize, t: Corpus) -> Outcome {
    and_then(Ok(aggregate_edges(a, index, t)), all_outcomes(support_outcomes(a, index, t)))
}

/// What connecting each aggregate leads to.
pub open spec fn aggregate_outcomes(t: Corpus) -> Seq<Outcome> {
    Seq::new(
        t.aggregates.len(),
        |k: int| aggregate_outcome(t.aggregates[k].0, t.aggregates[k].1, t),
    )
}

/// Whether every type that an aggregate uses is declared or has a
/// placeholder.
pub open spec fn aggregates_covered(t: Corpus) -> bool {
    forall|k: int|
        0 <= k < t.aggregates.len() ==> all_covered(
            aggregate_uses((#[trigger] t.aggregates[k]).0),
            t.types,
            t.enums,
            t.builtin_types,
        )
}

/// Puts the aggregate at the node `index` behind a type that it uses.
pub fn connect_aggregate_use(
    graph: &mut EntityGraph,
    used: &TypeUse,
    index: usize,
    t: &EntityTables,
)
    requires
        graph_compact(*old(graph)),
        index < graph_nodes(*old(graph)).len(),
        t@.all_in_bounds(graph_nodes(*old(graph)).len()),
        covered(*used, t.types@, t.enums@, t.builtin_types@),
    ensures
        extended_by(*old(graph), *final(graph), aggregate_use_edges(*used, index, t@)),
{
    let found = make_type_or_enum_connection(graph, index, used.ty_id, &t.types, &t.enums);
    let ghost between = *graph;
    if !found {
        let builtin = find_builtin(&t.builtin_types, &used.path);
        proof {
            lemma_first_where_in_bounds(
                t.builtin_types@,
                path_is(used.path@),
                graph_nodes(*graph).len(),
            );
        }
        link_from_some(graph, builtin, index, SqlGraphRelationship::RequiredByArg);
    }
    proof {
        if found {
            lemma_extended_by_nothing(*graph);
        }
        lemma_extended_twice(
            *old(graph),
            between,
            *graph,
            type_or_enum_edges(used.ty_id, index, t.types@, t.enums@),
            if found {
                Seq::empty()
            } else {
                edge_from(
                    first_where(t.builtin_types@, path_is(used.path@)),
                    index,
                    SqlGraphRelationship::RequiredByArg,
                )
            },
        );
    }
}

/// A copy of a name that may be there.
fn copy_name(name: &Option<String>) -> (copy: Option<String>)
    ensures
        copy == *name,
{
    match name {
        Some(s) => Some(s.clone()),
        None => None,
    }
}

/// The support functions that an aggregate may name.
pub fn supports_of(a: &PgAggregateEntity) -> (supports: Vec<Option<String>>)
    ensures
        supports@ == support_functions(*a),
{
    let mut supports: Vec<Option<String>> = Vec::new();
    supports.push(Some(a.sfunc.clone()));
    supports.push(copy_name(&a.finalfunc));
    supports.push(copy_name(&a.combinefunc));
    supports.push(copy_name(&a.serialfunc));
    supports.push(copy_name(&a.deserialfunc));
    supports.push(copy_name(&a.msfunc));
    supports.push(copy_name(&a.minvfunc));
    supports.push(copy_name(&a.mfinalfunc));
    supports.push(copy_name(&a.sortop));
    supports
}

/// Connects the aggregate `a` at the node `index`.
pub fn connect_aggregate(
    graph: &mut EntityGraph,
    a: &PgAggregateEntity,
    index: usize,
    t: &EntityTables,
) -> (r: Result<(), BuildError>)
    requires
        graph_compact(*old(graph)),
        index < graph_nodes(*old(graph)).len(),
        t@.all_in_bounds(graph_nodes(*old(graph)).len()),
        all_covered(aggregate_uses(*a), t.types@, t.enums@, t.builtin_types@),
    ensures
        follows(aggregate_outcome(*a, index, t@), *old(graph), *final(graph), r),
{
    make_schema_connection(graph, index, &a.module, &t.schemas);
    let ghost first = *graph;
    make_type_or_enum_connection(graph, index, a.ty_id, &t.types, &t.enums);
    let ghost by_schema = schema_edges(t.schemas@, a.module@, index);
    let ghost by_type = type_or_enum_edges(a.ty_id, index, t.types@, t.enums@);
    proof {
        lemma_extended_twice(*old(graph), first, *graph, by_schema, by_type);
    }
    let uses = uses_of_aggregate(a);
    let ghost parts = aggregate_use_parts(uses@, index, t@);
    let ghost second = *graph;
    proof {
        lemma_extended_by_nothing(*graph);
    }
    let mut i: usize = 0;
    while i < uses.len()
        invariant
            i <= uses.len(),
            parts == aggregate_use_parts(uses@, index, t@),
            index < graph_nodes(*old(graph)).len(),
            t@.all_in_bounds(graph_nodes(*old(graph)).len()),
            graph_nodes(second) == graph_nodes(*old(graph)),
            all_covered(uses@, t.types@, t.enums@, t.builtin_types@),
            extended_by(second, *graph, concat_edges(parts, i as int)),
        decreases uses.len() - i,
    {
        let ghost before = *graph;
        connect_aggregate_use(graph, &uses[i], index, t);
        proof {
            lemma_extended_twice(
                second,
                before,
                *graph,
                concat_edges(parts, i as int),
                parts[i as int],
            );
        }
        i += 1;
    }
    let ghost third = *graph;
    let ghost by_uses = all_edges(parts);
    proof {
        lemma_extended_twice(*old(graph), second, third, by_schema + by_type, by_uses);
    }
    let supports = supports_of(a);
    let ghost steps = support_outcomes(*a, index, t@);
    let ghost mut added: Seq<Edge> = Seq::empty();
    proof {
        lemma_extended_by_nothing(*graph);
    }
    let mut j: usize = 0;
    while j < supports.len()
        invariant
            j <= supports.len(),
            supports@ == support_functions(*a),
            steps == support_outcomes(*a, index, t@),
            index < graph_nodes(*old(graph)).len(),
            t@.all_in_bounds(graph_nodes(*old(graph)).len()),
            graph_nodes(third) == graph_nodes(*old(graph)),
            fold_outcomes(steps, j as int) == Ok::<Seq<Edge>, Failure>(added),
            extended_by(third, *graph, added),
            extended_by(*old(graph), third, by_schema + by_type + by_uses),
            by_schema + by_type + by_uses == aggregate_edges(*a, index, t@),
        decreases supports.len() - j,
    {
        let ghost before = *graph;
        match &supports[j] {
            Some(function) => {
                match make_extern_connection(
                    graph,
                    index,
                    &a.full_path,
                    &a.module,
                    function,
                    &t.externs,
                ) {
                    Ok(()) => {
                        proof {
                            let new = steps[j as int]->Ok_0;
                            lemma_extended_twice(third, before, *graph, added, new);
                            added = added + new;
                        }
                    },
                    Err(e) => {
                        proof {
                            lemma_failure_stays(steps, j as int, supports@.len() as int);
                            let drawn = steps[j as int]->Err_0.drawn;
                            lemma_extended_twice(third, before, *graph, added, drawn);
                            lemma_extended_twice(
                                *old(graph),
                                third,
                                *graph,
                                by_schema + by_type + by_uses,
                                added + drawn,
                            );
                        }
                        return Err(e);
                    },
                }
            },
            None => {},
        }
        j += 1;
    }
    proof {
        lemma_extended_twice(*old(graph), third, *graph, by_schema + by_type + by_uses, added);
    }
    Ok(())
}

/// Connects every aggregate: to its schema, to the type that it is declared
/// on, to the types that it uses and to its support functions. Fails at the
/// first support function that is named and not there.
pub fn connect_aggregates(graph: &mut EntityGraph, t: &EntityTables) -> (r: Result<
    (),
    BuildError,
>)
    requires
        graph_compact(*old(graph)),
        t@.all_in_bounds(graph_nodes(*old(graph)).len()),
        aggregates_covered(t@),
    ensures
        follows(all_outcomes(aggregate_outcomes(t@)), *old(graph), *final(graph), r),
{
    let ghost steps = aggregate_outcomes(t@);
    let ghost mut added: Seq<Edge> = Seq::empty();
    proof {
        lemma_extended_by_nothing(*graph);
    }
    let mut k: usize = 0;
    while k < t.aggregates.len()
        invariant
            k <= t.aggregates.len(),
            steps == aggregate_outcomes(t@),
            t@.all_in_bounds(graph_nodes(*old(graph)).len()),
            aggregates_covered(t@),
            fold_outcomes(steps, k as int) == Ok::<Seq<Edge>, Failure>(added),
            extended_by(*old(graph), *graph, added),
        decreases t.aggregates.len() - k,
    {
        let ghost before = *graph;
        match connect_aggregate(graph, &t.aggregates[k].0, t.aggregates[k].1, t) {
            Ok(()) => {
                proof {
                    let new = steps[k as int]->Ok_0;
                    lemma_extended_twice(*old(graph), before, *graph, added, new);
                    added = added + new;
                }
            },
            Err(e) => {
                proof {
                    lemma_failure_stays(steps, k as int, t.aggregates@.len() as int);
                    lemma_extended_twice(
                        *old(graph),
                        before,
                        *graph,
                        added,
                        steps[k as int]->Err_0.drawn,
                    );
                }
                return Err(e);
            },
        }
        k += 1;
    }
    Ok(())
}

} // verus!
