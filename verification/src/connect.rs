//! The rules by which edges are drawn between the nodes of entities.

use crate::entity::{ExternArgs, PgExternEntity, PositioningRef, SchemaEntity};
use crate::error::BuildError;
use crate::outcome::{
    all_edges, all_outcomes, and_then, concat_edges, fails, fold_outcomes, follows,
    lemma_failure_stays, Failure, Outcome,
};
use crate::find::{
    enum_with, find_builtin, find_enum, find_hashes_with_equality, find_schema_in,
    find_schemas_named, find_sqls_declaring, find_type, hash_with_equality, path_is, schema_in,
    schema_named, sql_declaring, type_with,
};
use crate::graph::{graph_compact, graph_nodes, Edge, EntityGraph, SqlGraphRelationship};
use crate::links::{
    edge_from, edges_from, edges_to, extended_by, lemma_extended_by_nothing, lemma_extended_twice,
    link, link_from_all, link_from_some, link_to_all,
};
use crate::resolve::{find_positioning_ref_target, lemma_resolve_in_bounds, resolve};
use crate::tables::{
    all_where, first_where, in_bounds, lemma_first_where_in_bounds, lemma_matching_in_bounds,
    Corpus, EntityTables,
};
use crate::uses::{all_covered, covered, extern_uses, uses_of_extern, TypeUse};
use vstd::prelude::*;

verus! {

/// The edge that puts a node behind the schema of its module: from the first
/// schema that `module` declares, if there is one.
pub open spec fn schema_edges(
    schemas: Seq<(SchemaEntity, usize)>,
    module: Seq<char>,
    index: usize,
) -> Seq<Edge> {
    edge_from(first_where(schemas, schema_in(module)), index, SqlGraphRelationship::RequiredBy)
}

/// Puts the node `index` behind the first schema that its module declares.
/// Says whether there is such a schema.
pub fn make_schema_connection(
    graph: &mut EntityGraph,
    index: usize,
    module: &String,
    schemas: &Vec<(SchemaEntity, usize)>,
) -> (found: bool)
    requires
        graph_compact(*old(graph)),
        index < graph_nodes(*old(graph)).len(),
        in_bounds(schemas@, graph_nodes(*old(graph)).len()),
    ensures
        found == first_where(schemas@, schema_in(module@)) is Some,
        extended_by(*old(graph), *final(graph), schema_edges(schemas@, module@, index)),
{
    let schema = find_schema_in(schemas, module);
    proof {
        lemma_first_where_in_bounds(schemas@, schema_in(module@), graph_nodes(*graph).len());
    }
    link_from_some(graph, schema, index, SqlGraphRelationship::RequiredBy);
    schema.is_some()
}

/// What a reference names among the entities of the tables.
pub open spec fn target_of(t: Corpus, positioning_ref: PositioningRef) -> Option<usize> {
    resolve(
        positioning_ref,
        t.types,
        t.enums,
        t.externs,
        t.schemas,
        t.extension_sqls,
        t.triggers,
    )
}

/// What one required reference of the entity `owner` leads to: an edge from
/// what it names to the node `index`, or a failure where it names nothing.
pub open spec fn require_outcome(
    positioning_ref: PositioningRef,
    owner: String,
    file: String,
    line: u32,
    index: usize,
    t: Corpus,
) -> Outcome {
    match target_of(t, positioning_ref) {
        Some(target) => Ok(seq![(target, index, SqlGraphRelationship::RequiredBy)]),
        None => fails(
            BuildError::RequiresNotFound { entity: owner, file, line, reference: positioning_ref },
        ),
    }
}

/// What each required reference of an entity leads to.
pub open spec fn require_outcomes(
    refs: Seq<PositioningRef>,
    owner: String,
    file: String,
    line: u32,
    index: usize,
    t: Corpus,
) -> Seq<Outcome> {
    Seq::new(refs.len(), |j: int| require_outcome(refs[j], owner, file, line, index, t))
}

/// A copy of a reference.
pub fn copy_ref(positioning_ref: &PositioningRef) -> (copy: PositioningRef)
    ensures
        copy == *positioning_ref,
{
    match positioning_ref {
        PositioningRef::FullPath(path) => PositioningRef::FullPath(path.clone()),
        PositioningRef::Name(name) => PositioningRef::Name(name.clone()),
    }
}

/// Puts the node `index` behind everything that the references name, in
/// their order, and fails at the first that names nothing.
pub fn connect_requires(
    graph: &mut EntityGraph,
    refs: &Vec<PositioningRef>,
    owner: &String,
    file: &String,
    line: u32,
    index: usize,
    t: &EntityTables,
) -> (r: Result<(), BuildError>)
    requires
        graph_compact(*old(graph)),
        index < graph_nodes(*old(graph)).len(),
        t@.all_in_bounds(graph_nodes(*old(graph)).len()),
    ensures
        follows(
            all_outcomes(require_outcomes(refs@, *owner, *file, line, index, t@)),
            *old(graph),
            *final(graph),
            r,
        ),
{
    let ghost steps = require_outcomes(refs@, *owner, *file, line, index, t@);
    let ghost mut added: Seq<Edge> = Seq::empty();
    proof {
        lemma_extended_by_nothing(*graph);
    }
    let mut j: usize = 0;
    while j < refs.len()
        invariant
            j <= refs.len(),
            steps == require_outcomes(refs@, *owner, *file, line, index, t@),
            index < graph_nodes(*old(graph)).len(),
            t@.all_in_bounds(graph_nodes(*old(graph)).len()),
            fold_outcomes(steps, j as int) == Ok::<Seq<Edge>, Failure>(added),
            extended_by(*old(graph), *graph, added),
        decreases refs.len() - j,
    {
        let target = find_positioning_ref_target(
            &refs[j],
            &t.types,
            &t.enums,
            &t.externs,
            &t.schemas,
            &t.extension_sqls,
            &t.triggers,
        );
        match target {
            Some(target) => {
                proof {
                    lemma_resolve_in_bounds(
                        refs@[j as int],
                        t.types@,
                        t.enums@,
                        t.externs@,
                        t.schemas@,
                        t.extension_sqls@,
                        t.triggers@,
                        graph_nodes(*graph).len(),
                    );
                }
                let ghost before = *graph;
                link(graph, target, index, SqlGraphRelationship::RequiredBy);
                proof {
                    let new = seq![(target, index, SqlGraphRelationship::RequiredBy)];
                    lemma_extended_twice(*old(graph), before, *graph, added, new);
                    added = added + new;
                }
            },
            None => {
                proof {
                    lemma_failure_stays(steps, j as int, refs@.len() as int);
                }
                return Err(
                    BuildError::RequiresNotFound {
                        entity: owner.clone(),
                        file: file.clone(),
                        line,
                        reference: copy_ref(&refs[j]),
                    },
                );
            },
        }
        j += 1;
    }
    Ok(())
}

/// The edges that one use of a type by the node `index` adds: from the
/// first type declared under the identity; else from the first such
/// enumeration; else from the placeholder of the path, and from every SQL
/// fragment that declares a type or an enumeration under the path.
pub open spec fn use_edges(used: TypeUse, index: usize, t: Corpus) -> Seq<Edge> {
    match first_where(t.types, type_with(used.ty_id)) {
        Some(ty) => seq![(ty, index, used.relationship)],
        None => match first_where(t.enums, enum_with(used.ty_id)) {
            Some(en) => seq![(en, index, used.relationship)],
            None => edge_from(
                first_where(t.builtin_types, path_is(used.path@)),
                index,
                used.relationship,
            ) + edges_from(
                all_where(t.extension_sqls, sql_declaring(used.path@)),
                index,
                SqlGraphRelationship::RequiredByArg,
            ),
        },
    }
}

/// The edges that each use adds.
pub open spec fn uses_parts(uses: Seq<TypeUse>, index: usize, t: Corpus) -> Seq<Seq<Edge>> {
    Seq::new(uses.len(), |i: int| use_edges(uses[i], index, t))
}

/// Puts the node `index` behind the type that it uses.
pub fn connect_use(graph: &mut EntityGraph, used: &TypeUse, index: usize, t: &EntityTables)
    requires
        graph_compact(*old(graph)),
        index < graph_nodes(*old(graph)).len(),
        t@.all_in_bounds(graph_nodes(*old(graph)).len()),
        covered(*used, t.types@, t.enums@, t.builtin_types@),
    ensures
        extended_by(*old(graph), *final(graph), use_edges(*used, index, t@)),
{
    let ghost n = graph_nodes(*graph).len();
    proof {
        lemma_first_where_in_bounds(t.types@, type_with(used.ty_id), n);
        lemma_first_where_in_bounds(t.enums@, enum_with(used.ty_id), n);
        lemma_first_where_in_bounds(t.builtin_types@, path_is(used.path@), n);
        lemma_matching_in_bounds(
            t.extension_sqls@,
            sql_declaring(used.path@),
            t.extension_sqls@.len() as int,
            n,
        );
    }
    match find_type(&t.types, used.ty_id) {
        Some(ty) => link(graph, ty, index, used.relationship),
        None => match find_enum(&t.enums, used.ty_id) {
            Some(en) => link(graph, en, index, used.relationship),
            None => {
                let builtin = find_builtin(&t.builtin_types, &used.path);
                link_from_some(graph, builtin, index, used.relationship);
                let ghost between = *graph;
                let sqls = find_sqls_declaring(&t.extension_sqls, &used.path);
                link_from_all(graph, &sqls, index, SqlGraphRelationship::RequiredByArg);
                proof {
                    lemma_extended_twice(
                        *old(graph),
                        between,
                        *graph,
                        edge_from(builtin, index, used.relationship),
                        edges_from(sqls@, index, SqlGraphRelationship::RequiredByArg),
                    );
                }
            },
        },
    }
}

/// Puts the node `index` behind each type that it uses, in the order of the
/// uses.
pub fn connect_uses(graph: &mut EntityGraph, uses: &Vec<TypeUse>, index: usize, t: &EntityTables)
    requires
        graph_compact(*old(graph)),
        index < graph_nodes(*old(graph)).len(),
        t@.all_in_bounds(graph_nodes(*old(graph)).len()),
        all_covered(uses@, t.types@, t.enums@, t.builtin_types@),
    ensures
        extended_by(*old(graph), *final(graph), all_edges(uses_parts(uses@, index, t@))),
{
    let ghost parts = uses_parts(uses@, index, t@);
    proof {
        lemma_extended_by_nothing(*graph);
    }
    let mut i: usize = 0;
    while i < uses.len()
        invariant
            i <= uses.len(),
            parts == uses_parts(uses@, index, t@),
            index < graph_nodes(*old(graph)).len(),
            t@.all_in_bounds(graph_nodes(*old(graph)).len()),
            all_covered(uses@, t.types@, t.enums@, t.builtin_types@),
            extended_by(*old(graph), *graph, concat_edges(parts, i as int)),
        decreases uses.len() - i,
    {
        let ghost before = *graph;
        connect_use(graph, &uses[i], index, t);
        proof {
            lemma_extended_twice(
                *old(graph),
                before,
                *graph,
                concat_edges(parts, i as int),
                parts[i as int],
            );
        }
        i += 1;
    }
}

/// Whether the attribute names a schema that there is.
pub open spec fn names_schema(attr: ExternArgs, schemas: Seq<(SchemaEntity, usize)>) -> bool {
    attr matches ExternArgs::Schema(name) && all_where(schemas, schema_named(name@)).len() > 0
}

/// Whether one of the first `n` attributes names a schema that there is.
pub open spec fn schema_declared(
    attrs: Seq<ExternArgs>,
    schemas: Seq<(SchemaEntity, usize)>,
    n: int,
) -> bool {
    exists|i: int| 0 <= i < n && names_schema(#[trigger] attrs[i], schemas)
}

/// What attribute `j` of the function `f` at the node `index` leads to. A
/// list of required references: see `require_outcome`. The name of a schema:
/// an edge from every schema of that name, and a failure where there is
/// none, whatever the attributes before this one named. Any other
/// attribute: nothing.
pub open spec fn attr_outcome(f: PgExternEntity, j: int, index: usize, t: Corpus) -> Outcome {
    match f.extern_attrs@[j] {
        ExternArgs::Requires(refs) => all_outcomes(
            require_outcomes(refs@, f.full_path, f.file, f.line, index, t),
        ),
        ExternArgs::Schema(name) => if all_where(t.schemas, schema_named(name@)).len() == 0 {
            fails(BuildError::SchemaNotFound { entity: f.full_path, schema: name })
        } else {
            Ok(
                edges_from(
                    all_where(t.schemas, schema_named(name@)),
                    index,
                    SqlGraphRelationship::RequiredBy,
                ),
            )
        },
        _ => Ok(Seq::empty()),
    }
}

/// What each attribute of the function leads to.
pub open spec fn attr_outcomes(f: PgExternEntity, index: usize, t: Corpus) -> Seq<Outcome> {
    Seq::new(f.extern_attrs@.len(), |j: int| attr_outcome(f, j, index, t))
}

/// Follows the attributes of the function `f` at the node `index`, in their
/// order, and fails at the first that cannot be followed. Says whether one
/// of them named a schema, in which case the schema of the module is not
/// used.
pub fn connect_attrs(
    graph: &mut EntityGraph,
    f: &PgExternEntity,
    index: usize,
    t: &EntityTables,
) -> (r: Result<bool, BuildError>)
    requires
        graph_compact(*old(graph)),
        index < graph_nodes(*old(graph)).len(),
        t@.all_in_bounds(graph_nodes(*old(graph)).len()),
    ensures
        follows(all_outcomes(attr_outcomes(*f, index, t@)), *old(graph), *final(graph), r),
        r matches Ok(found) ==> found == schema_declared(
            f.extern_attrs@,
            t.schemas@,
            f.extern_attrs@.len() as int,
        ),
{
    let ghost steps = attr_outcomes(*f, index, t@);
    let ghost mut added: Seq<Edge> = Seq::empty();
    proof {
        lemma_extended_by_nothing(*graph);
    }
    let mut found = false;
    let mut j: usize = 0;
    while j < f.extern_attrs.len()
        invariant
            j <= f.extern_attrs.len(),
            steps == attr_outcomes(*f, index, t@),
            index < graph_nodes(*old(graph)).len(),
            t@.all_in_bounds(graph_nodes(*old(graph)).len()),
            found == schema_declared(f.extern_attrs@, t.schemas@, j as int),
            fold_outcomes(steps, j as int) == Ok::<Seq<Edge>, Failure>(added),
            extended_by(*old(graph), *graph, added),
        decreases f.extern_attrs.len() - j,
    {
        let ghost before = *graph;
        let ghost attrs = f.extern_attrs@;
        match &f.extern_attrs[j] {
            ExternArgs::Requires(refs) => {
                match connect_requires(graph, refs, &f.full_path, &f.file, f.line, index, t) {
                    Ok(()) => {
                        proof {
                            let new = steps[j as int]->Ok_0;
                            lemma_extended_twice(*old(graph), before, *graph, added, new);
                            added = added + new;
                        }
                    },
                    Err(e) => {
                        proof {
                            lemma_failure_stays(steps, j as int, attrs.len() as int);
                            lemma_extended_twice(
                                *old(graph),
                                before,
                                *graph,
                                added,
                                steps[j as int]->Err_0.drawn,
                            );
                        }
                        return Err(e);
                    },
                }
            },
            ExternArgs::Schema(name) => {
                let named = find_schemas_named(&t.schemas, name);
                proof {
                    lemma_matching_in_bounds(
                        t.schemas@,
                        schema_named(name@),
                        t.schemas@.len() as int,
                        graph_nodes(*graph).len(),
                    );
                }
                if named.len() == 0 {
                    proof {
                        lemma_failure_stays(steps, j as int, attrs.len() as int);
                        assert(added + Seq::<Edge>::empty() =~= added);
                    }
                    return Err(
                        BuildError::SchemaNotFound {
                            entity: f.full_path.clone(),
                            schema: name.clone(),
                        },
                    );
                }
                link_from_all(graph, &named, index, SqlGraphRelationship::RequiredBy);
                found = true;
                proof {
                    let new = edges_from(named@, index, SqlGraphRelationship::RequiredBy);
                    lemma_extended_twice(*old(graph), before, *graph, added, new);
                    added = added + new;
                }
            },
            _ => {},
        }
        j += 1;
    }
    Ok(found)
}

/// The edges that a function at the node `index` gets once its attributes
/// are followed: from the schema of its module, unless an attribute named a
/// schema that there is; to every hash operator class whose equality
/// function it is; from the types that it uses.
pub open spec fn extern_rest(f: PgExternEntity, index: usize, t: Corpus) -> Seq<Edge> {
    (if schema_declared(f.extern_attrs@, t.schemas, f.extern_attrs@.len() as int) {
        Seq::empty()
    } else {
        schema_edges(t.schemas, f.module@, index)
    }) + edges_to(
        index,
        all_where(t.hashes, hash_with_equality(f.module@, f.name@)),
        SqlGraphRelationship::RequiredBy,
    ) + all_edges(uses_parts(extern_uses(f), index, t))
}

/// What connecting the function `f` at the node `index` leads to.
pub open spec fn extern_outcome(f: PgExternEntity, index: usize, t: Corpus) -> Outcome {
    and_then(all_outcomes(attr_outcomes(f, index, t)), Ok(extern_rest(f, index, t)))
}

/// What connecting each function leads to.
pub open spec fn extern_outcomes(t: Corpus) -> Seq<Outcome> {
    Seq::new(t.externs.len(), |k: int| extern_outcome(t.externs[k].0, t.externs[k].1, t))
}

/// Whether every type that a function uses is declared or has a
/// placeholder.
pub open spec fn externs_covered(t: Corpus) -> bool {
    forall|k: int|
        0 <= k < t.externs.len() ==> all_covered(
            extern_uses((#[trigger] t.externs[k]).0),
            t.types,
            t.enums,
            t.builtin_types,
        )
}

/// Connects the function `f` at the node `index`.
pub fn connect_extern(
    graph: &mut EntityGraph,
    f: &PgExternEntity,
    index: usize,
    t: &EntityTables,
) -> (r: Result<(), BuildError>)
    requires
        graph_compact(*old(graph)),
        index < graph_nodes(*old(graph)).len(),
        t@.all_in_bounds(graph_nodes(*old(graph)).len()),
        all_covered(extern_uses(*f), t.types@, t.enums@, t.builtin_types@),
    ensures
        follows(extern_outcome(*f, index, t@), *old(graph), *final(graph), r),
{
    let ghost n = graph_nodes(*graph).len();
    let found = match connect_attrs(graph, f, index, t) {
        Ok(found) => found,
        Err(e) => {
            return Err(e);
        },
    };
    let ghost first = *graph;
    let ghost by_attrs = all_outcomes(attr_outcomes(*f, index, t@))->Ok_0;
    if !found {
        make_schema_connection(graph, index, &f.module, &t.schemas);
    }
    let ghost second = *graph;
    let ghost by_schema = if found {
        Seq::<Edge>::empty()
    } else {
        schema_edges(t.schemas@, f.module@, index)
    };
    proof {
        if found {
            lemma_extended_by_nothing(*graph);
        }
        lemma_extended_twice(*old(graph), first, second, by_attrs, by_schema);
    }
    let hashes = find_hashes_with_equality(&t.hashes, &f.module, &f.name);
    proof {
        lemma_matching_in_bounds(
            t.hashes@,
            hash_with_equality(f.module@, f.name@),
            t.hashes@.len() as int,
            n,
        );
    }
    link_to_all(graph, index, &hashes, SqlGraphRelationship::RequiredBy);
    let ghost third = *graph;
    let ghost by_hashes = edges_to(index, hashes@, SqlGraphRelationship::RequiredBy);
    proof {
        lemma_extended_twice(*old(graph), second, third, by_attrs + by_schema, by_hashes);
    }
    let uses = uses_of_extern(f);
    connect_uses(graph, &uses, index, t);
    proof {
        let by_uses = all_edges(uses_parts(uses@, index, t@));
        lemma_extended_twice(
            *old(graph),
            third,
            *graph,
            by_attrs + by_schema + by_hashes,
            by_uses,
        );
        assert(by_attrs + by_schema + by_hashes + by_uses =~= by_attrs + (by_schema + by_hashes
            + by_uses));
    }
    Ok(())
}

/// Connects every function: to what its attributes require, to its schema,
/// to the hash operator classes that it serves, to the types that it uses.
/// Fails at the first attribute that cannot be followed.
pub fn connect_externs(graph: &mut EntityGraph, t: &EntityTables) -> (r: Result<(), BuildError>)
    requires
        graph_compact(*old(graph)),
        t@.all_in_bounds(graph_nodes(*old(graph)).len()),
        externs_covered(t@),
    ensures
        follows(all_outcomes(extern_outcomes(t@)), *old(graph), *final(graph), r),
{
    let ghost steps = extern_outcomes(t@);
    let ghost mut added: Seq<Edge> = Seq::empty();
    proof {
        lemma_extended_by_nothing(*graph);
    }
    let mut k: usize = 0;
    while k < t.externs.len()
        invariant
            k <= t.externs.len(),
            steps == extern_outcomes(t@),
            t@.all_in_bounds(graph_nodes(*old(graph)).len()),
            externs_covered(t@),
            fold_outcomes(steps, k as int) == Ok::<Seq<Edge>, Failure>(added),
            extended_by(*old(graph), *graph, added),
        decreases t.externs.len() - k,
    {
        let ghost before = *graph;
        match connect_extern(graph, &t.externs[k].0, t.externs[k].1, t) {
            Ok(()) => {
                proof {
                    let new = steps[k as int]->Ok_0;
                    lemma_extended_twice(*old(graph), before, *graph, added, new);
                    added = added + new;
                }
            },
            Err(e) => {
                proof {
                    lemma_failure_stays(steps, k as int, t.externs@.len() as int);
                    lemma_extended_twice(
                        *old(graph),
                        before,
                        *graph,
                        added,
                        steps[k as int]->Err_0.drawn,
                    );
                }
                return Err(e);
            },
        }
        k += 1;
    }
    Ok(())
}

} // verus!
