//! How operator classes are connected: those that order a type and those
//! that hash it.

use crate::connect::{make_schema_connection, schema_edges};
use crate::entity::{
    PgExternEntity, PostgresEnumEntity, PostgresHashEntity, PostgresOrdEntity, PostgresTypeEntity,
};
use crate::outcome::{all_edges, concat_edges};
use crate::find::{
    enum_with, extern_called, find_enum, find_extern_called, find_type, is_suffixed, type_with,
};
use crate::graph::{graph_compact, graph_nodes, Edge, EntityGraph, SqlGraphRelationship};
use crate::links::{
    edge_from, edges_from, extended_by, lemma_extended_by_nothing, lemma_extended_twice,
    link_from_all, link_from_some,
};
use crate::tables::{
    all_where, first_where, in_bounds, lemma_first_where_in_bounds, lemma_matching_in_bounds,
    matching, Corpus, EntityTables,
};
use crate::text::{lowercase_of, to_lowercase, with_suffix};
use crate::uses::is_declared;
use vstd::prelude::*;

verus! {

/// The edges that put a node behind what is declared under the identity
/// `id`: from the first such type, and from the first such enumeration.
pub open spec fn type_or_enum_edges(
    id: u64,
    index: usize,
    types: Seq<(PostgresTypeEntity, usize)>,
    enums: Seq<(PostgresEnumEntity, usize)>,
) -> Seq<Edge> {
    edge_from(first_where(types, type_with(id)), index, SqlGraphRelationship::RequiredBy)
        + edge_from(first_where(enums, enum_with(id)), index, SqlGraphRelationship::RequiredBy)
}

/// Puts the node `index` behind the first type and the first enumeration
/// declared under the identity `ty_id`. Says whether there is one.
pub fn make_type_or_enum_connection(
    graph: &mut EntityGraph,
    index: usize,
    ty_id: u64,
    types: &Vec<(PostgresTypeEntity, usize)>,
    enums: &Vec<(PostgresEnumEntity, usize)>,
) -> (found: bool)
    requires
        graph_compact(*old(graph)),
        index < graph_nodes(*old(graph)).len(),
        in_bounds(types@, graph_nodes(*old(graph)).len()),
        in_bounds(enums@, graph_nodes(*old(graph)).len()),
    ensures
        found == is_declared(ty_id, types@, enums@),
        extended_by(
            *old(graph),
            *final(graph),
            type_or_enum_edges(ty_id, index, types@, enums@),
        ),
{
    let ghost n = graph_nodes(*graph).len();
    proof {
        lemma_first_where_in_bounds(types@, type_with(ty_id), n);
        lemma_first_where_in_bounds(enums@, enum_with(ty_id), n);
    }
    let ty = find_type(types, ty_id);
    link_from_some(graph, ty, index, SqlGraphRelationship::RequiredBy);
    let ghost between = *graph;
    let en = find_enum(enums, ty_id);
    link_from_some(graph, en, index, SqlGraphRelationship::RequiredBy);
    proof {
        lemma_extended_twice(
            *old(graph),
            between,
            *graph,
            edge_from(ty, index, SqlGraphRelationship::RequiredBy),
            edge_from(en, index, SqlGraphRelationship::RequiredBy),
        );
    }
    ty.is_some() || en.is_some()
}

/// Whether `name` is the name of one of the six functions that compare for
/// an operator class whose lower-case name is `lowered`.
pub open spec fn is_comparison_name(lowered: Seq<char>, name: Seq<char>) -> bool {
    ||| name == lowered + "_cmp"@
    ||| name == lowered + "_lt"@
    ||| name == lowered + "_le"@
    ||| name == lowered + "_eq"@
    ||| name == lowered + "_gt"@
    ||| name == lowered + "_ge"@
}

/// Whether `name` is the name of one of the six functions that compare for
/// an operator class whose lower-case name is `lowered`.
pub fn is_comparison(lowered: &String, name: &String) -> (r: bool)
    ensures
        r == is_comparison_name(lowered@, name@),
{
    is_suffixed(name, lowered, "_cmp") || is_suffixed(name, lowered, "_lt") || is_suffixed(
        name,
        lowered,
        "_le",
    ) || is_suffixed(name, lowered, "_eq") || is_suffixed(name, lowered, "_gt") || is_suffixed(
        name,
        lowered,
        "_ge",
    )
}

/// Functions of the module `module` that compare for an operator class
/// whose lower-case name is `lowered`.
pub open spec fn comparison_of(module: Seq<char>, lowered: Seq<char>) -> spec_fn(
    PgExternEntity,
) -> bool {
    |f: PgExternEntity| f.module@ == module && is_comparison_name(lowered, f.name@)
}

/// Every function of the module `module` that compares for an operator
/// class whose lower-case name is `lowered`.
pub fn find_comparisons(
    externs: &Vec<(PgExternEntity, usize)>,
    module: &String,
    lowered: &String,
) -> (r: Vec<usize>)
    ensures
        r@ == all_where(externs@, comparison_of(module@, lowered@)),
{
    let mut found: Vec<usize> = Vec::new();
    let mut i: usize = 0;
    while i < externs.len()
        invariant
            i <= externs.len(),
            found@ == matching(externs@, comparison_of(module@, lowered@), i as int),
        decreases externs.len() - i,
    {
        if *module == externs[i].0.module && is_comparison(lowered, &externs[i].0.name) {
            found.push(externs[i].1);
        }
        i += 1;
    }
    found
}

/// The edges that an ordering operator class at the node `index` gets: from
/// the schema of its module, from the type or enumeration that it orders,
/// and from every function of its module that compares for it.
pub open spec fn ord_edges(o: PostgresOrdEntity, index: usize, t: Corpus) -> Seq<Edge> {
    schema_edges(t.schemas, o.module@, index) + type_or_enum_edges(
        o.id,
        index,
        t.types,
        t.enums,
    ) + edges_from(
        all_where(t.externs, comparison_of(o.module@, lowercase_of(o.name@))),
        index,
        SqlGraphRelationship::RequiredBy,
    )
}

/// The edges that each ordering operator class gets.
pub open spec fn ord_parts(t: Corpus) -> Seq<Seq<Edge>> {
    Seq::new(t.ords.len(), |k: int| ord_edges(t.ords[k].0, t.ords[k].1, t))
}

/// Connects one ordering operator class.
pub fn connect_ord(graph: &mut EntityGraph, o: &PostgresOrdEntity, index: usize, t: &EntityTables)
    requires
        graph_compact(*old(graph)),
        index < graph_nodes(*old(graph)).len(),
        t@.all_in_bounds(graph_nodes(*old(graph)).len()),
    ensures
        extended_by(*old(graph), *final(graph), ord_edges(*o, index, t@)),
{
    let ghost n = graph_nodes(*graph).len();
    make_schema_connection(graph, index, &o.module, &t.schemas);
    let ghost first = *graph;
    make_type_or_enum_connection(graph, index, o.id, &t.types, &t.enums);
    let ghost second = *graph;
    let lowered = to_lowercase(&o.name);
    let comparisons = find_comparisons(&t.externs, &o.module, &lowered);
    proof {
        lemma_matching_in_bounds(
            t.externs@,
            comparison_of(o.module@, lowered@),
            t.externs@.len() as int,
            n,
        );
    }
    link_from_all(graph, &comparisons, index, SqlGraphRelationship::RequiredBy);
    proof {
        let by_schema = schema_edges(t.schemas@, o.module@, index);
        let by_type = type_or_enum_edges(o.id, index, t.types@, t.enums@);
        lemma_extended_twice(*old(graph), first, second, by_schema, by_type);
        lemma_extended_twice(
            *old(graph),
            second,
            *graph,
            by_schema + by_type,
            edges_from(comparisons@, index, SqlGraphRelationship::RequiredBy),
        );
    }
}

/// Connects every ordering operator class: to its schema, to what it
/// orders, and to the functions that compare for it. That there are no such
/// functions is no failure.
pub fn connect_ords(graph: &mut EntityGraph, t: &EntityTables)
    requires
        graph_compact(*old(graph)),
        t@.all_in_bounds(graph_nodes(*old(graph)).len()),
    ensures
        extended_by(*old(graph), *final(graph), all_edges(ord_parts(t@))),
{
    let ghost parts = ord_parts(t@);
    proof {
        lemma_extended_by_nothing(*graph);
    }
    let mut k: usize = 0;
    while k < t.ords.len()
        invariant
            k <= t.ords.len(),
            parts == ord_parts(t@),
            t@.all_in_bounds(graph_nodes(*old(graph)).len()),
            extended_by(*old(graph), *graph, concat_edges(parts, k as int)),
        decreases t.ords.len() - k,
    {
        let ghost before = *graph;
        connect_ord(graph, &t.ords[k].0, t.ords[k].1, t);
        proof {
            lemma_extended_twice(
                *old(graph),
                before,
                *graph,
                concat_edges(parts, k as int),
                parts[k as int],
            );
        }
        k += 1;
    }
}

/// The edges that a hashing operator class at the node `index` gets: from
/// the schema of its module, from the type or enumeration that it hashes,
/// and from the first function of its module that is called by the
/// lower-case name of the class and `_hash`.
pub open spec fn hash_edges(h: PostgresHashEntity, index: usize, t: Corpus) -> Seq<Edge> {
    schema_edges(t.schemas, h.module@, index) + type_or_enum_edges(
        h.id,
        index,
        t.types,
        t.enums,
    ) + edge_from(
        first_where(t.externs, extern_called(h.module@, lowercase_of(h.name@) + "_hash"@)),
        index,
        SqlGraphRelationship::RequiredBy,
    )
}

/// The edges that each hashing operator class gets.
pub open spec fn hash_parts(t: Corpus) -> Seq<Seq<Edge>> {
    Seq::new(t.hashes.len(), |k: int| hash_edges(t.hashes[k].0, t.hashes[k].1, t))
}

/// Connects one hashing operator class.
pub fn connect_hash(graph: &mut EntityGraph, h: &PostgresHashEntity, index: usize, t: &EntityTables)
    requires
        graph_compact(*old(graph)),
        index < graph_nodes(*old(graph)).len(),
        t@.all_in_bounds(graph_nodes(*old(graph)).len()),
    ensures
        extended_by(*old(graph), *final(graph), hash_edges(*h, index, t@)),
{
    let ghost n = graph_nodes(*graph).len();
    make_schema_connection(graph, index, &h.module, &t.schemas);
    let ghost first = *graph;
    make_type_or_enum_connection(graph, index, h.id, &t.types, &t.enums);
    let ghost second = *graph;
    let lowered = to_lowercase(&h.name);
    let fn_name = with_suffix(&lowered, "_hash");
    let hasher = find_extern_called(&t.externs, &h.module, &fn_name);
    proof {
        lemma_first_where_in_bounds(t.externs@, extern_called(h.module@, fn_name@), n);
    }
    link_from_some(graph, hasher, index, SqlGraphRelationship::RequiredBy);
    proof {
        let by_schema = schema_edges(t.schemas@, h.module@, index);
        let by_type = type_or_enum_edges(h.id, index, t.types@, t.enums@);
        lemma_extended_twice(*old(graph), first, second, by_schema, by_type);
        lemma_extended_twice(
            *old(graph),
            second,
            *graph,
            by_schema + by_type,
            edge_from(hasher, index, SqlGraphRelationship::RequiredBy),
        );
    }
}

/// Connects every hashing operator class: to its schema, to what it hashes,
/// and to its hash function. That there is no such function is no failure.
pub fn connect_hashes(graph: &mut EntityGraph, t: &EntityTables)
    requires
        graph_compact(*old(graph)),
        t@.all_in_bounds(graph_nodes(*old(graph)).len()),
    ensures
        extended_by(*old(graph), *final(graph), all_edges(hash_parts(t@))),
{
    let ghost parts = hash_parts(t@);
    proof {
        lemma_extended_by_nothing(*graph);
    }
    let mut k: usize = 0;
    while k < t.hashes.len()
        invariant
            k <= t.hashes.len(),
            parts == hash_parts(t@),
            t@.all_in_bounds(graph_nodes(*old(graph)).len()),
            extended_by(*old(graph), *graph, concat_edges(parts, k as int)),
        decreases t.hashes.len() - k,
    {
        let ghost before = *graph;
        connect_hash(graph, &t.hashes[k].0, t.hashes[k].1, t);
        proof {
            lemma_extended_twice(
                *old(graph),
                before,
                *graph,
                concat_edges(parts, k as int),
                parts[k as int],
            );
        }
        k += 1;
    }
}

} // verus!
