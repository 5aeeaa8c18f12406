//! The two phases of a build: a node for every entity, then the edges
//! between them.

use crate::aggregates::{aggregate_outcomes, aggregates_covered, connect_aggregates};
use crate::classes::{connect_hashes, connect_ords, hash_parts, ord_parts};
use crate::classify::EntityBuckets;
use crate::connect::{connect_externs, extern_outcomes, externs_covered};
use crate::entity::{
    ControlFile, ExtensionSqlEntity, PgAggregateEntity, PgExternEntity, PgTriggerEntity,
    PostgresEnumEntity, PostgresHashEntity, PostgresOrdEntity, PostgresTypeEntity, SchemaEntity,
};
use crate::error::BuildError;
use crate::outcome::{all_edges, all_outcomes, fails, follows, Failure};
use crate::fragments::{
    connect_enums, connect_extension_sqls, connect_schemas, connect_triggers, connect_types,
    enum_parts, root_to_schemas, sql_outcomes, trigger_parts, type_parts,
};
use crate::graph::{
    add_node, graph_compact, graph_edges, graph_nodes, new_graph, Edge, EntityGraph, SqlGraphKind,
    SqlGraphNode,
};
use crate::links::lemma_extended_twice;
use crate::initialize::{
    anchor_outcomes, first_bootstrap, first_finalize, initialize_aggregates, initialize_enums,
    initialize_extension_sqls, initialize_externs, initialize_hashes, initialize_ords,
    initialize_schemas, initialize_triggers, initialize_types, node_after, uses_of_aggregates,
    uses_of_externs,
};
use crate::nodes::{nodes_of, numbered};
use crate::placeholders::{
    distinct_paths, lemma_covered_stays, lemma_users_absorbed, user_table, users_absorbed,
};
use crate::plan::{
    connect_outcome, kind_anchor_parts, kind_matches, lemma_nodes_match_step, node_count,
    node_edges, nodes_match, planned, planned_bootstrap, planned_finalize, same_but,
};
use crate::tables::{Corpus, EntityTables};
use crate::uses::{all_covered, covered, extern_uses};
use vstd::prelude::*;

verus! {

/// The graph and the tables while nodes are made.
pub struct NodePhase {
    pub control: Option<ControlFile>,
    pub graph: EntityGraph,
    pub bootstrap: Option<usize>,
    pub finalize: Option<usize>,
    pub tables: EntityTables,
}

/// Tables with nothing in them.
pub open spec fn no_tables() -> Corpus {
    Corpus {
        schemas: Seq::empty(),
        extension_sqls: Seq::empty(),
        externs: Seq::empty(),
        types: Seq::empty(),
        builtin_types: Seq::empty(),
        enums: Seq::empty(),
        ords: Seq::empty(),
        hashes: Seq::empty(),
        aggregates: Seq::empty(),
        triggers: Seq::empty(),
    }
}

/// What one pass of the node phase does for the entities of `kind`: it adds
/// nodes of that kind, and placeholders where `placeholders` says so, ties
/// the nodes of that kind to the anchors, and changes no table but that of
/// the kind and that of the placeholders.
pub open spec fn stepped(
    before: NodePhase,
    after: NodePhase,
    kind: SqlGraphKind,
    placeholders: bool,
) -> bool {
    &&& after.ready()
    &&& after.control == before.control
    &&& same_but(before.tables@, after.tables@, kind)
    &&& placeholders || after.tables@.builtin_types == before.tables@.builtin_types
    &&& graph_nodes(before.graph).len() <= graph_nodes(after.graph).len()
    &&& graph_edges(after.graph) == graph_edges(before.graph) + all_edges(
        kind_anchor_parts(after.tables@, kind, 0, after.bootstrap, after.finalize),
    )
}

impl NodePhase {
    /// The nodes are those of the root and of the entries of the tables,
    /// and the anchors are nodes.
    pub open spec fn ready(&self) -> bool {
        &&& graph_compact(self.graph)
        &&& nodes_match(graph_nodes(self.graph), self.tables@)
        &&& self.bootstrap matches Some(b) ==> b < graph_nodes(self.graph).len()
        &&& self.finalize matches Some(f) ==> f < graph_nodes(self.graph).len()
    }

    /// A graph of the root alone.
    pub fn start(control: Option<ControlFile>) -> (phase: NodePhase)
        ensures
            phase.ready(),
            phase.control == control,
            phase.tables@ == no_tables(),
            phase.bootstrap is None,
            phase.finalize is None,
            graph_nodes(phase.graph).len() == 1,
            graph_edges(phase.graph) == Seq::<Edge>::empty(),
    {
        let mut graph = new_graph();
        add_node(&mut graph, SqlGraphNode { kind: SqlGraphKind::ExtensionRoot, position: 0 });
        let tables = EntityTables {
            schemas: Vec::new(),
            extension_sqls: Vec::new(),
            externs: Vec::new(),
            types: Vec::new(),
            builtin_types: Vec::new(),
            enums: Vec::new(),
            ords: Vec::new(),
            hashes: Vec::new(),
            aggregates: Vec::new(),
            triggers: Vec::new(),
        };
        NodePhase { control, graph, bootstrap: None, finalize: None, tables }
    }

    /// The pass for SQL fragments, which finds the anchors.
    pub fn add_extension_sqls(self, extension_sqls: Vec<ExtensionSqlEntity>) -> (r: Result<
        NodePhase,
        BuildError,
    >)
        requires
            self.ready(),
            self.tables@.extension_sqls.len() == 0,
            self.bootstrap is None,
            self.finalize is None,
        ensures
            match r {
                Ok(phase) => {
                    &&& all_outcomes(anchor_outcomes(extension_sqls@)) == Ok::<
                        Seq<Edge>,
                        Failure,
                    >(Seq::empty())
                    &&& stepped(self, phase, SqlGraphKind::CustomSql, false)
                    &&& phase.tables@.extension_sqls == numbered(
                        extension_sqls@,
                        graph_nodes(self.graph).len() as int,
                    )
                    &&& graph_nodes(phase.graph).len() == graph_nodes(self.graph).len()
                        + extension_sqls@.len()
                    &&& phase.bootstrap == node_after(
                        graph_nodes(self.graph).len() as int,
                        first_bootstrap(extension_sqls@, extension_sqls@.len() as int),
                    )
                    &&& phase.finalize == node_after(
                        graph_nodes(self.graph).len() as int,
                        first_finalize(extension_sqls@, extension_sqls@.len() as int),
                    )
                },
                Err(e) => all_outcomes(anchor_outcomes(extension_sqls@)) == fails(e),
            },
    {
        let ghost nodes = graph_nodes(self.graph);
        let ghost before = self.tables@;
        proof {
            assert(kind_matches(nodes, before, SqlGraphKind::CustomSql));
        }
        let mut phase = self;
        let (table, bootstrap, finalize) = match initialize_extension_sqls(
            &mut phase.graph,
            0,
            extension_sqls,
        ) {
            Ok(found) => found,
            Err(e) => {
                return Err(e);
            },
        };
        phase.tables.extension_sqls = table;
        phase.bootstrap = bootstrap;
        phase.finalize = finalize;
        proof {
            lemma_nodes_match_step(
                nodes,
                nodes_of(SqlGraphKind::CustomSql, 0, extension_sqls@.len() as int),
                before,
                phase.tables@,
                SqlGraphKind::CustomSql,
            );
        }
        Ok(phase)
    }

    /// The pass for schemas.
    pub fn add_schemas(&mut self, schemas: Vec<SchemaEntity>)
        requires
            old(self).ready(),
            old(self).tables@.schemas.len() == 0,
        ensures
            stepped(*old(self), *final(self), SqlGraphKind::Schema, false),
            final(self).bootstrap == old(self).bootstrap,
            final(self).finalize == old(self).finalize,
            final(self).tables@.schemas == numbered(
                schemas@,
                graph_nodes(old(self).graph).len() as int,
            ),
            graph_nodes(final(self).graph).len() == graph_nodes(old(self).graph).len()
                + schemas@.len(),
    {
        let ghost nodes = graph_nodes(self.graph);
        let ghost before = self.tables@;
        proof {
            assert(kind_matches(nodes, before, SqlGraphKind::Schema));
        }
        let table = initialize_schemas(&mut self.graph, self.bootstrap, self.finalize, schemas);
        self.tables.schemas = table;
        proof {
            lemma_nodes_match_step(
                nodes,
                nodes_of(SqlGraphKind::Schema, 0, schemas@.len() as int),
                before,
                self.tables@,
                SqlGraphKind::Schema,
            );
        }
    }

    /// The pass for enumerations.
    pub fn add_enums(&mut self, enums: Vec<PostgresEnumEntity>)
        requires
            old(self).ready(),
            old(self).tables@.enums.len() == 0,
        ensures
            stepped(*old(self), *final(self), SqlGraphKind::Enum, false),
            final(self).bootstrap == old(self).bootstrap,
            final(self).finalize == old(self).finalize,
            final(self).tables@.enums == numbered(
                enums@,
                graph_nodes(old(self).graph).len() as int,
            ),
            graph_nodes(final(self).graph).len() == graph_nodes(old(self).graph).len()
                + enums@.len(),
    {
        let ghost nodes = graph_nodes(self.graph);
        let ghost before = self.tables@;
        proof {
            assert(kind_matches(nodes, before, SqlGraphKind::Enum));
        }
        let table = initialize_enums(&mut self.graph, 0, self.bootstrap, self.finalize, enums);
        self.tables.enums = table;
        proof {
            lemma_nodes_match_step(
                nodes,
                nodes_of(SqlGraphKind::Enum, 0, enums@.len() as int),
                before,
                self.tables@,
                SqlGraphKind::Enum,
            );
        }
    }

    /// The pass for types.
    pub fn add_types(&mut self, types: Vec<PostgresTypeEntity>)
        requires
            old(self).ready(),
            old(self).tables@.types.len() == 0,
        ensures
            stepped(*old(self), *final(self), SqlGraphKind::Type, false),
            final(self).bootstrap == old(self).bootstrap,
            final(self).finalize == old(self).finalize,
            final(self).tables@.types == numbered(
                types@,
                graph_nodes(old(self).graph).len() as int,
            ),
            graph_nodes(final(self).graph).len() == graph_nodes(old(self).graph).len()
                + types@.len(),
    {
        let ghost nodes = graph_nodes(self.graph);
        let ghost before = self.tables@;
        proof {
            assert(kind_matches(nodes, before, SqlGraphKind::Type));
        }
        let table = initialize_types(&mut self.graph, 0, self.bootstrap, self.finalize, types);
        self.tables.types = table;
        proof {
            lemma_nodes_match_step(
                nodes,
                nodes_of(SqlGraphKind::Type, 0, types@.len() as int),
                before,
                self.tables@,
                SqlGraphKind::Type,
            );
        }
    }

    /// The pass for ordering operator classes.
    pub fn add_ords(&mut self, ords: Vec<PostgresOrdEntity>)
        requires
            old(self).ready(),
            old(self).tables@.ords.len() == 0,
        ensures
            stepped(*old(self), *final(self), SqlGraphKind::Ord, false),
            final(self).bootstrap == old(self).bootstrap,
            final(self).finalize == old(self).finalize,
            final(self).tables@.ords == numbered(ords@, graph_nodes(old(self).graph).len() as int),
            graph_nodes(final(self).graph).len() == graph_nodes(old(self).graph).len()
                + ords@.len(),
    {
        let ghost nodes = graph_nodes(self.graph);
        let ghost before = self.tables@;
        proof {
            assert(kind_matches(nodes, before, SqlGraphKind::Ord));
        }
        let table = initialize_ords(&mut self.graph, 0, self.bootstrap, self.finalize, ords);
        self.tables.ords = table;
        proof {
            lemma_nodes_match_step(
                nodes,
                nodes_of(SqlGraphKind::Ord, 0, ords@.len() as int),
                before,
                self.tables@,
                SqlGraphKind::Ord,
            );
        }
    }

    /// The pass for hashing operator classes.
    pub fn add_hashes(&mut self, hashes: Vec<PostgresHashEntity>)
        requires
            old(self).ready(),
            old(self).tables@.hashes.len() == 0,
        ensures
            stepped(*old(self), *final(self), SqlGraphKind::Hash, false),
            final(self).bootstrap == old(self).bootstrap,
            final(self).finalize == old(self).finalize,
            final(self).tables@.hashes == numbered(
                hashes@,
                graph_nodes(old(self).graph).len() as int,
            ),
            graph_nodes(final(self).graph).len() == graph_nodes(old(self).graph).len()
                + hashes@.len(),
    {
        let ghost nodes = graph_nodes(self.graph);
        let ghost before = self.tables@;
        proof {
            assert(kind_matches(nodes, before, SqlGraphKind::Hash));
        }
        let table = initialize_hashes(&mut self.graph, 0, self.bootstrap, self.finalize, hashes);
        self.tables.hashes = table;
        proof {
            lemma_nodes_match_step(
                nodes,
                nodes_of(SqlGraphKind::Hash, 0, hashes@.len() as int),
                before,
                self.tables@,
                SqlGraphKind::Hash,
            );
        }
    }

    /// The pass for triggers.
    pub fn add_triggers(&mut self, triggers: Vec<PgTriggerEntity>)
        requires
            old(self).ready(),
            old(self).tables@.triggers.len() == 0,
        ensures
            stepped(*old(self), *final(self), SqlGraphKind::Trigger, false),
            final(self).bootstrap == old(self).bootstrap,
            final(self).finalize == old(self).finalize,
            final(self).tables@.triggers == numbered(
                triggers@,
                graph_nodes(old(self).graph).len() as int,
            ),
            graph_nodes(final(self).graph).len() == graph_nodes(old(self).graph).len()
                + triggers@.len(),
    {
        let ghost nodes = graph_nodes(self.graph);
        let ghost before = self.tables@;
        proof {
            assert(kind_matches(nodes, before, SqlGraphKind::Trigger));
        }
        let table = initialize_triggers(
            &mut self.graph,
            0,
            self.bootstrap,
            self.finalize,
            triggers,
        );
        self.tables.triggers = table;
        proof {
            lemma_nodes_match_step(
                nodes,
                nodes_of(SqlGraphKind::Trigger, 0, triggers@.len() as int),
                before,
                self.tables@,
                SqlGraphKind::Trigger,
            );
        }
    }

    /// The pass for functions, which makes the placeholders that they need.
    pub fn add_externs(&mut self, externs: Vec<PgExternEntity>)
        requires
            old(self).ready(),
            old(self).tables@.externs.len() == 0,
            old(self).tables@.builtin_types.len() == 0,
        ensures
            stepped(*old(self), *final(self), SqlGraphKind::Function, true),
            final(self).bootstrap == old(self).bootstrap,
            final(self).finalize == old(self).finalize,
            final(self).tables@.externs == user_table(
                externs@,
                Seq::empty(),
                uses_of_externs(externs@),
                old(self).tables@.types,
                old(self).tables@.enums,
                graph_nodes(old(self).graph).len() as int,
            ),
            final(self).tables@.builtin_types == users_absorbed(
                Seq::empty(),
                uses_of_externs(externs@),
                old(self).tables@.types,
                old(self).tables@.enums,
                graph_nodes(old(self).graph).len() as int,
                externs@.len() as int,
            ),
            graph_nodes(final(self).graph).len() == graph_nodes(old(self).graph).len()
                + externs@.len() + final(self).tables@.builtin_types.len(),
            distinct_paths(final(self).tables@.builtin_types),
            externs_covered(final(self).tables@),
    {
        let ghost nodes = graph_nodes(self.graph);
        let ghost before = self.tables@;
        proof {
            assert(kind_matches(nodes, before, SqlGraphKind::Function));
            assert(kind_matches(nodes, before, SqlGraphKind::BuiltinType));
        }
        let (table, builtin_types) = initialize_externs(
            &mut self.graph,
            0,
            self.bootstrap,
            self.finalize,
            externs,
            &self.tables.types,
            &self.tables.enums,
        );
        self.tables.externs = table;
        self.tables.builtin_types = builtin_types;
        proof {
            let all = graph_nodes(self.graph);
            let more = all.skip(nodes.len() as int);
            assert(all =~= nodes + more);
            lemma_nodes_match_step(nodes, more, before, self.tables@, SqlGraphKind::Function);
        }
    }

    /// The pass for aggregates, which makes the placeholders that they
    /// need and that are not there yet.
    pub fn add_aggregates(&mut self, aggregates: Vec<PgAggregateEntity>)
        requires
            old(self).ready(),
            old(self).tables@.aggregates.len() == 0,
            old(self).tables@.builtin_types.len() <= graph_nodes(old(self).graph).len(),
        ensures
            stepped(*old(self), *final(self), SqlGraphKind::Aggregate, true),
            final(self).bootstrap == old(self).bootstrap,
            final(self).finalize == old(self).finalize,
            final(self).tables@.aggregates == user_table(
                aggregates@,
                old(self).tables@.builtin_types,
                uses_of_aggregates(aggregates@),
                old(self).tables@.types,
                old(self).tables@.enums,
                graph_nodes(old(self).graph).len() - old(self).tables@.builtin_types.len(),
            ),
            final(self).tables@.builtin_types == users_absorbed(
                old(self).tables@.builtin_types,
                uses_of_aggregates(aggregates@),
                old(self).tables@.types,
                old(self).tables@.enums,
                graph_nodes(old(self).graph).len() - old(self).tables@.builtin_types.len(),
                aggregates@.len() as int,
            ),
            graph_nodes(final(self).graph).len() == graph_nodes(old(self).graph).len()
                + aggregates@.len() + final(self).tables@.builtin_types.len() - old(
                self,
            ).tables@.builtin_types.len(),
            old(self).tables@.builtin_types.len() <= final(self).tables@.builtin_types.len(),
            distinct_paths(old(self).tables@.builtin_types) ==> distinct_paths(
                final(self).tables@.builtin_types,
            ),
            externs_covered(old(self).tables@) ==> externs_covered(final(self).tables@),
            aggregates_covered(final(self).tables@),
    {
        let ghost nodes = graph_nodes(self.graph);
        let ghost before = self.tables@;
        proof {
            assert(kind_matches(nodes, before, SqlGraphKind::Aggregate));
            assert(kind_matches(nodes, before, SqlGraphKind::BuiltinType));
        }
        let table = initialize_aggregates(
            &mut self.graph,
            0,
            self.bootstrap,
            self.finalize,
            aggregates,
            &mut self.tables.builtin_types,
            &self.tables.enums,
            &self.tables.types,
        );
        self.tables.aggregates = table;
        proof {
            let after = self.tables@;
            let all = graph_nodes(self.graph);
            let more = all.skip(nodes.len() as int);
            assert(all =~= nodes + more);
            lemma_nodes_match_step(nodes, more, before, after, SqlGraphKind::Aggregate);
            lemma_users_absorbed(
                before.builtin_types,
                uses_of_aggregates(aggregates@),
                before.types,
                before.enums,
                nodes.len() - before.builtin_types.len(),
                aggregates@.len() as int,
            );
            if externs_covered(before) {
                assert forall|k: int| 0 <= k < after.externs.len() implies all_covered(
                    extern_uses((#[trigger] after.externs[k]).0),
                    after.types,
                    after.enums,
                    after.builtin_types,
                ) by {
                    let uses = extern_uses(before.externs[k].0);
                    assert forall|i: int| 0 <= i < uses.len() implies covered(
                        #[trigger] uses[i],
                        after.types,
                        after.enums,
                        after.builtin_types,
                    ) by {
                        lemma_covered_stays(
                            uses[i],
                            before.types,
                            before.enums,
                            before.builtin_types,
                            after.builtin_types,
                        );
                    }
                }
            }
        }
    }
}

/// The node phase: the root, then a node for every entity of the buckets,
/// kind by kind, each tied to the anchors, and the placeholders that
/// functions and aggregates need. Fails where two SQL fragments ask for the
/// same anchor.
pub fn node_phase(buckets: EntityBuckets) -> (r: Result<NodePhase, BuildError>)
    ensures
        match r {
            Ok(phase) => {
                &&& all_outcomes(anchor_outcomes(buckets@.extension_sqls)) == Ok::<
                    Seq<Edge>,
                    Failure,
                >(Seq::empty())
                &&& phase.ready()
                &&& phase.control == buckets@.control
                &&& phase.tables@ == planned(buckets@)
                &&& phase.bootstrap == planned_bootstrap(buckets@)
                &&& phase.finalize == planned_finalize(buckets@)
                &&& graph_nodes(phase.graph).len() == node_count(phase.tables@)
                &&& graph_edges(phase.graph) == node_edges(
                    phase.tables@,
                    0,
                    phase.bootstrap,
                    phase.finalize,
                )
                &&& externs_covered(phase.tables@)
                &&& aggregates_covered(phase.tables@)
                &&& distinct_paths(phase.tables@.builtin_types)
            },
            Err(e) => all_outcomes(anchor_outcomes(buckets@.extension_sqls)) == fails(e),
        },
{
    let EntityBuckets {
        control,
        schemas,
        extension_sqls,
        externs,
        types,
        enums,
        ords,
        hashes,
        aggregates,
        triggers,
    } = buckets;
    let mut phase = match NodePhase::start(control).add_extension_sqls(extension_sqls) {
        Ok(phase) => phase,
        Err(e) => {
            return Err(e);
        },
    };
    phase.add_schemas(schemas);
    phase.add_enums(enums);
    phase.add_types(types);
    phase.add_externs(externs);
    phase.add_ords(ords);
    phase.add_hashes(hashes);
    phase.add_aggregates(aggregates);
    phase.add_triggers(triggers);
    Ok(phase)
}

/// The edge phase: connects schemas, SQL fragments, enumerations, types,
/// functions, ordering operator classes, hashing operator classes,
/// aggregates and triggers, in this order, and fails at the first failure
/// of a pass.
pub fn connect_phase(graph: &mut EntityGraph, t: &EntityTables, root: usize) -> (r: Result<
    (),
    BuildError,
>)
    requires
        graph_compact(*old(graph)),
        root < graph_nodes(*old(graph)).len(),
        t@.all_in_bounds(graph_nodes(*old(graph)).len()),
        externs_covered(t@),
        aggregates_covered(t@),
    ensures
        follows(connect_outcome(t@, root), *old(graph), *final(graph), r),
{
    connect_schemas(graph, &t.schemas, root);
    let ghost g1 = *graph;
    let ghost e1 = root_to_schemas(t@.schemas, root);
    match connect_extension_sqls(graph, t) {
        Ok(()) => {},
        Err(e) => {
            proof {
                let drawn = all_outcomes(sql_outcomes(t@))->Err_0.drawn;
                lemma_extended_twice(*old(graph), g1, *graph, e1, drawn);
            }
            return Err(e);
        },
    }
    let ghost g2 = *graph;
    let ghost e2 = e1 + all_outcomes(sql_outcomes(t@))->Ok_0;
    proof {
        lemma_extended_twice(*old(graph), g1, g2, e1, all_outcomes(sql_outcomes(t@))->Ok_0);
    }
    connect_enums(graph, &t.enums, &t.schemas);
    let ghost g3 = *graph;
    let ghost e3 = e2 + all_edges(enum_parts(t@.enums, t@.schemas));
    proof {
        lemma_extended_twice(*old(graph), g2, g3, e2, all_edges(enum_parts(t@.enums, t@.schemas)));
    }
    connect_types(graph, &t.types, &t.schemas);
    let ghost g4 = *graph;
    let ghost e4 = e3 + all_edges(type_parts(t@.types, t@.schemas));
    proof {
        lemma_extended_twice(*old(graph), g3, g4, e3, all_edges(type_parts(t@.types, t@.schemas)));
    }
    match connect_externs(graph, t) {
        Ok(()) => {},
        Err(e) => {
            proof {
                let drawn = all_outcomes(extern_outcomes(t@))->Err_0.drawn;
                lemma_extended_twice(*old(graph), g4, *graph, e4, drawn);
            }
            return Err(e);
        },
    }
    let ghost g5 = *graph;
    let ghost e5 = e4 + all_outcomes(extern_outcomes(t@))->Ok_0;
    proof {
        lemma_extended_twice(*old(graph), g4, g5, e4, all_outcomes(extern_outcomes(t@))->Ok_0);
    }
    connect_ords(graph, t);
    let ghost g6 = *graph;
    let ghost e6 = e5 + all_edges(ord_parts(t@));
    proof {
        lemma_extended_twice(*old(graph), g5, g6, e5, all_edges(ord_parts(t@)));
    }
    connect_hashes(graph, t);
    let ghost g7 = *graph;
    let ghost e7 = e6 + all_edges(hash_parts(t@));
    proof {
        lemma_extended_twice(*old(graph), g6, g7, e6, all_edges(hash_parts(t@)));
    }
    match connect_aggregates(graph, t) {
        Ok(()) => {},
        Err(e) => {
            proof {
                let drawn = all_outcomes(aggregate_outcomes(t@))->Err_0.drawn;
                lemma_extended_twice(*old(graph), g7, *graph, e7, drawn);
            }
            return Err(e);
        },
    }
    let ghost g8 = *graph;
    let ghost e8 = e7 + all_outcomes(aggregate_outcomes(t@))->Ok_0;
    proof {
        lemma_extended_twice(*old(graph), g7, g8, e7, all_outcomes(aggregate_outcomes(t@))->Ok_0);
    }
    connect_triggers(graph, &t.triggers, &t.schemas);
    proof {
        lemma_extended_twice(
            *old(graph),
            g8,
            *graph,
            e8,
            all_edges(trigger_parts(t@.triggers, t@.schemas)),
        );
    }
    Ok(())
}

} // verus!
