//! The graph of the entities of an extension, built once and then read.

use crate::aggregates::aggregates_covered;
use crate::classify::{classified, classify, Classified};
use crate::connect::externs_covered;
use crate::entity::{ControlFile, RustSourceOnlySqlMapping, RustToSqlMapping, SqlGraphEntity};
use crate::error::BuildError;
use crate::outcome::Failure;
use crate::graph::{
    count_nodes, graph_compact, graph_edges, graph_nodes, node_weight, topological_order, Edge,
    EntityGraph, SqlGraphNode,
};
use crate::order::{
    acyclic, is_linearization, lemma_linearization_holds_all, lemma_linearized_is_acyclic,
    on_cycle,
};
use crate::phases::{connect_phase, node_phase, NodePhase};
use crate::placeholders::distinct_paths;
use crate::sorting::{arrange, arranged};
use crate::plan::{
    build_outcome, lemma_nodes_match_in_bounds, node_count, nodes_match, planned,
    planned_bootstrap, planned_finalize,
};
use crate::tables::{Corpus, EntityTables};
use vstd::prelude::*;

verus! {

/// The graph of the entities of an extension. An edge from one node to
/// another says that the first has to be emitted before the second.
pub struct PgxSql {
    source_mappings: Vec<RustSourceOnlySqlMapping>,
    control: ControlFile,
    graph: EntityGraph,
    graph_root: usize,
    graph_bootstrap: Option<usize>,
    graph_finalize: Option<usize>,
    tables: EntityTables,
    extension_name: String,
    versioned_so: bool,
}

/// What a graph holds.
pub struct PgxSqlView {
    pub source_mappings: Seq<RustSourceOnlySqlMapping>,
    pub control: ControlFile,
    /// Whether nothing was removed from the graph.
    pub compact: bool,
    /// The nodes, by index.
    pub nodes: Seq<SqlGraphNode>,
    /// The edges, oldest first.
    pub edges: Seq<Edge>,
    pub root: usize,
    pub bootstrap: Option<usize>,
    pub finalize: Option<usize>,
    pub tables: Corpus,
    pub extension_name: Seq<char>,
    pub versioned_so: bool,
}

/// A node that lies on a cycle, for which reason there is no order in which
/// to emit the entities.
#[derive(Debug, Clone, Copy, PartialEq, Eq)]
pub struct CycleError {
    pub node: usize,
}

impl View for PgxSql {
    type V = PgxSqlView;

    closed spec fn view(&self) -> PgxSqlView {
        PgxSqlView {
            source_mappings: self.source_mappings@,
            control: self.control,
            compact: graph_compact(self.graph),
            nodes: graph_nodes(self.graph),
            edges: graph_edges(self.graph),
            root: self.graph_root,
            bootstrap: self.graph_bootstrap,
            finalize: self.graph_finalize,
            tables: self.tables@,
            extension_name: self.extension_name@,
            versioned_so: self.versioned_so,
        }
    }
}

/// The entities as a build takes them up: by kind, and those of one kind in
/// the order in which they are declared.
pub open spec fn taken_up(entities: Seq<SqlGraphEntity>) -> Classified {
    arranged(classified(entities))
}

impl PgxSqlView {
    /// The graph is as a build leaves it: the root is node 0, the nodes are
    /// the root and one node for each entry of the tables, no two
    /// placeholders stand for one path, and the anchors are nodes.
    pub open spec fn wf(&self) -> bool {
        &&& self.compact
        &&& self.root == 0
        &&& nodes_match(self.nodes, self.tables)
        &&& self.nodes.len() == node_count(self.tables)
        &&& distinct_paths(self.tables.builtin_types)
        &&& self.bootstrap matches Some(b) ==> b < self.nodes.len()
        &&& self.finalize matches Some(f) ==> f < self.nodes.len()
    }
}

impl PgxSql {
    /// Every graph is as a build leaves it.
    #[verifier::type_invariant]
    pub open spec fn wf(&self) -> bool {
        self@.wf()
    }

    /// Builds the graph of the entities. They are taken up by kind, those of
    /// one kind in the order in which they are declared; each gets a node,
    /// and then the edges that its kind calls for. Fails where there is no
    /// control entity, where two SQL fragments ask for the same anchor, and
    /// where something that an entity requires is not among the entities.
    pub fn build(
        sql_mappings: RustToSqlMapping,
        entities: Vec<SqlGraphEntity>,
        extension_name: String,
        versioned_so: bool,
    ) -> (r: Result<PgxSql, BuildError>)
        ensures
            match r {
                Ok(sql) => {
                    &&& sql@.wf()
                    &&& Some(sql@.control) == taken_up(entities@).control
                    &&& sql@.tables == planned(taken_up(entities@))
                    &&& sql@.bootstrap == planned_bootstrap(taken_up(entities@))
                    &&& sql@.finalize == planned_finalize(taken_up(entities@))
                    &&& build_outcome(taken_up(entities@)) == Ok::<Seq<Edge>, Failure>(sql@.edges)
                    &&& externs_covered(sql@.tables)
                    &&& aggregates_covered(sql@.tables)
                    &&& sql@.source_mappings == sql_mappings.rust_source_to_sql@
                    &&& sql@.extension_name == extension_name@
                    &&& sql@.versioned_so == versioned_so
                },
                Err(e) => build_outcome(taken_up(entities@)) matches Err(f) && f.error == e,
            },
    {
        let buckets = arrange(classify(entities));
        if buckets.control.is_none() {
            return Err(BuildError::MissingControlFile);
        }
        let phase = match node_phase(buckets) {
            Ok(phase) => phase,
            Err(e) => {
                return Err(e);
            },
        };
        let NodePhase { control, graph, bootstrap, finalize, tables } = phase;
        let mut graph = graph;
        proof {
            lemma_nodes_match_in_bounds(graph_nodes(graph), tables@);
        }
        match connect_phase(&mut graph, &tables, 0) {
            Ok(()) => {},
            Err(e) => {
                return Err(e);
            },
        }
        let RustToSqlMapping { rust_source_to_sql } = sql_mappings;
        match control {
            Some(control) => Ok(
                PgxSql {
                    source_mappings: rust_source_to_sql,
                    control,
                    graph,
                    graph_root: 0,
                    graph_bootstrap: bootstrap,
                    graph_finalize: finalize,
                    tables,
                    extension_name,
                    versioned_so,
                },
            ),
            None => Err(BuildError::MissingControlFile),
        }
    }

    /// The mappings from source texts of types to SQL types.
    pub fn source_mappings(&self) -> (r: &Vec<RustSourceOnlySqlMapping>)
        ensures
            r@ == self@.source_mappings,
    {
        &self.source_mappings
    }

    /// The control entity.
    pub fn control(&self) -> (r: &ControlFile)
        ensures
            *r == self@.control,
    {
        &self.control
    }

    /// The graph itself.
    pub fn graph(&self) -> (r: &EntityGraph)
        ensures
            graph_compact(*r) == self@.compact,
            graph_nodes(*r) == self@.nodes,
            graph_edges(*r) == self@.edges,
    {
        &self.graph
    }

    /// The node of the root.
    pub fn graph_root(&self) -> (r: usize)
        ensures
            r == self@.root,
    {
        self.graph_root
    }

    /// The node of the bootstrap, if there is one.
    pub fn graph_bootstrap(&self) -> (r: Option<usize>)
        ensures
            r == self@.bootstrap,
    {
        self.graph_bootstrap
    }

    /// The node of the finalize, if there is one.
    pub fn graph_finalize(&self) -> (r: Option<usize>)
        ensures
            r == self@.finalize,
    {
        self.graph_finalize
    }

    /// The entities by kind, each with its node.
    pub fn tables(&self) -> (r: &EntityTables)
        ensures
            r@ == self@.tables,
    {
        &self.tables
    }

    /// The name of the extension.
    pub fn extension_name(&self) -> (r: &String)
        ensures
            r@ == self@.extension_name,
    {
        &self.extension_name
    }

    /// Whether the library is named with its version.
    pub fn versioned_so(&self) -> (r: bool)
        ensures
            r == self@.versioned_so,
    {
        self.versioned_so
    }

    /// The number of nodes.
    pub fn node_count(&self) -> (count: usize)
        ensures
            count == self@.nodes.len(),
    {
        proof {
            use_type_invariant(self);
        }
        count_nodes(&self.graph)
    }

    /// What the node `index` stands for; nothing for an index that is no
    /// node.
    pub fn node(&self, index: usize) -> (r: Option<SqlGraphNode>)
        ensures
            r == if index < self@.nodes.len() {
                Some(self@.nodes[index as int])
            } else {
                None
            },
    {
        proof {
            use_type_invariant(self);
        }
        if index < count_nodes(&self.graph) {
            Some(node_weight(&self.graph, index))
        } else {
            None
        }
    }

    /// An order in which to emit the entities, as node indices: every node
    /// once, and each after all that have to come before it. Fails, with a
    /// node that lies on a cycle, exactly where there is a cycle.
    pub fn linearize(&self) -> (r: Result<Vec<usize>, CycleError>)
        ensures
            match r {
                Ok(order) => {
                    &&& is_linearization(order@, self@.nodes.len(), self@.edges)
                    &&& forall|node: usize| node < self@.nodes.len() ==> order@.contains(node)
                },
                Err(e) => e.node < self@.nodes.len() && on_cycle(self@.edges, e.node as int),
            },
            r is Ok <==> acyclic(self@.edges),
    {
        proof {
            use_type_invariant(self);
        }
        match topological_order(&self.graph) {
            Ok(order) => {
                proof {
                    lemma_linearized_is_acyclic(order@, self@.nodes.len(), self@.edges);
                    lemma_linearization_holds_all(order@, self@.nodes.len(), self@.edges);
                }
                Ok(order)
            },
            Err(node) => Err(CycleError { node }),
        }
    }
}

} // verus!
