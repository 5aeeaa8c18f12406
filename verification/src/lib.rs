//! The dependency graph of the SQL entities of an extension, and the order
//! in which to emit them.
//!
//! A build takes entities in any order: schemas, SQL fragments, functions,
//! types, enumerations, operator classes, aggregates, triggers, and the
//! control entity. It makes a node for each, draws an edge wherever one
//! entity has to be emitted before another, and hands back a graph that is
//! only read from then on. See [`pgx_sql::PgxSql`].
//!
//! The contracts say what every build comes to: [`plan`] has the tables, the
//! nodes and the edges. What follows for all builds is proved in [`laws`]
//! (anchors, the root, placeholders), [`drawn`] (when a build succeeds and
//! which edges it has), [`between`] (the anchors first and last),
//! [`root_first`] (nothing before the root) and [`called_for`] (where
//! placeholders come from).

pub mod aggregates;
pub mod between;
pub mod called_for;
pub mod classes;
pub mod classify;
pub mod connect;
pub mod counting;
pub mod dot;
pub mod drawn;
pub mod emit;
pub mod entity;
pub mod error;
pub mod find;
pub mod fragments;
pub mod graph;
pub mod initialize;
pub mod laws;
pub mod links;
pub mod nodes;
pub mod order;
pub mod outcome;
pub mod pgx_sql;
pub mod phases;
pub mod placeholders;
pub mod plan;
pub mod queries;
pub mod resolve;
pub mod root_first;
pub mod sorting;
pub mod tables;
pub mod text;
pub mod uses;
