//! Declarative management of database objects: object identifiers, the
//! dependency graph inferred from script text, creation order, and the
//! reconciliation and migration state machines.

pub mod error;
pub mod text;
pub mod words;
pub mod hashing;
pub mod object_type;
pub mod object_id;
pub mod project;
pub mod sql;
pub mod sorted;
pub mod order;
pub mod resolver;
pub mod graph;
pub mod classify;
pub mod reconcile;
pub mod migrate;
pub mod teardown;
pub mod loading;
pub mod scaffold;
pub mod certificate;
