//! A schema-convergence engine: given a declared data model (typed tables
//! with columns, keys and indices) and a snapshot of a live relational
//! database, it computes the minimal sequence of DDL statements that brings
//! the database into conformance with the model, across several SQL
//! dialects, refusing destructive alterations unless explicitly authorized.
//!
//! The engine itself never touches a database: callers introspect the live
//! schema through a connection of their own, hand the snapshot in as plain
//! values, and execute the returned statements in order.
pub mod column;
pub mod decoder;
pub mod dialect;
pub mod encode;
pub mod error;
pub mod laws;
pub mod migrate;
pub mod model;
pub mod stmt;
pub mod strutil;
pub mod value;
