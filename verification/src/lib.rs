//! Query-execution and storage core of a small relational engine.
//!
//! The library accepts already-parsed SQL statements (schema and table DDL,
//! INSERT, UPDATE, SELECT, DELETE), evaluates scalar expressions, validates
//! values against column constraints, and mutates an in-memory catalog of
//! schemas, tables and records.  Every statement produces exactly one typed
//! event or domain error for a result sink, followed by a completion marker.

pub mod ddl;
pub mod dml;
pub mod executor;
pub mod expressions;
pub mod laws;
pub mod results;
pub mod sql_types;
pub mod storage;
pub mod text;
