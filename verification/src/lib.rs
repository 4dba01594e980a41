//! A query engine that turns data connector query requests into SQL.
//!
//! - `types` holds the request and response types.
//! - `metadata` describes the tables of the database.
//! - `sql` holds the SQL syntax tree, its rendering into a parameterised SQL string, helpers
//!   that build common query shapes, and execution plans.
//! - `translation` turns a query request into a SQL syntax tree.
//! - `execution` names and binds the parameters of a query, picks what an explain runs on,
//!   and describes execution errors.
pub mod execution;
pub mod metadata;
pub mod sql;
pub mod translation;
pub mod types;
