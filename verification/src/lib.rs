//! Storage on Postgres and an S3-compatible object store.
//!
//! Three stores share one database: the [`immutable`] store of content-addressed fragments,
//! whose payloads live in the object store; the [`mutable`] store of typed keys; and the
//! [`lock`] store. This library decides what each of them asks of Postgres and of the object
//! store, and what it makes of the answers. An operation is a sequence of steps: a step names
//! the call to make, and takes the answer to the next step. Making the calls is up to the
//! program around it.
//!
//! What the statements do to the tables is proved of the SQL that Postgres gets, by way of the
//! [`relational`] model.

pub mod bytes_order;
pub mod error;
pub mod immutable;
pub mod lock;
pub mod mutable;
pub mod outside;
pub mod plugin;
pub mod pool;
pub mod relational;
pub mod sql;
pub mod text;
pub mod types;
