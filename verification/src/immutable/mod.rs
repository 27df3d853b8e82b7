//! The immutable store: content-addressed fragments. Payloads are objects in the object store,
//! keyed by their hashes; Postgres holds one table of associations of hashes with
//! repositories and contexts, and one of the metadata of hashes.
//!
//! * [`statements`]: the settings of the store and its SQL statements.
//! * [`metadata`], [`payload`]: what rows and objects hold.
//! * [`lookup`], [`get`], [`put`], [`obliterate`], [`upkeep`]: the store's operations, each as
//!   a sequence of steps that the caller carries out.
//! * [`world`]: what the statements mean for the tables, and what becomes of an operation.
//! * [`storing`], [`erasing`], [`interrupted`]: what follows for the operations as a whole.
//! * [`carried`], [`erasure`]: what comes of the calls to the store, once the steps that they
//!   lead to are carried out.
//! * [`spelling`], [`meaning`]: how the SQL texts read, and that the statements, as Postgres
//!   gets them, mean what [`world`] says.

pub mod carried;
pub mod erasing;
pub mod erasure;
pub mod get;
pub mod interrupted;
pub mod lookup;
pub mod meaning;
pub mod metadata;
pub mod obliterate;
pub mod payload;
pub mod put;
pub mod spelling;
pub mod statements;
pub mod storing;
pub mod upkeep;
pub mod world;
