//! The lock store: advisory locks on resources, held in one Postgres table.
//!
//! * [`records`]: what a lock is, and the order in which locks are taken.
//! * [`statements`]: the SQL statements of the store.
//! * [`acquire`], [`release`], [`report`]: the store's operations, each as a sequence of
//!   steps that the caller carries out against Postgres.
//! * [`table`]: what the statements mean for a table of locks, and what follows for the
//!   operations as a whole.
//! * [`carried`]: what comes of the calls to the store, once the steps that they lead to are
//!   carried out.
//! * [`spelling`], [`meaning`]: how the SQL texts read, and that the statements, as Postgres
//!   gets them, mean what [`table`] says.

pub mod acquire;
pub mod carried;
pub mod meaning;
pub mod records;
pub mod release;
pub mod report;
pub mod spelling;
pub mod statements;
pub mod table;
