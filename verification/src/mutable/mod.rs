//! The mutable store: one hash for each key of a repository, held in one Postgres table.
//!
//! * [`statements`]: the SQL statements of the store.
//! * [`requests`]: the store's operations, each as a statement to execute and what to make
//!   of the answer.
//! * [`table`]: what the statements mean for a table of keys, and what follows for the
//!   operations as a whole.
//! * [`overlap`]: what becomes of swaps that are executed at the same time.
//! * [`carried`]: what comes of the calls to the store, once their statements are executed.
//! * [`spelling`], [`meaning`]: how the SQL texts read, and that the statements, as Postgres
//!   gets them, mean what [`table`] says.

pub mod carried;
pub mod meaning;
pub mod overlap;
pub mod requests;
pub mod spelling;
pub mod statements;
pub mod table;
