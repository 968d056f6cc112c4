//! Software transactional memory.
//!
//! Threads read and write shared [`TVar`]s inside transactions. Each attempt
//! records what it read and wrote in a [`Transaction`] log; commit publishes
//! every write at once, and only if every variable the attempt depended on
//! is unchanged. A body that calls [`retry`] waits until one of the
//! variables it read changes, and [`Transaction::or`] composes alternatives.
use vstd::prelude::*;

pub mod control_block;
pub mod light;
pub mod log_var;
pub mod result;
pub mod shared;
pub mod transaction;
pub mod tvar;

pub use log_var::LogVar;
pub use result::{
    abort, guard, retry, unwrap_or_retry, StmClosureResult, StmError, TransactionClosureResult,
    TransactionControl, TransactionError, TransactionResult,
};
pub use shared::Payload;
pub use transaction::{optionally, Attempt, Settled, Transaction, TransactionGuard};
pub use tvar::TVar;

verus! {

} // verus!
