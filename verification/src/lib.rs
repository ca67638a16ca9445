//! A two-stage work pipeline: tasks are published, claimed by workers and
//! submitted, then claimed by a second pool of principals, who accept or
//! reject the submission.
//! Rejected work goes back to the pool of open tasks.
//!
//! The crate holds the assignment and review state machine, the two
//! first-in-first-out queues of pending identifiers and the record stores.
//! Who the caller is, what time it is and how money moves are supplied by the
//! host: every operation takes the caller and the time as plain arguments and
//! hands back the payment it decided on.
//!
//! - [`manager`]: the pipeline itself and its operations.
//! - [`model`]: the pipeline as a mathematical state, each operation as a
//!   function on it, and what holds of every reachable state.
//! - [`laws`]: what follows for sequences of operations.
//! - [`queue`], [`store`], [`record`]: the parts the pipeline is made of.
//! - [`snapshot`]: the pipeline as plain data, to keep it between calls.

pub mod error;
pub mod laws;
pub mod manager;
pub mod model;
pub mod queue;
pub mod record;
pub mod snapshot;
pub mod store;

pub use error::Error;
pub use manager::TaskManager;
pub use model::State;
pub use queue::Queue;
pub use record::{Payout, ReviewTask, Task, REWARD};
pub use snapshot::Snapshot;
pub use store::Store;
