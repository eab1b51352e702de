//! Mempool tracker core: content addressing for transactions, the
//! transaction-lifecycle store, the task queue, and the worker state machine
//! that classifies observed transactions as new, mined, replaced or pruned.

pub mod laws;
pub mod queue;
pub mod store;
pub mod tx;
pub mod worker;
