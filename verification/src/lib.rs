//! A bulk-synchronous engine for graphs of nodes that talk through versioned channels.
//!
//! A run proceeds in supersteps. In each one the scheduler plans the nodes that
//! have a reason to run, hands every task the same frozen view of the channels,
//! merges what the tasks propose in one commit, all of it or none, and advances
//! the version of every channel that changed. The run ends when nothing is left
//! to plan.
//!
//! - `value`, `errors`: payloads, the operator of reducers, and the failures.
//! - `channel`: the state cells, in three kinds.
//! - `graph`, `builder`: the graph that is run, and building one by names.
//! - `superstep`: what one superstep does, as mathematics.
//! - `manager`: the owner of the channels of a run; planning and merging.
//! - `checkpoint`, `store`: snapshots of a run, and where they are kept.
//! - `pregel`: the scheduler, a state machine that decides while the host acts.
//! - `executor`: the loop that drives a run with the caller's nodes.
//! - `laws`: what holds of every run.

pub mod builder;
pub mod channel;
pub mod checkpoint;
pub mod errors;
pub mod executor;
pub mod graph;
pub mod laws;
pub mod manager;
pub mod pregel;
pub mod store;
pub mod superstep;
pub mod value;

pub use builder::GraphExecutor;
pub use channel::{BaseChannel, Channel, LastValue, Reducer, Topic};
pub use checkpoint::Checkpoint;
pub use executor::Executor;
pub use manager::ChannelManager;
pub use pregel::{Pregel, PregelLoop};
pub use store::MemoryStore;
