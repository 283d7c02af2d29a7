//! Turns OS-level process completion into an awaitable event, extracts
//! CPU-time accounting for the finished process, and aggregates those
//! measurements by a caller-supplied grouping key.
//!
//! The verified core holds the data types, the completion state machine and
//! the aggregation map. The surrounding binary owns the reactor, the process
//! spawning and the channel transport, and drives the core with plain values.

pub mod aggregator;
pub mod errors;
pub mod primitive;
pub mod usage;
pub mod watch;

pub use aggregator::AggregationMap;
pub use aggregator::LoggingMessage;
pub use errors::OsError;
pub use errors::SendFailure;
pub use errors::SpawnError;
pub use primitive::CompletionCore;
pub use primitive::CompletionState;
pub use primitive::DiscardAction;
pub use primitive::PollAction;
pub use primitive::PollEvent;
pub use usage::TimeVal;
pub use usage::TimingInfo;
pub use watch::ProcessWaitHandle;
