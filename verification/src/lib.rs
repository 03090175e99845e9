//! Connector sink runtime core: the per-connector state machine that mediates
//! between upstream pipelines and a concrete sink implementation.
//!
//! The crate models the decision layer of a connector sink: the lifecycle
//! state machine, per-stream event serialization, contraflow (ack / fail /
//! circuit-breaker) construction and fan-out, and drain coordination over
//! source identifiers. Channel plumbing and the async actor loop that drive
//! these decisions live outside the library.

pub mod deploy;
pub mod errors;
pub mod event;
pub mod metrics;
pub mod op_meta;
pub mod raft;
pub mod serializer;
pub mod sink;
pub mod uid_set;
pub mod version;
