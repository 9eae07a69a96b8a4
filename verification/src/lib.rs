//! Leader election for a small, statically configured cluster of peer nodes.
//!
//! The crate holds the decision logic of one node: the role state machine,
//! the Bully election with a successor fast path, heartbeat based failure
//! detection, the connection bookkeeping, and the length-prefixed framing of
//! wire payloads. All of it is pure: the caller performs the input and
//! output, feeds events in and carries the returned actions out.
//!
//! - [`config`]: the membership list.
//! - [`message`]: the messages that peers exchange.
//! - [`framing`]: the length prefix that delimits a message on a stream.
//! - [`timing`]: the protocol's time constants and clock arithmetic.
//! - [`state`]: the values a node's state is made of, and its view.
//! - [`model`]: the behaviour of a node as mathematical functions.
//! - [`node`]: the node itself; each step is proved to do what [`model`] says.
//! - [`network`]: where a node listens, whom it dials, whose connections it takes.
//! - [`laws`]: what holds of the behaviour: invariants, idempotence,
//!   monotonicity of the leader's id, fast failover, safety in stable periods.

pub mod config;
pub mod framing;
pub mod laws;
pub mod message;
pub mod model;
pub mod network;
pub mod node;
mod peers;
pub mod state;
pub mod timing;
