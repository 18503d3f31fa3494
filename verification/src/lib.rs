//! Replication of a broadcasting application's scene-graph state from one
//! authoritative master node to many slave nodes.
//!
//! The library holds the verified core: the wire protocol and its codec, the
//! master's event-to-message planning, the broadcast roster, the slave's
//! message applier with its expected-state projection, the reconnection
//! supervisor, and the drift detector.

pub mod bcmodel;
pub mod client;
pub mod codec;
pub mod config;
pub mod diff;
pub mod images;
pub mod master;
pub mod obs;
pub mod protocol;
pub mod server;
pub mod slave;
pub mod wire;
