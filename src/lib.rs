//! Peer discovery and client/server state replication for a LAN session.

pub mod catalog;
pub mod codec;
pub mod message;
pub mod registry;
pub mod session;
pub mod types;
pub mod world;
