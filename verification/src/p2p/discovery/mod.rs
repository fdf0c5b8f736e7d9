//! Peer discovery: the host information exchanged by peers, the peer table
//! and the connection handler queue.

pub mod behaviour;
pub mod handler;
pub mod proto;
pub mod protocol;
