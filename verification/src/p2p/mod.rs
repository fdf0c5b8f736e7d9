//! Peer-to-peer side of the application: peers, commands, the wire format,
//! the discovery and transfer protocols and the network loop's decisions.

pub mod commands;
pub mod peer;
pub mod server;
pub mod wire;
pub mod transfer;
pub mod discovery;
pub mod util;
