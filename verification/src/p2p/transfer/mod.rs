//! The transfer protocol: handshake messages, the order of a transfer on
//! each side, payloads, the reader bookkeeping and the transfer queue.

pub mod behaviour;
pub mod digest;
pub mod directory;
pub mod file;
pub mod jobs;
pub mod metadata;
pub mod proto;
pub mod protocol;
pub mod reader;
pub mod session;
