//! Local-network file sharing: the verified core of peer discovery, the
//! transfer handshake wire format and session order, transfer bookkeeping,
//! download paths, user configuration, the firewall check's decisions and
//! the texts and choices of the user interface.

pub mod bluetooth;
pub mod dnd;
pub mod firewall;
pub mod p2p;
pub mod paths;
pub mod text;
pub mod transfer;
pub mod user_data;

