//! The decisions of the network loop: what becomes of a file queued by the
//! window and of each event the swarm reports, and when the loop may start.

use vstd::prelude::*;
use crate::p2p::discovery::protocol::DiscoveryEvent;
use crate::p2p::peer::{OperatingSystem, PeerEvent};
use crate::p2p::transfer::file::{FileToSend, Payload};
use crate::p2p::transfer::protocol::TransferPayload;
use crate::p2p::util::NetworkError;

verus! {

/// What the network loop is woken by.
#[derive(Debug)]
pub enum SwarmInput {
    /// The window queued a file to send.
    FileQueued(FileToSend),
    /// mDNS saw peers, each by id and address.
    PeersDiscovered(Vec<(String, String)>),
    /// The mDNS records of peers expired, each by id and address.
    PeersExpired(Vec<(String, String)>),
    /// A peer told its host name and system.
    PeerDescribed(DiscoveryEvent),
    /// A transfer was received in full.
    TransferReceived(TransferPayload),
}

/// What the network loop does, in order.
#[derive(Debug)]
pub enum ServerCommand {
    /// Queue the file on the transfer behaviour.
    PushFile(FileToSend),
    /// Hand a peer seen at an address to the discovery behaviour.
    AddPeer(String, String),
    /// Make the discovery behaviour forget a peer, then show the peers left.
    RemovePeer(String),
    /// Record a peer's host name and system, then show the peers.
    UpdatePeer(String, String, OperatingSystem),
    /// Remove the file at this path.
    RemoveFile(String),
    /// Tell the window.
    Notify(PeerEvent),
}

/// The commands for a list of peers seen by mDNS: each is handed to the
/// discovery behaviour, in order.
fn add_all(peers: Vec<(String, String)>) -> (cs: Vec<ServerCommand>)
    ensures
        cs@.len() == peers@.len(),
        forall|i: int|
            0 <= i < peers@.len() ==> #[trigger] cs@[i] == ServerCommand::AddPeer(
                peers@[i].0,
                peers@[i].1,
            ),
{
    let mut cs: Vec<ServerCommand> = Vec::new();
    let mut i: usize = 0;
    while i < peers.len()
        invariant
            i <= peers@.len(),
            cs@.len() == i,
            forall|k: int|
                0 <= k < i ==> #[trigger] cs@[k] == ServerCommand::AddPeer(peers@[k].0, peers@[k].1),
        decreases peers.len() - i,
    {
        let id = peers[i].0.clone();
        let addr = peers[i].1.clone();
        cs.push(ServerCommand::AddPeer(id, addr));
        i = i + 1;
    }
    cs
}

/// The commands for a list of expired mDNS records: each peer is
/// forgotten, in order.
fn remove_all(peers: Vec<(String, String)>) -> (cs: Vec<ServerCommand>)
    ensures
        cs@.len() == peers@.len(),
        forall|i: int|
            0 <= i < peers@.len() ==> #[trigger] cs@[i] == ServerCommand::RemovePeer(peers@[i].0),
{
    let mut cs: Vec<ServerCommand> = Vec::new();
    let mut i: usize = 0;
    while i < peers.len()
        invariant
            i <= peers@.len(),
            cs@.len() == i,
            forall|k: int| 0 <= k < i ==> #[trigger] cs@[k] == ServerCommand::RemovePeer(peers@[k].0),
        decreases peers.len() - i,
    {
        let id = peers[i].0.clone();
        cs.push(ServerCommand::RemovePeer(id));
        i = i + 1;
    }
    cs
}

/// What the network loop does for `input`: a queued file goes to the
/// transfer behaviour; peers seen or expired go to the discovery behaviour
/// one by one; a peer's description is recorded; a received transfer is
/// cleaned up (a received text's file is removed, when it has one) and
/// reported to the window as a correct file.
pub fn commands_for(input: SwarmInput) -> (cs: Vec<ServerCommand>)
    ensures
        match input {
            SwarmInput::FileQueued(f) => cs@ == seq![ServerCommand::PushFile(f)],
            SwarmInput::PeersDiscovered(peers) => cs@.len() == peers@.len() && forall|i: int|
                0 <= i < peers@.len() ==> #[trigger] cs@[i] == ServerCommand::AddPeer(
                    peers@[i].0,
                    peers@[i].1,
                ),
            SwarmInput::PeersExpired(peers) => cs@.len() == peers@.len() && forall|i: int|
                0 <= i < peers@.len() ==> #[trigger] cs@[i] == ServerCommand::RemovePeer(
                    peers@[i].0,
                ),
            SwarmInput::PeerDescribed(e) => cs@ == seq![
                ServerCommand::UpdatePeer(e.peer, e.hostname, e.os),
            ],
            SwarmInput::TransferReceived(t) => {
                let report = ServerCommand::Notify(PeerEvent::FileCorrect(t.name, t.payload));
                if t.payload is Text && t.target_path is Some {
                    cs@ == seq![ServerCommand::RemoveFile(t.target_path->0), report]
                } else {
                    cs@ == seq![report]
                }
            },
        },
{
    let mut cs: Vec<ServerCommand> = Vec::new();
    match input {
        SwarmInput::FileQueued(f) => {
            cs.push(ServerCommand::PushFile(f));
        },
        SwarmInput::PeersDiscovered(peers) => {
            cs = add_all(peers);
        },
        SwarmInput::PeersExpired(peers) => {
            cs = remove_all(peers);
        },
        SwarmInput::PeerDescribed(e) => {
            cs.push(ServerCommand::UpdatePeer(e.peer, e.hostname, e.os));
        },
        SwarmInput::TransferReceived(t) => {
            if let Payload::Text(_) = &t.payload {
                if let Some(path) = &t.target_path {
                    cs.push(ServerCommand::RemoveFile(path.clone()));
                }
            }
            cs.push(ServerCommand::Notify(PeerEvent::FileCorrect(t.name, t.payload)));
        },
    }
    cs
}

/// Before the network loop starts: with a usable network nothing is said
/// and the loop starts; without one the window is told why, and the check
/// is made again later.
pub fn network_wait(check: Result<(), NetworkError>) -> (e: Option<PeerEvent>)
    ensures
        check is Ok ==> e is None,
        check is Err ==> (e matches Some(PeerEvent::Error(m)) && m@
            == "There is no network connection available"@),
{
    match check {
        Ok(()) => None,
        Err(err) => Some(PeerEvent::Error(err.message())),
    }
}

} // verus!
