//! The discovery side of the network behaviour: the table of known peers
//! and the actions handed to the swarm, oldest first.

use vstd::prelude::*;
use std::collections::VecDeque;
use crate::p2p::discovery::protocol::{Discovery, DiscoveryEvent};
use crate::p2p::peer::{copy_peers, CurrentPeers, OperatingSystem, Peer};
use crate::text::{chars_of, string_of};

verus! {

/// Seconds an outbound discovery substream may take.
pub const OUTBOUND_SUBSTREAM_TIMEOUT: u64 = 2;

/// What the behaviour asks of the swarm.
#[derive(Debug)]
pub enum DiscoveryAction<C> {
    /// Dial `peer_id` at `address`, unless it is being dialed already.
    Dial { peer_id: String, address: String },
    /// Start the host exchange on connection `connection` with `peer_id`.
    NotifyHandler { peer_id: String, connection: C, event: Discovery },
    /// Report what was learnt about a peer.
    GenerateEvent(DiscoveryEvent),
}

/// The host name shown for a peer until it tells its own.
pub open spec fn not_known_word() -> Seq<char> {
    seq!['N', 'o', 't', ' ', 'k', 'n', 'o', 'w', 'n', ' ', 'y', 'e', 't']
}

/// No two peers share an id.
pub open spec fn ids_unique(peers: Seq<Peer>) -> bool {
    forall|i: int, j: int|
        0 <= i < j < peers.len() ==> #[trigger] peers[i].peer_id@ != #[trigger] peers[j].peer_id@
}

/// The position of the first peer with id `id` from position `i` on, or -1.
pub open spec fn index_from(peers: Seq<Peer>, id: Seq<char>, i: int) -> int
    decreases peers.len() - i,
{
    if i < 0 || i >= peers.len() {
        -1
    } else if peers[i].peer_id@ == id {
        i
    } else {
        index_from(peers, id, i + 1)
    }
}

/// The position of the peer with id `id`, or -1.
pub open spec fn index_of(peers: Seq<Peer>, id: Seq<char>) -> int {
    index_from(peers, id, 0)
}

/// `p` is the entry made for a newly met peer `id` at `address`: named
/// after its id, its host and system not known yet.
pub open spec fn is_new_entry(p: Peer, id: Seq<char>, address: Seq<char>) -> bool {
    &&& p.name@ == id
    &&& p.peer_id@ == id
    &&& p.address@ == address
    &&& p.hostname@ == not_known_word()
    &&& p.os == OperatingSystem::Unknown
}

proof fn lemma_index_from(peers: Seq<Peer>, id: Seq<char>, i: int)
    requires
        0 <= i <= peers.len(),
    ensures
        index_from(peers, id, i) == -1 || (i <= index_from(peers, id, i) < peers.len()
            && peers[index_from(peers, id, i)].peer_id@ == id),
        index_from(peers, id, i) == -1 ==> forall|j: int|
            i <= j < peers.len() ==> peers[j].peer_id@ != id,
        index_from(peers, id, i) != -1 ==> forall|j: int|
            i <= j < index_from(peers, id, i) ==> peers[j].peer_id@ != id,
    decreases peers.len() - i,
{
    if i < peers.len() && peers[i].peer_id@ != id {
        lemma_index_from(peers, id, i + 1);
    }
}

/// Where the peer with id `id` stands: either nowhere, or at `index_of`.
pub proof fn lemma_index_of(peers: Seq<Peer>, id: Seq<char>)
    ensures
        index_of(peers, id) == -1 <==> forall|j: int|
            0 <= j < peers.len() ==> peers[j].peer_id@ != id,
        index_of(peers, id) != -1 ==> 0 <= index_of(peers, id) < peers.len() && peers[index_of(
            peers,
            id,
        )].peer_id@ == id,
{
    lemma_index_from(peers, id, 0);
}

/// The machine's host name (the `hostname` crate's `get`), converted
/// lossily to text; `None` when the system does not tell. It depends on the
/// machine, so nothing is stated of it.
#[verifier::external_body]
fn system_hostname() -> (h: Option<String>) {
    match hostname::get() {
        Ok(value) => Some(value.to_string_lossy().into_owned()),
        Err(_) => None,
    }
}

/// The host name told to peers: the one the system gave, or empty text
/// when it gave none.
pub fn hostname_or_empty(found: Option<String>) -> (h: String)
    ensures
        found matches Some(v) ==> h == v,
        found is None ==> h@ == Seq::<char>::empty(),
{
    match found {
        Some(v) => v,
        None => String::new(),
    }
}

/// The system told to peers for the platform named `platform` (as Rust
/// names target systems): Linux and Windows are told as such, any other
/// platform as `Other`.
pub open spec fn os_for(platform: Seq<char>) -> OperatingSystem {
    if platform == "linux"@ {
        OperatingSystem::Linux
    } else if platform == "windows"@ {
        OperatingSystem::Windows
    } else {
        OperatingSystem::Other
    }
}

/// The peer table and the actions waiting for the swarm.
pub struct DiscoveryBehaviour<C> {
    events: VecDeque<DiscoveryAction<C>>,
    peers: Vec<Peer>,
    hostname: String,
    os: OperatingSystem,
}

impl<C> DiscoveryBehaviour<C> {
    /// The name this host tells its peers: the system's host name, or empty
    /// text when the system does not give one.
    pub fn get_hostname() -> (h: String) {
        hostname_or_empty(system_hostname())
    }

    /// The system this host tells its peers, for the platform named
    /// `platform`.
    pub fn get_os(platform: &str) -> (os: OperatingSystem)
        ensures
            os == os_for(platform@),
    {
        let linux = "linux".to_owned();
        let windows = "windows".to_owned();
        let name = platform.to_owned();
        if name == linux {
            OperatingSystem::Linux
        } else if name == windows {
            OperatingSystem::Windows
        } else {
            OperatingSystem::Other
        }
    }

    /// The known peers.
    pub closed spec fn table(&self) -> Seq<Peer> {
        self.peers@
    }

    /// The actions waiting for the swarm, oldest first.
    pub closed spec fn queue(&self) -> Seq<DiscoveryAction<C>> {
        self.events@
    }

    /// What this host tells its peers.
    pub closed spec fn host(&self) -> (String, OperatingSystem) {
        (self.hostname, self.os)
    }

    /// The table never holds two peers with the same id.
    pub closed spec fn inv(&self) -> bool {
        ids_unique(self.peers@)
    }

    /// A behaviour that knows no peer yet and tells peers `hostname` and
    /// `os`.
    pub fn new(hostname: String, os: OperatingSystem) -> (b: DiscoveryBehaviour<C>)
        ensures
            b.inv(),
            b.table() == Seq::<Peer>::empty(),
            b.queue() == Seq::<DiscoveryAction<C>>::empty(),
            b.host() == (hostname, os),
    {
        DiscoveryBehaviour { events: VecDeque::new(), peers: Vec::new(), hostname, os }
    }

    fn find(&self, peer_id: &String) -> (r: Option<usize>)
        ensures
            match r {
                Some(i) => index_of(self.peers@, peer_id@) == i,
                None => index_of(self.peers@, peer_id@) == -1,
            },
    {
        let mut i: usize = 0;
        while i < self.peers.len()
            invariant
                i <= self.peers.len(),
                index_of(self.peers@, peer_id@) == index_from(self.peers@, peer_id@, i as int),
            decreases self.peers.len() - i,
        {
            if self.peers[i].peer_id == *peer_id {
                return Some(i);
            }
            i = i + 1;
        }
        None
    }

    fn new_entry(peer_id: &String, address: String) -> (p: Peer)
        ensures
            is_new_entry(p, peer_id@, address@),
    {
        let w = chars_of("Not known yet");
        proof {
            reveal_strlit("Not known yet");
            assert(w@ =~= not_known_word());
        }
        Peer {
            name: peer_id.clone(),
            address,
            peer_id: peer_id.clone(),
            hostname: string_of(&w),
            os: OperatingSystem::Unknown,
        }
    }

    /// The discovery message this host sends.
    pub fn discovery(&self) -> (d: Discovery)
        ensures
            d.hostname == self.host().0,
            d.os == self.host().1,
    {
        Discovery { hostname: self.hostname.clone(), os: self.os }
    }

    /// Takes in a peer seen on the network at `addr`. A peer not known yet is
    /// dialed and entered in the table; a known peer whose system is still
    /// unknown is dialed again; any other known peer needs nothing.
    pub fn add_peer(&mut self, peer_id: String, addr: String)
        requires
            old(self).inv(),
        ensures
            final(self).inv(),
            final(self).host() == old(self).host(),
            ({
                let i = index_of(old(self).table(), peer_id@);
                if i == -1 {
                    &&& final(self).queue() == old(self).queue().push(
                        DiscoveryAction::Dial { peer_id, address: addr },
                    )
                    &&& final(self).table().len() == old(self).table().len() + 1
                    &&& final(self).table().drop_last() == old(self).table()
                    &&& is_new_entry(final(self).table().last(), peer_id@, addr@)
                } else if old(self).table()[i].os == OperatingSystem::Unknown {
                    &&& final(self).queue() == old(self).queue().push(
                        DiscoveryAction::Dial { peer_id, address: addr },
                    )
                    &&& final(self).table() == old(self).table()
                } else {
                    &&& final(self).queue() == old(self).queue()
                    &&& final(self).table() == old(self).table()
                }
            }),
    {
        proof {
            lemma_index_of(self.peers@, peer_id@);
        }
        match self.find(&peer_id) {
            Some(i) => {
                if self.peers[i].os == OperatingSystem::Unknown {
                    self.events.push_back(DiscoveryAction::Dial { peer_id, address: addr });
                }
            },
            None => {
                let entry = Self::new_entry(&peer_id, addr.clone());
                self.events.push_back(DiscoveryAction::Dial { peer_id, address: addr });
                self.peers.push(entry);
                assert(self.peers@.drop_last() =~= old(self).peers@);
            },
        }
    }

    /// Forgets the peer with id `peer_id`; the remaining peers are returned
    /// to be shown.
    pub fn remove_peer(&mut self, peer_id: &String) -> (shown: CurrentPeers)
        requires
            old(self).inv(),
        ensures
            final(self).inv(),
            final(self).host() == old(self).host(),
            final(self).queue() == old(self).queue(),
            final(self).table() == (if index_of(old(self).table(), peer_id@) == -1 {
                old(self).table()
            } else {
                old(self).table().remove(index_of(old(self).table(), peer_id@))
            }),
            index_of(final(self).table(), peer_id@) == -1,
            shown@ == final(self).table(),
    {
        proof {
            lemma_index_of(self.peers@, peer_id@);
        }
        match self.find(peer_id) {
            Some(i) => {
                self.peers.remove(i);
                proof {
                    let o = old(self).peers@;
                    let n = self.peers@;
                    assert forall|a: int, b: int| 0 <= a < b < n.len() implies #[trigger] n[a].peer_id@
                        != #[trigger] n[b].peer_id@ by {
                        let a2 = if a < i { a } else { a + 1 };
                        let b2 = if b < i { b } else { b + 1 };
                        assert(n[a] == o[a2]);
                        assert(n[b] == o[b2]);
                    }
                    assert forall|j: int| 0 <= j < n.len() implies n[j].peer_id@ != peer_id@ by {
                        let j2 = if j < i { j } else { j + 1 };
                        assert(n[j] == o[j2]);
                    }
                    lemma_index_of(n, peer_id@);
                }
            },
            None => {},
        }
        copy_peers(&self.peers)
    }

    /// Records what peer `peer_id` told about itself; the peers are returned
    /// to be shown. An unknown peer changes nothing.
    pub fn update_peer(&mut self, peer_id: &String, hostname: String, os: OperatingSystem) -> (shown:
        CurrentPeers)
        requires
            old(self).inv(),
        ensures
            final(self).inv(),
            final(self).host() == old(self).host(),
            final(self).queue() == old(self).queue(),
            index_of(old(self).table(), peer_id@) == -1 ==> final(self).table() == old(
                self,
            ).table(),
            index_of(old(self).table(), peer_id@) != -1 ==> ({
                let i = index_of(old(self).table(), peer_id@);
                let p = old(self).table()[i];
                final(self).table() == old(self).table().update(
                    i,
                    Peer { hostname, os, ..p },
                )
            }),
            shown@ == final(self).table(),
    {
        proof {
            lemma_index_of(self.peers@, peer_id@);
        }
        match self.find(peer_id) {
            Some(i) => {
                let old_peer = self.peers[i].duplicate();
                let updated = Peer { hostname, os, ..old_peer };
                self.peers.set(i, updated);
                proof {
                    let o = old(self).peers@;
                    let n = self.peers@;
                    assert forall|a: int, b: int| 0 <= a < b < n.len() implies #[trigger] n[a].peer_id@
                        != #[trigger] n[b].peer_id@ by {
                        assert(n[a].peer_id == o[a].peer_id);
                        assert(n[b].peer_id == o[b].peer_id);
                    }
                }
            },
            None => {},
        }
        copy_peers(&self.peers)
    }

    fn set_address(&mut self, i: usize, address: String)
        requires
            old(self).inv(),
            i < old(self).table().len(),
        ensures
            final(self).inv(),
            final(self).host() == old(self).host(),
            final(self).queue() == old(self).queue(),
            final(self).table() == old(self).table().update(
                i as int,
                Peer { address, ..old(self).table()[i as int] },
            ),
    {
        let old_peer = self.peers[i].duplicate();
        self.peers.set(i, Peer { address, ..old_peer });
        proof {
            let o = old(self).peers@;
            let n = self.peers@;
            assert forall|a: int, b: int| 0 <= a < b < n.len() implies #[trigger] n[a].peer_id@
                != #[trigger] n[b].peer_id@ by {
                assert(n[a].peer_id == o[a].peer_id);
                assert(n[b].peer_id == o[b].peer_id);
            }
        }
    }

    /// A peer connected to this host from `remote_addr`: a known peer's
    /// address is updated, an unknown peer is entered. Returns the message
    /// inbound discovery substreams answer with.
    pub fn handle_established_inbound_connection(&mut self, peer_id: String, remote_addr: String) -> (d:
        Discovery)
        requires
            old(self).inv(),
        ensures
            final(self).inv(),
            final(self).host() == old(self).host(),
            final(self).queue() == old(self).queue(),
            d.hostname == old(self).host().0 && d.os == old(self).host().1,
            index_of(old(self).table(), peer_id@) != -1 ==> ({
                let i = index_of(old(self).table(), peer_id@);
                final(self).table() == old(self).table().update(
                    i,
                    Peer { address: remote_addr, ..old(self).table()[i] },
                )
            }),
            index_of(old(self).table(), peer_id@) == -1 ==> final(self).table().drop_last() == old(
                self,
            ).table() && final(self).table().len() == old(self).table().len() + 1
                && is_new_entry(final(self).table().last(), peer_id@, remote_addr@),
    {
        proof {
            lemma_index_of(self.peers@, peer_id@);
        }
        match self.find(&peer_id) {
            Some(i) => {
                self.set_address(i, remote_addr);
            },
            None => {
                let entry = Self::new_entry(&peer_id, remote_addr);
                self.peers.push(entry);
                assert(self.peers@.drop_last() =~= old(self).peers@);
            },
        }
        self.discovery()
    }

    /// This host connected to a peer at `addr` on connection `connection`:
    /// a known peer's address is updated, and the host exchange is started on
    /// that connection. Returns the message inbound discovery substreams
    /// answer with.
    pub fn handle_established_outbound_connection(
        &mut self,
        connection: C,
        peer_id: String,
        addr: String,
    ) -> (d: Discovery)
        requires
            old(self).inv(),
        ensures
            final(self).inv(),
            final(self).host() == old(self).host(),
            d.hostname == old(self).host().0 && d.os == old(self).host().1,
            final(self).queue().len() == old(self).queue().len() + 1,
            final(self).queue().drop_last() == old(self).queue(),
            final(self).queue().last() matches DiscoveryAction::NotifyHandler { peer_id: p, connection: c, event: e }
                && p == peer_id && c == connection && e.hostname == old(self).host().0 && e.os
                == old(self).host().1,
            index_of(old(self).table(), peer_id@) != -1 ==> ({
                let i = index_of(old(self).table(), peer_id@);
                final(self).table() == old(self).table().update(
                    i,
                    Peer { address: addr, ..old(self).table()[i] },
                )
            }),
            index_of(old(self).table(), peer_id@) == -1 ==> final(self).table() == old(
                self,
            ).table(),
    {
        proof {
            lemma_index_of(self.peers@, peer_id@);
        }
        match self.find(&peer_id) {
            Some(i) => {
                self.set_address(i, addr);
            },
            None => {},
        }
        let event = self.discovery();
        self.events.push_back(DiscoveryAction::NotifyHandler { peer_id, connection, event });
        self.discovery()
    }

    /// A connection with peer `peer_id` closed: the peer is forgotten; the
    /// remaining peers are returned to be shown.
    pub fn on_connection_closed(&mut self, peer_id: &String) -> (shown: CurrentPeers)
        requires
            old(self).inv(),
        ensures
            final(self).inv(),
            final(self).host() == old(self).host(),
            final(self).queue() == old(self).queue(),
            final(self).table() == (if index_of(old(self).table(), peer_id@) == -1 {
                old(self).table()
            } else {
                old(self).table().remove(index_of(old(self).table(), peer_id@))
            }),
            index_of(final(self).table(), peer_id@) == -1,
            shown@ == final(self).table(),
    {
        self.remove_peer(peer_id)
    }

    /// Peer `peer` told about itself: this is reported to the swarm.
    pub fn on_connection_handler_event(&mut self, peer: String, event: Discovery)
        ensures
            final(self).inv() == old(self).inv(),
            final(self).table() == old(self).table(),
            final(self).host() == old(self).host(),
            final(self).queue().len() == old(self).queue().len() + 1,
            final(self).queue().drop_last() == old(self).queue(),
            final(self).queue().last() matches DiscoveryAction::GenerateEvent(m) && m.peer == peer
                && m.hostname == event.hostname && m.os == event.os,
    {
        let message = DiscoveryEvent { peer, hostname: event.hostname, os: event.os };
        self.events.push_back(DiscoveryAction::GenerateEvent(message));
    }

    /// Hands the oldest waiting action to the swarm.
    pub fn poll(&mut self) -> (r: Option<DiscoveryAction<C>>)
        ensures
            final(self).inv() == old(self).inv(),
            final(self).table() == old(self).table(),
            final(self).host() == old(self).host(),
            old(self).queue().len() == 0 ==> r is None && final(self).queue() == old(self).queue(),
            old(self).queue().len() > 0 ==> r == Some(old(self).queue()[0]) && final(self).queue()
                == old(self).queue().drop_first(),
    {
        self.events.pop_front()
    }

    /// The known peers, to be shown.
    pub fn peers_event(&self) -> (shown: CurrentPeers)
        ensures
            shown@ == self.table(),
    {
        copy_peers(&self.peers)
    }
}

} // verus!
