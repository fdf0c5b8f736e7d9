use vstd::prelude::*;
use crate::p2p::transfer::file::Payload;

verus! {

/// Direction of a transfer as seen from this host.
#[derive(Debug, Clone, Copy, PartialEq, Eq, Structural)]
pub enum Direction {
    Incoming,
    Outgoing,
}

/// Kind of content carried by a transfer. On the wire it is the
/// protobuf enumeration `File = 0`, `Text = 1`, `Dir = 2`.
#[derive(Debug, Clone, Copy, PartialEq, Eq, Structural)]
pub enum TransferType {
    File,
    Text,
    Dir,
}

/// Operating system announced by a peer. On the wire it is the protobuf
/// enumeration `Linux = 0`, `Windows = 1`, `Macos = 2`, `Other = 3`,
/// `Unknown = 4`.
#[derive(Debug, Clone, Copy, PartialEq, Eq, Structural)]
pub enum OperatingSystem {
    Linux,
    Windows,
    Macos,
    Other,
    Unknown,
}

/// The wire number of a transfer type.
pub open spec fn transfer_type_number(t: TransferType) -> i32 {
    match t {
        TransferType::File => 0,
        TransferType::Text => 1,
        TransferType::Dir => 2,
    }
}

/// The transfer type with a given wire number, if there is one.
pub open spec fn transfer_type_of(n: i32) -> Option<TransferType> {
    if n == 0 {
        Some(TransferType::File)
    } else if n == 1 {
        Some(TransferType::Text)
    } else if n == 2 {
        Some(TransferType::Dir)
    } else {
        None
    }
}

/// The wire number of an operating system.
pub open spec fn os_number(os: OperatingSystem) -> i32 {
    match os {
        OperatingSystem::Linux => 0,
        OperatingSystem::Windows => 1,
        OperatingSystem::Macos => 2,
        OperatingSystem::Other => 3,
        OperatingSystem::Unknown => 4,
    }
}

/// The operating system with a given wire number, if there is one.
pub open spec fn os_of(n: i32) -> Option<OperatingSystem> {
    if n == 0 {
        Some(OperatingSystem::Linux)
    } else if n == 1 {
        Some(OperatingSystem::Windows)
    } else if n == 2 {
        Some(OperatingSystem::Macos)
    } else if n == 3 {
        Some(OperatingSystem::Other)
    } else if n == 4 {
        Some(OperatingSystem::Unknown)
    } else {
        None
    }
}

impl TransferType {
    /// The wire number of this transfer type.
    pub fn as_i32(&self) -> (n: i32)
        ensures
            n == transfer_type_number(*self),
    {
        match self {
            TransferType::File => 0,
            TransferType::Text => 1,
            TransferType::Dir => 2,
        }
    }

    /// The transfer type with wire number `n`, if `n` names one.
    pub fn try_from_i32(n: i32) -> (t: Option<TransferType>)
        ensures
            t == transfer_type_of(n),
    {
        if n == 0 {
            Some(TransferType::File)
        } else if n == 1 {
            Some(TransferType::Text)
        } else if n == 2 {
            Some(TransferType::Dir)
        } else {
            None
        }
    }
}

/// The name under which a transfer type is described.
pub open spec fn transfer_type_text(t: TransferType) -> Seq<char> {
    match t {
        TransferType::File => "TransferType: File"@,
        TransferType::Text => "TransferType: Text"@,
        TransferType::Dir => "TransferType: Dir"@,
    }
}

impl TransferType {
    /// The description of this transfer type.
    pub fn describe(&self) -> (s: &'static str)
        ensures
            s@ == transfer_type_text(*self),
    {
        match self {
            TransferType::File => "TransferType: File",
            TransferType::Text => "TransferType: Text",
            TransferType::Dir => "TransferType: Dir",
        }
    }
}

/// The name under which an operating system is shown.
pub open spec fn os_name(os: OperatingSystem) -> Seq<char> {
    match os {
        OperatingSystem::Linux => "Linux"@,
        OperatingSystem::Windows => "Windows"@,
        OperatingSystem::Macos => "Macos"@,
        OperatingSystem::Other => "Other"@,
        OperatingSystem::Unknown => "Unknown"@,
    }
}

impl OperatingSystem {
    /// The name under which this operating system is shown.
    pub fn name(&self) -> (s: &'static str)
        ensures
            s@ == os_name(*self),
    {
        match self {
            OperatingSystem::Linux => "Linux",
            OperatingSystem::Windows => "Windows",
            OperatingSystem::Macos => "Macos",
            OperatingSystem::Other => "Other",
            OperatingSystem::Unknown => "Unknown",
        }
    }

    /// The wire number of this operating system.
    pub fn as_i32(&self) -> (n: i32)
        ensures
            n == os_number(*self),
    {
        match self {
            OperatingSystem::Linux => 0,
            OperatingSystem::Windows => 1,
            OperatingSystem::Macos => 2,
            OperatingSystem::Other => 3,
            OperatingSystem::Unknown => 4,
        }
    }

    /// The operating system with wire number `n`, if `n` names one.
    pub fn try_from_i32(n: i32) -> (os: Option<OperatingSystem>)
        ensures
            os == os_of(n),
    {
        if n == 0 {
            Some(OperatingSystem::Linux)
        } else if n == 1 {
            Some(OperatingSystem::Windows)
        } else if n == 2 {
            Some(OperatingSystem::Macos)
        } else if n == 3 {
            Some(OperatingSystem::Other)
        } else if n == 4 {
            Some(OperatingSystem::Unknown)
        } else {
            None
        }
    }
}

/// Converting a transfer type to its wire number and back gives it back.
pub proof fn law_transfer_type_number_roundtrip(t: TransferType)
    ensures
        transfer_type_of(transfer_type_number(t)) == Some(t),
{
}

/// Converting an operating system to its wire number and back gives it back.
pub proof fn law_os_number_roundtrip(os: OperatingSystem)
    ensures
        os_of(os_number(os)) == Some(os),
{
}

/// A discovered peer. Two peers are the same peer when their ids agree.
#[derive(Debug, Clone)]
pub struct Peer {
    pub name: String,
    pub address: String,
    pub peer_id: String,
    pub hostname: String,
    pub os: OperatingSystem,
}

impl Peer {
    /// A copy of this peer.
    pub fn duplicate(&self) -> (p: Peer)
        ensures
            p == *self,
    {
        Peer {
            name: self.name.clone(),
            address: self.address.clone(),
            peer_id: self.peer_id.clone(),
            hostname: self.hostname.clone(),
            os: self.os,
        }
    }
}

/// A copy of a list of peers.
pub fn copy_peers(peers: &Vec<Peer>) -> (r: Vec<Peer>)
    ensures
        r@ == peers@,
{
    let mut r: Vec<Peer> = Vec::new();
    let mut i: usize = 0;
    while i < peers.len()
        invariant
            i <= peers.len(),
            r@ == peers@.take(i as int),
        decreases peers.len() - i,
    {
        r.push(peers[i].duplicate());
        i = i + 1;
        assert(peers@.take(i as int) == peers@.take((i - 1) as int).push(peers@[i - 1]));
    }
    assert(peers@.take(peers.len() as int) == peers@);
    r
}

impl PartialEq for Peer {
    fn eq(&self, other: &Self) -> (r: bool) {
        self.peer_id == other.peer_id
    }
}

impl vstd::std_specs::cmp::PartialEqSpecImpl for Peer {
    open spec fn obeys_eq_spec() -> bool {
        true
    }

    open spec fn eq_spec(&self, other: &Peer) -> bool {
        self.peer_id@ == other.peer_id@
    }
}


/// The peers currently known.
pub type CurrentPeers = Vec<Peer>;

/// What the network side tells the user interface.
#[derive(Debug)]
pub enum PeerEvent {
    PeersUpdated(CurrentPeers),
    WaitingForAnswer,
    TransferRejected,
    TransferProgress((usize, usize, Direction)),
    TransferCompleted,
    FileCorrect(String, Payload),
    FileIncorrect,
    FileIncoming(String, String, usize, TransferType),
    Error(String),
}

} // verus!
