//! The host information two peers exchange when they connect. Each side
//! sends one frame: the length of a `Host` message as four big-endian bytes,
//! then the message. Frames announcing more than `MAX_PEER_MESSAGE` bytes
//! are refused.

use vstd::prelude::*;
use crate::p2p::discovery::proto::{host_bytes, lemma_host_roundtrip, parse_host, Host};
use crate::p2p::peer::{law_os_number_roundtrip, os_name, os_number, os_of, OperatingSystem};
use crate::text::{chars_of, push_all, string_of};
use crate::p2p::wire::WireError;
use vstd::utf8::encode_utf8;

verus! {

/// Largest `Host` message accepted from a peer.
pub const MAX_PEER_MESSAGE: usize = 4096;

/// What this host tells a peer about itself.
#[derive(Debug)]
pub struct Discovery {
    pub hostname: String,
    pub os: OperatingSystem,
}

impl Discovery {
    /// No host name, on Linux.
    pub fn default() -> (d: Discovery)
        ensures
            d.hostname@ == Seq::<char>::empty(),
            d.os == OperatingSystem::Linux,
    {
        Discovery { hostname: String::new(), os: OperatingSystem::Linux }
    }
}

/// What was learnt about a peer.
#[derive(Debug)]
pub struct DiscoveryEvent {
    pub peer: String,
    pub hostname: String,
    pub os: OperatingSystem,
}

impl DiscoveryEvent {
    /// A one-line description of what was learnt.
    pub fn describe(&self) -> (s: String)
        ensures
            s@ == "DiscoveryEvent: peer: "@ + self.peer@ + ", hostname: "@ + self.hostname@
                + ", os: "@ + os_name(self.os),
    {
        let mut out = chars_of("DiscoveryEvent: peer: ");
        push_all(&mut out, &chars_of(self.peer.as_str()));
        push_all(&mut out, &chars_of(", hostname: "));
        push_all(&mut out, &chars_of(self.hostname.as_str()));
        push_all(&mut out, &chars_of(", os: "));
        push_all(&mut out, &chars_of(self.os.name()));
        string_of(&out)
    }
}

/// The four big-endian bytes of `n < 2^32`.
pub open spec fn be_u32_bytes(n: nat) -> Seq<u8> {
    seq![
        ((n / 0x100_0000) % 0x100) as u8,
        ((n / 0x1_0000) % 0x100) as u8,
        ((n / 0x100) % 0x100) as u8,
        (n % 0x100) as u8,
    ]
}

/// The number held by the first four bytes of `s`, big-endian.
pub open spec fn be_u32_value(s: Seq<u8>) -> nat {
    (s[0] as nat) * 0x100_0000 + (s[1] as nat) * 0x1_0000 + (s[2] as nat) * 0x100 + (s[3] as nat)
}

/// The frame that announces `hostname` and `os`: the message length, cut to
/// 32 bits, then the message.
pub open spec fn peer_frame(hostname: Seq<char>, os: OperatingSystem) -> Seq<u8> {
    let m = host_bytes(hostname, os_number(os));
    be_u32_bytes(m.len() % 0x1_0000_0000) + m
}

/// The operating system a peer reports with number `n`; an unknown number
/// counts as unknown.
pub open spec fn reported_os(n: i32) -> OperatingSystem {
    match os_of(n) {
        Some(os) => os,
        None => OperatingSystem::Unknown,
    }
}

/// The host name and operating system in the frame at the start of `s`.
pub open spec fn parse_peer_frame(s: Seq<u8>) -> Result<(Seq<char>, OperatingSystem), WireError> {
    if s.len() < 4 {
        Err(WireError::Truncated)
    } else if be_u32_value(s) > MAX_PEER_MESSAGE {
        Err(WireError::TooLarge)
    } else if s.len() - 4 < be_u32_value(s) {
        Err(WireError::Truncated)
    } else {
        match parse_host(s.subrange(4, 4 + be_u32_value(s) as int)) {
            Ok(h) => Ok((h.0, reported_os(h.1))),
            Err(e) => Err(e),
        }
    }
}

/// The frame announcing this host: its name and operating system.
pub fn encode_peer(hostname: &String, os: OperatingSystem) -> (frame: Vec<u8>)
    ensures
        frame@ == peer_frame(hostname@, os),
{
    let host = Host { hostname: hostname.clone(), os: os.as_i32() };
    let msg = host.encode();
    let len = (msg.len() as u64 % 0x1_0000_0000) as u32;
    let mut frame: Vec<u8> = Vec::new();
    frame.push(((len / 0x100_0000) % 0x100) as u8);
    frame.push(((len / 0x1_0000) % 0x100) as u8);
    frame.push(((len / 0x100) % 0x100) as u8);
    frame.push((len % 0x100) as u8);
    let mut i: usize = 0;
    while i < msg.len()
        invariant
            i <= msg.len(),
            frame@ == be_u32_bytes(len as nat) + msg@.take(i as int),
        decreases msg.len() - i,
    {
        frame.push(msg[i]);
        i = i + 1;
        assert(msg@.take(i as int) == msg@.take((i - 1) as int).push(msg@[i - 1]));
    }
    assert(msg@.take(msg.len() as int) == msg@);
    frame
}

/// The length announced by a frame header, refused when above
/// `MAX_PEER_MESSAGE`.
pub fn payload_len(header: &[u8]) -> (r: Result<usize, WireError>)
    requires
        header.len() >= 4,
    ensures
        be_u32_value(header@) > MAX_PEER_MESSAGE ==> r == Err::<usize, WireError>(
            WireError::TooLarge,
        ),
        be_u32_value(header@) <= MAX_PEER_MESSAGE ==> r == Ok::<usize, WireError>(
            be_u32_value(header@) as usize,
        ),
{
    let n: u64 = (header[0] as u64) * 0x100_0000 + (header[1] as u64) * 0x1_0000 + (header[2] as u64)
        * 0x100 + (header[3] as u64);
    if n > MAX_PEER_MESSAGE as u64 {
        Err(WireError::TooLarge)
    } else {
        Ok(n as usize)
    }
}

/// The host information in a `Host` message; an unknown operating system
/// number counts as unknown.
pub fn decode_peer(payload: &[u8]) -> (r: Result<Discovery, WireError>)
    ensures
        match parse_host(payload@) {
            Ok(h) => r matches Ok(d) && d.hostname@ == h.0 && d.os == reported_os(h.1),
            Err(e) => r matches Err(x) && x == e,
        },
{
    match Host::decode(payload) {
        Ok(h) => {
            let os = match OperatingSystem::try_from_i32(h.os) {
                Some(os) => os,
                None => OperatingSystem::Unknown,
            };
            Ok(Discovery { hostname: h.hostname, os })
        },
        Err(e) => Err(e),
    }
}

/// The host information in the frame at the start of `data`.
pub fn read_peer(data: &[u8]) -> (r: Result<Discovery, WireError>)
    ensures
        match parse_peer_frame(data@) {
            Ok(p) => r matches Ok(d) && d.hostname@ == p.0 && d.os == p.1,
            Err(e) => r matches Err(x) && x == e,
        },
{
    if data.len() < 4 {
        return Err(WireError::Truncated);
    }
    let len = match payload_len(data) {
        Ok(l) => l,
        Err(e) => return Err(e),
    };
    if data.len() - 4 < len {
        return Err(WireError::Truncated);
    }
    let payload = vstd::slice::slice_subrange(data, 4, 4 + len);
    decode_peer(payload)
}

/// Reading the frame that announces a host gives its name and operating
/// system back, whatever follows the frame, when the message fits the
/// limit.
pub proof fn law_peer_frame_roundtrip(hostname: Seq<char>, os: OperatingSystem, rest: Seq<u8>)
    requires
        host_bytes(hostname, os_number(os)).len() <= MAX_PEER_MESSAGE,
    ensures
        parse_peer_frame(peer_frame(hostname, os) + rest) == Ok::<
            (Seq<char>, OperatingSystem),
            WireError,
        >((hostname, os)),
{
    let m = host_bytes(hostname, os_number(os));
    let n = m.len();
    let s = peer_frame(hostname, os) + rest;
    let h = be_u32_bytes(n % 0x1_0000_0000);
    assert(n % 0x1_0000_0000 == n);
    assert(s[0] == h[0] && s[1] == h[1] && s[2] == h[2] && s[3] == h[3]);
    assert(be_u32_value(s) == n) by (nonlinear_arith)
        requires
            n <= 4096,
            s[0] == ((n / 0x100_0000) % 0x100) as u8,
            s[1] == ((n / 0x1_0000) % 0x100) as u8,
            s[2] == ((n / 0x100) % 0x100) as u8,
            s[3] == (n % 0x100) as u8,
    ;
    assert(s.subrange(4, 4 + n as int) =~= m);
    assert(encode_utf8(hostname).len() <= n);
    lemma_host_roundtrip(hostname, os_number(os));
    law_os_number_roundtrip(os);
}

/// What one end of the host exchange yields once both its write of its own
/// frame and its read of the other end's frame are over: the write's error
/// first, else what was read.
pub fn exchange_outcome<E>(written: Result<(), E>, read: Result<Discovery, E>) -> (r: Result<
    Discovery,
    E,
>)
    ensures
        written matches Err(e) ==> r == Err::<Discovery, E>(e),
        written is Ok ==> r == read,
{
    match written {
        Err(e) => Err(e),
        Ok(()) => read,
    }
}

/// Two ends exchanging host information on one substream, each writing its
/// own frame and reading what the other wrote, learn each other's name and
/// operating system, whichever end opened the substream and in whatever
/// order the frames travel, when both messages fit the limit.
pub proof fn law_exchange_gives_each_end_the_other(
    host_a: Seq<char>,
    os_a: OperatingSystem,
    host_b: Seq<char>,
    os_b: OperatingSystem,
)
    requires
        host_bytes(host_a, os_number(os_a)).len() <= MAX_PEER_MESSAGE,
        host_bytes(host_b, os_number(os_b)).len() <= MAX_PEER_MESSAGE,
    ensures
        parse_peer_frame(peer_frame(host_b, os_b)) == Ok::<(Seq<char>, OperatingSystem), WireError>(
            (host_b, os_b),
        ),
        parse_peer_frame(peer_frame(host_a, os_a)) == Ok::<(Seq<char>, OperatingSystem), WireError>(
            (host_a, os_a),
        ),
{
    law_peer_frame_roundtrip(host_b, os_b, Seq::empty());
    assert(peer_frame(host_b, os_b) + Seq::<u8>::empty() == peer_frame(host_b, os_b));
    law_peer_frame_roundtrip(host_a, os_a, Seq::empty());
    assert(peer_frame(host_a, os_a) + Seq::<u8>::empty() == peer_frame(host_a, os_a));
}

} // verus!
