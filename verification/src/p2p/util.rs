//! When to report transfer progress, and whether the host has a usable
//! network connection.

use vstd::prelude::*;

verus! {

/// Size of the chunks data is moved in.
pub const CHUNK_SIZE: usize = 4096;

/// Progress is reported each time this many bytes beyond a tenth of the
/// total have passed since the last report.
pub open spec fn notify_threshold(total_size: usize) -> nat {
    ((total_size / 10) + CHUNK_SIZE * 256) as nat
}

/// Whether `current_size` bytes since the last report call for a new one:
/// at least a tenth of `total_size` plus 256 chunks.
pub fn time_to_notify(current_size: usize, total_size: usize) -> (r: bool)
    ensures
        r == (current_size >= notify_threshold(total_size)),
{
    current_size >= (total_size / 10) + CHUNK_SIZE * 256
}

/// A network interface as the system reports it.
#[derive(Debug, Clone)]
pub struct NetworkInterface {
    pub name: String,
    pub is_loopback: bool,
    pub is_up: bool,
    pub n_addresses: usize,
}

/// An interface can carry the application's traffic: it is up, is not a
/// loopback and has an address.
pub open spec fn usable(i: NetworkInterface) -> bool {
    !i.is_loopback && i.is_up && i.n_addresses > 0
}

/// Why the network cannot be used.
#[derive(Debug, Clone, Copy, PartialEq, Eq, Structural)]
pub enum NetworkError {
    /// No interface can carry traffic.
    NoConnection,
}

impl NetworkError {
    /// The error's message.
    pub fn message(&self) -> (m: String)
        ensures
            m@ == "There is no network connection available"@,
    {
        "There is no network connection available".to_owned()
    }
}

/// The position of the first usable interface, if there is one.
pub fn default_interface(interfaces: &Vec<NetworkInterface>) -> (r: Option<usize>)
    ensures
        match r {
            Some(i) => i < interfaces.len() && usable(interfaces@[i as int]) && forall|j: int|
                0 <= j < i ==> !usable(#[trigger] interfaces@[j]),
            None => forall|j: int| 0 <= j < interfaces.len() ==> !usable(#[trigger] interfaces@[j]),
        },
{
    let mut i: usize = 0;
    while i < interfaces.len()
        invariant
            i <= interfaces.len(),
            forall|j: int| 0 <= j < i ==> !usable(#[trigger] interfaces@[j]),
        decreases interfaces.len() - i,
    {
        let it = &interfaces[i];
        if !it.is_loopback && it.is_up && it.n_addresses > 0 {
            return Some(i);
        }
        i = i + 1;
    }
    None
}

/// Succeeds when some interface is usable; otherwise there is no network
/// connection available.
pub fn check_network_interfaces(interfaces: &Vec<NetworkInterface>) -> (r: Result<(), NetworkError>)
    ensures
        r is Ok <==> exists|j: int| 0 <= j < interfaces.len() && usable(#[trigger] interfaces@[j]),
{
    match default_interface(interfaces) {
        Some(i) => {
            assert(usable(interfaces@[i as int]));
            Ok(())
        },
        None => Err(NetworkError::NoConnection),
    }
}

} // verus!
