//! What the window makes of the network side's events and of what is
//! dropped on a device: the texts it shows, the answer it sends back, and
//! which rows of the device list stay. The widgets themselves are drawn by
//! the caller.

use vstd::prelude::*;
use crate::p2p::commands::TransferCommand;
use crate::p2p::peer::{os_name, CurrentPeers, Direction, OperatingSystem, PeerEvent};
use crate::p2p::transfer::file::payload_text;
use crate::text::{chars_of, decimal, push_all, replace_all, replaced, string_of};

verus! {

/// The prefix of a local file's URI.
pub open spec fn file_scheme() -> Seq<char> {
    "file://"@
}

/// A path or URI with every `file://` taken out.
pub fn clean_file_proto(value: &str) -> (r: String)
    ensures
        r@ == replaced(value@, file_scheme(), Seq::empty()),
{
    proof {
        reveal_strlit("file://");
        reveal_strlit("");
        assert(""@ =~= Seq::<char>::empty());
    }
    replace_all(value, "file://", "")
}

/// The link to a received file at `path`.
pub fn recent_file_link(path: &str) -> (r: String)
    ensures
        r@ == file_scheme() + path@,
{
    let mut out = chars_of("file://");
    push_all(&mut out, &chars_of(path));
    string_of(&out)
}

/// The kinds of notification the window shows.
#[derive(Debug, Clone, Copy, PartialEq, Eq, Structural)]
pub enum NotificationType {
    Alert,
    Error,
}

impl NotificationType {
    /// The name of the icon shown beside the notification.
    pub fn icon_name(&self) -> (n: &'static str)
        ensures
            *self == NotificationType::Alert ==> n@ == "dialog-information"@,
            *self == NotificationType::Error ==> n@ == "dialog-warning"@,
    {
        match self {
            NotificationType::Alert => "dialog-information",
            NotificationType::Error => "dialog-warning",
        }
    }
}

/// The first component of the multiaddress `address` as the `multiaddr`
/// crate writes it, such as `/ip4/10.0.0.5`; `None` when `address` is not a
/// multiaddress or has no component.
pub uninterp spec fn multiaddr_first_component(address: Seq<char>) -> Option<Seq<char>>;

/// Parses `address` as a libp2p `Multiaddr` (`FromStr`) and writes its first
/// component (`Protocol`'s `Display`). The contract names the result.
#[verifier::external_body]
fn first_component(address: &str) -> (c: Option<String>)
    ensures
        match c {
            Some(s) => multiaddr_first_component(address@) == Some(s@),
            None => multiaddr_first_component(address@) is None,
        },
{
    match address.parse::<libp2p::Multiaddr>() {
        Ok(addr) => match addr.iter().next() {
            Some(component) => Some(component.to_string()),
            None => None,
        },
        Err(_) => None,
    }
}

/// The address shown from a multiaddress's first component: the component
/// without its `/ip4/` or `/ip6/` marks.
pub open spec fn shown_ip(component: Seq<char>) -> Seq<char> {
    replaced(replaced(component, "/ip4/"@, Seq::empty()), "/ip6/"@, Seq::empty())
}

/// The address shown from the first component `component` of a peer's
/// multiaddress.
pub fn ip_of_component(component: &str) -> (r: String)
    ensures
        r@ == shown_ip(component@),
{
    proof {
        reveal_strlit("/ip4/");
        reveal_strlit("/ip6/");
        reveal_strlit("");
        assert(""@ =~= Seq::<char>::empty());
    }
    let without_v4 = replace_all(component, "/ip4/", "");
    replace_all(without_v4.as_str(), "/ip6/", "")
}

/// The address shown for a peer at the multiaddress `address`; `None` when
/// `address` has no first component.
pub fn extract_ip(address: &str) -> (r: Option<String>)
    ensures
        match multiaddr_first_component(address@) {
            Some(c) => r matches Some(s) && s@ == shown_ip(c),
            None => r is None,
        },
{
    match first_component(address) {
        Some(c) => Some(ip_of_component(c.as_str())),
        None => None,
    }
}

/// The markup shown on a device's drop zone.
pub open spec fn peer_label_text(hostname: Seq<char>, ip: Seq<char>, os: OperatingSystem) -> Seq<
    char,
> {
    "<big><b>Device Name</b>: "@ + hostname + "</big>\n<big><b>IP Address</b>: "@ + ip
        + "</big>\n<big><b>System</b>: "@ + os_name(os) + "</big>\n"@
}

/// The markup shown on the drop zone of the device `hostname` at `ip`
/// running `os`.
pub fn peer_label(hostname: &str, ip: &str, os: OperatingSystem) -> (r: String)
    ensures
        r@ == peer_label_text(hostname@, ip@, os),
{
    let mut out = chars_of("<big><b>Device Name</b>: ");
    push_all(&mut out, &chars_of(hostname));
    push_all(&mut out, &chars_of("</big>\n<big><b>IP Address</b>: "));
    push_all(&mut out, &chars_of(ip));
    push_all(&mut out, &chars_of("</big>\n<big><b>System</b>: "));
    push_all(&mut out, &chars_of(os.name()));
    push_all(&mut out, &chars_of("</big>\n"));
    string_of(&out)
}

/// A size in bytes as the `bytesize` crate shows it, such as `1.5 MB`.
pub uninterp spec fn readable_size(size: u64) -> Seq<char>;

/// The `bytesize` crate's `Display` of `ByteSize(size)`: below 1000 bytes
/// the number of bytes and ` B`; above, one decimal of the largest decimal
/// unit, which the contract only names.
#[verifier::external_body]
fn readable_size_text(size: u64) -> (r: String)
    ensures
        r@ == readable_size(size),
        size < 1000 ==> r@ == decimal(size as nat) + " B"@,
{
    bytesize::ByteSize(size).to_string()
}

/// The question asked when a file arrives.
pub open spec fn accept_prompt_text(name: Seq<char>, size: u64) -> Seq<char> {
    "Incoming file "@ + name + " ("@ + readable_size(size) + ").\n\nWould you like to accept the file?"@
}

/// The question asked when the file `name` of `size` bytes arrives.
pub fn accept_prompt(name: &str, size: usize) -> (r: String)
    ensures
        r@ == accept_prompt_text(name@, size as u64),
{
    let mut out = chars_of("Incoming file ");
    push_all(&mut out, &chars_of(name));
    push_all(&mut out, &chars_of(" ("));
    let readable = readable_size_text(size as u64);
    push_all(&mut out, &chars_of(readable.as_str()));
    push_all(&mut out, &chars_of(").\n\nWould you like to accept the file?"));
    string_of(&out)
}

/// The command sent back once the user answered the question about the
/// file with digest `hash`: anything but yes denies it.
pub fn command_for_response(accepted: bool, hash: String) -> (c: TransferCommand)
    ensures
        accepted ==> c == TransferCommand::Accept(hash),
        !accepted ==> c == TransferCommand::Deny(hash),
{
    if accepted {
        TransferCommand::Accept(hash)
    } else {
        TransferCommand::Deny(hash)
    }
}

/// Std's `Debug` of a string: quoted, with special characters escaped.
pub uninterp spec fn debug_text(s: Seq<char>) -> Seq<char>;

/// Writes `s` as std's `Debug` writes a string. The contract names the
/// result.
#[verifier::external_body]
fn debug_string(s: &str) -> (r: String)
    ensures
        r@ == debug_text(s@),
{
    format!("{:?}", s)
}

/// What the window does for an event of the network side.
#[derive(Debug)]
pub enum WindowAction {
    /// Show the progress of a transfer: bytes done, bytes in all.
    Progress(Direction, usize, usize),
    /// Show an information notification with this text.
    Alert(String),
    /// Show a warning notification with this text.
    Failure(String),
    /// Ask whether to accept the file `name` of `size` bytes with digest
    /// `hash`.
    AskAccept { name: String, hash: String, size: usize },
    /// Stop listening for events.
    Detach,
}

/// What the window does for `event`: progress and completed files,
/// incorrect files and errors are shown, an incoming file is asked about,
/// and any other event stops the listening.
pub fn window_action(event: PeerEvent) -> (a: WindowAction)
    ensures
        match event {
            PeerEvent::TransferProgress((done, total, d)) => a == WindowAction::Progress(d, done, total),
            PeerEvent::FileCorrect(name, payload) => a matches WindowAction::Alert(t) && t@
                == "Received "@ + name@ + " \nSaved in "@ + payload_text(payload),
            PeerEvent::FileIncorrect => a matches WindowAction::Failure(t) && t@
                == "File is incorrect"@,
            PeerEvent::FileIncoming(name, hash, size, _) => a == WindowAction::AskAccept {
                name,
                hash,
                size,
            },
            PeerEvent::Error(e) => a matches WindowAction::Failure(t) && t@
                == "Encountered an error: "@ + debug_text(e@),
            _ => a is Detach,
        },
{
    match event {
        PeerEvent::TransferProgress((done, total, d)) => WindowAction::Progress(d, done, total),
        PeerEvent::FileCorrect(name, payload) => {
            let mut out = chars_of("Received ");
            push_all(&mut out, &chars_of(name.as_str()));
            push_all(&mut out, &chars_of(" \nSaved in "));
            let described = payload.describe();
            push_all(&mut out, &chars_of(described.as_str()));
            WindowAction::Alert(string_of(&out))
        },
        PeerEvent::FileIncorrect => WindowAction::Failure("File is incorrect".to_owned()),
        PeerEvent::FileIncoming(name, hash, size, _) => WindowAction::AskAccept { name, hash, size },
        PeerEvent::Error(e) => {
            let mut out = chars_of("Encountered an error: ");
            let quoted = debug_string(e.as_str());
            push_all(&mut out, &chars_of(quoted.as_str()));
            WindowAction::Failure(string_of(&out))
        },
        _ => WindowAction::Detach,
    }
}

/// The text on the progress bar for a transfer in direction `d`.
pub fn progress_text(d: Direction) -> (t: &'static str)
    ensures
        d == Direction::Incoming ==> t@ == "Receiving file"@,
        d == Direction::Outgoing ==> t@ == "Sending file"@,
{
    match d {
        Direction::Incoming => "Receiving file",
        Direction::Outgoing => "Sending file",
    }
}

/// An event for the device list: a new list of peers is taken, any other
/// event is handed on to the window.
pub fn route_peer_event(event: PeerEvent) -> (r: Result<CurrentPeers, PeerEvent>)
    ensures
        match event {
            PeerEvent::PeersUpdated(list) => r == Ok::<CurrentPeers, PeerEvent>(list),
            _ => r == Err::<CurrentPeers, PeerEvent>(event),
        },
{
    match event {
        PeerEvent::PeersUpdated(list) => Ok(list),
        other => Err(other),
    }
}

/// The name of the row shown while no device is known.
pub open spec fn empty_row() -> Seq<char> {
    "empty-item"@
}

/// The name of a notification row.
pub open spec fn notification_row() -> Seq<char> {
    "notification"@
}

/// The placeholder is shown when no row but the placeholder is in the list
/// whose row names are `rows`.
pub fn shows_placeholder(rows: &Vec<String>) -> (r: bool)
    ensures
        r <==> forall|i: int| 0 <= i < rows@.len() ==> #[trigger] rows@[i]@ == empty_row(),
{
    let empty = "empty-item".to_owned();
    let mut i: usize = 0;
    while i < rows.len()
        invariant
            i <= rows@.len(),
            empty@ == empty_row(),
            forall|k: int| 0 <= k < i ==> #[trigger] rows@[k]@ == empty_row(),
        decreases rows.len() - i,
    {
        if !(rows[i] == empty) {
            return false;
        }
        i = i + 1;
    }
    true
}

/// A row is removed when a new list of peers arrives unless it is the
/// placeholder or a notification.
pub open spec fn removable(name: Seq<char>) -> bool {
    name != empty_row() && name != notification_row()
}

/// The positions, in order, of the rows named `rows` that are removed when
/// a new list of peers arrives.
pub fn rows_to_remove(rows: &Vec<String>) -> (r: Vec<usize>)
    ensures
        forall|k: int| 0 <= k < r@.len() ==> #[trigger] r@[k] < rows@.len() && removable(rows@[r@[k] as int]@),
        forall|k: int, l: int| 0 <= k < l < r@.len() ==> r@[k] < r@[l],
        forall|i: int| 0 <= i < rows@.len() && removable(#[trigger] rows@[i]@) ==> r@.contains(i as usize),
{
    let empty = "empty-item".to_owned();
    let notification = "notification".to_owned();
    let mut r: Vec<usize> = Vec::new();
    let mut i: usize = 0;
    while i < rows.len()
        invariant
            i <= rows@.len(),
            empty@ == empty_row(),
            notification@ == notification_row(),
            forall|k: int| 0 <= k < r@.len() ==> #[trigger] r@[k] < i && removable(rows@[r@[k] as int]@),
            forall|k: int, l: int| 0 <= k < l < r@.len() ==> r@[k] < r@[l],
            forall|j: int| 0 <= j < i && removable(#[trigger] rows@[j]@) ==> r@.contains(j as usize),
        decreases rows.len() - i,
    {
        if !(rows[i] == empty) && !(rows[i] == notification) {
            let ghost before = r@;
            r.push(i);
            assert forall|k: int| 0 <= k < r@.len() implies #[trigger] r@[k] < i + 1 && removable(
                rows@[r@[k] as int]@,
            ) by {
                if k < before.len() {
                    assert(r@[k] == before[k]);
                }
            }
            assert forall|k: int, l: int| 0 <= k < l < r@.len() implies r@[k] < r@[l] by {
                if l < before.len() {
                    assert(r@[k] == before[k] && r@[l] == before[l]);
                } else {
                    assert(r@[k] == before[k]);
                }
            }
            assert forall|j: int| 0 <= j < i + 1 && removable(#[trigger] rows@[j]@) implies r@.contains(
                j as usize,
            ) by {
                if j < i {
                    let k = choose|k: int| 0 <= k < before.len() && before[k] == j as usize;
                    assert(r@[k] == j as usize);
                } else {
                    assert(r@[r@.len() - 1] == j as usize);
                }
            }
        }
        i = i + 1;
    }
    r
}

/// A separator is drawn above a row followed by a row that is not the
/// placeholder.
pub fn needs_separator(next_row: Option<&String>) -> (r: bool)
    ensures
        r <==> (next_row matches Some(n) && n@ != empty_row()),
{
    let empty = "empty-item".to_owned();
    match next_row {
        Some(n) => !(*n == empty),
        None => false,
    }
}

/// What was dropped on a device.
#[derive(Debug, PartialEq, Eq)]
pub enum DropContent {
    /// A file or directory, by its URI.
    Uri(String),
    /// A piece of text.
    Text(String),
}

/// What is sent for a drop that offered the URIs `uris` and the text
/// `text`: the last URI when there is one, otherwise the text; a drop with
/// neither is refused.
pub fn dropped_content(uris: Vec<String>, text: Option<String>) -> (r: Result<DropContent, String>)
    ensures
        uris@.len() > 0 ==> r == Ok::<DropContent, String>(DropContent::Uri(uris@.last())),
        uris@.len() == 0 ==> match text {
            Some(t) => r == Ok::<DropContent, String>(DropContent::Text(t)),
            None => r matches Err(e) && e@ == "No text found"@,
        },
{
    let mut uris = uris;
    match uris.pop() {
        Some(uri) => Ok(DropContent::Uri(uri)),
        None => match text {
            Some(t) => Ok(DropContent::Text(t)),
            None => Err("No text found".to_owned()),
        },
    }
}

/// The path sent for a dropped URI `uri`: the local path the system gave
/// for it when it is a local file with one, the URI otherwise, either with
/// `file://` taken out.
pub fn file_payload_path(local_path: Option<String>, uri: &str) -> (r: String)
    ensures
        match local_path {
            Some(p) => r@ == replaced(p@, file_scheme(), Seq::empty()),
            None => r@ == replaced(uri@, file_scheme(), Seq::empty()),
        },
{
    match local_path {
        Some(p) => clean_file_proto(p.as_str()),
        None => clean_file_proto(uri),
    }
}

} // verus!
