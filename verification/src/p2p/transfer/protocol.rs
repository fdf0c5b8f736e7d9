//! The decisions taken while a transfer is received or sent: what the
//! user is told, what the answer carries, whether the received digest
//! matches, and what is kept of a finished transfer.

use vstd::prelude::*;
use crate::p2p::commands::TransferCommand;
use crate::p2p::peer::{Direction, PeerEvent, TransferType};
use crate::p2p::transfer::file::{payload_text, FileToSend, Payload};
use crate::p2p::transfer::metadata::Metadata;
use crate::p2p::peer::transfer_type_text;
use crate::text::{chars_of, decimal, push_all, push_decimal, string_of};

verus! {

/// What a connection handler reports: a received transfer, or that a
/// transfer was sent.
#[derive(Debug)]
pub enum ProtocolEvent<P> {
    Received(P),
    Sent,
}

/// An outgoing transfer to a remote peer.
#[derive(Debug, Clone)]
pub struct TransferOut {
    pub file: FileToSend,
}

impl TransferOut {
    /// A one-line description of the outgoing transfer.
    pub fn describe(&self) -> (s: String)
        ensures
            s@ == "[TransferOut] "@ + "FileToSend name: "@ + self.file.name@ + ", type: "@
                + transfer_type_text(self.file.transfer_type),
    {
        let mut out = chars_of("[TransferOut] ");
        let f = self.file.describe();
        push_all(&mut out, &chars_of(f.as_str()));
        assert(out@ =~= "[TransferOut] "@ + ("FileToSend name: "@ + self.file.name@ + ", type: "@
            + transfer_type_text(self.file.transfer_type)));
        string_of(&out)
    }
}

/// An incoming transfer to this host, as known so far.
#[derive(Debug, Clone)]
pub struct TransferPayload {
    pub name: String,
    pub payload: Payload,
    pub hash: String,
    pub size_bytes: usize,
    pub target_path: Option<String>,
}

impl TransferPayload {
    /// A transfer still to be received, to be saved in `target_path` (or in
    /// the downloads directory).
    pub fn waiting(target_path: Option<String>) -> (t: TransferPayload)
        ensures
            t.name@ == seq!['d', 'e', 'f', 'a', 'u', 'l', 't'],
            t.hash@ == Seq::<char>::empty(),
            t.payload matches Payload::File(p) && p@ == seq!['.'],
            t.size_bytes == 0,
            t.target_path == target_path,
    {
        let name = chars_of("default");
        let dot = chars_of(".");
        proof {
            reveal_strlit("default");
            reveal_strlit(".");
        }
        TransferPayload {
            name: string_of(&name),
            payload: Payload::File(string_of(&dot)),
            hash: String::new(),
            size_bytes: 0,
            target_path,
        }
    }

    /// Records a transfer received in full: the announced name, the payload
    /// now saved at `path`, the number of bytes received; the digest was
    /// checked while receiving, so no hash is kept.
    pub fn finish(&mut self, meta: Metadata, payload: Payload, counter: usize, path: String)
        ensures
            final(self).name == meta.name,
            final(self).payload == payload,
            final(self).hash@ == Seq::<char>::empty(),
            final(self).size_bytes == counter,
            final(self).target_path == Some(path),
    {
        self.name = meta.name;
        self.hash = String::new();
        self.payload = payload;
        self.size_bytes = counter;
        self.target_path = Some(path);
    }

    /// A one-line description of the transfer.
    pub fn describe(&self) -> (s: String)
        ensures
            s@ == "TransferPayload name: "@ + self.name@ + ", payload: "@ + payload_text(
                self.payload,
            ) + ", hash: "@ + self.hash@ + ", size: "@ + decimal(self.size_bytes as nat)
                + " bytes"@,
    {
        let mut out = chars_of("TransferPayload name: ");
        push_all(&mut out, &chars_of(self.name.as_str()));
        push_all(&mut out, &chars_of(", payload: "));
        let p = self.payload.describe();
        push_all(&mut out, &chars_of(p.as_str()));
        push_all(&mut out, &chars_of(", hash: "));
        push_all(&mut out, &chars_of(self.hash.as_str()));
        push_all(&mut out, &chars_of(", size: "));
        push_decimal(self.size_bytes as u64, &mut out);
        push_all(&mut out, &chars_of(" bytes"));
        string_of(&out)
    }

    /// Removes what a received text left on disk: for a text saved at a
    /// known path, `remove` is called on that path and its outcome is
    /// returned; otherwise nothing is done.
    pub fn cleanup<F, E>(&self, remove: F) -> (r: Result<(), E>) where
        F: FnOnce(&String) -> Result<(), E>,

        requires
            forall|p: &String| remove.requires((p,)),
        ensures
            (self.payload matches Payload::Text(_) && self.target_path is Some) ==> remove.ensures(
                (&self.target_path->0,),
                r,
            ),
            !(self.payload matches Payload::Text(_) && self.target_path is Some) ==> r is Ok,
    {
        if let Payload::Text(_) = &self.payload {
            match &self.target_path {
                Some(p) => remove(p),
                None => Ok(()),
            }
        } else {
            Ok(())
        }
    }
}

impl ProtocolEvent<TransferPayload> {
    /// A one-line description of what the handler reports.
    pub fn describe(&self) -> (s: String)
        ensures
            match self {
                ProtocolEvent::Received(t) => s@ == "Received "@ + "TransferPayload name: "@ + t.name@
                    + ", payload: "@ + payload_text(t.payload) + ", hash: "@ + t.hash@
                    + ", size: "@ + decimal(t.size_bytes as nat) + " bytes"@,
                ProtocolEvent::Sent => s@ == "Sent"@,
            },
    {
        match self {
            ProtocolEvent::Received(t) => {
                let mut out = chars_of("Received ");
                let d = t.describe();
                push_all(&mut out, &chars_of(d.as_str()));
                assert(out@ =~= "Received "@ + d@);
                string_of(&out)
            },
            ProtocolEvent::Sent => "Sent".to_owned(),
        }
    }
}

/// The event that tells the user about an offered transfer.
pub fn incoming_event(meta: &Metadata) -> (e: PeerEvent)
    ensures
        e matches PeerEvent::FileIncoming(n, h, s, t) && n@ == meta.name@ && h@ == Seq::<
            char,
        >::empty() && s == meta.size && t == meta.transfer_type,
{
    PeerEvent::FileIncoming(meta.name.clone(), String::new(), meta.size, meta.transfer_type)
}

/// The answer sent back for the user's choice: whether it accepts, and
/// the hash the choice refers to.
pub fn answer_for(command: &TransferCommand) -> (a: (bool, String))
    ensures
        match command {
            TransferCommand::Accept(h) => a.0 && a.1@ == h@,
            TransferCommand::Deny(h) => !a.0 && a.1@ == h@,
        },
{
    match command {
        TransferCommand::Accept(h) => (true, h.clone()),
        TransferCommand::Deny(h) => (false, h.clone()),
    }
}

/// How a failed reception is reported: a content that failed its check is
/// incorrect; any other failure is an error.
pub fn failure_event(content_invalid: bool) -> (e: PeerEvent)
    ensures
        content_invalid ==> e is FileIncorrect,
        !content_invalid ==> (e matches PeerEvent::Error(m) && m@ == failure_text()),
{
    if content_invalid {
        PeerEvent::FileIncorrect
    } else {
        let m = chars_of("Reading payload failed");
        proof {
            reveal_strlit("Reading payload failed");
            assert(m@ =~= failure_text());
        }
        PeerEvent::Error(string_of(&m))
    }
}

/// The error shown when receiving content fails.
pub open spec fn failure_text() -> Seq<char> {
    seq![
        'R', 'e', 'a', 'd', 'i', 'n', 'g', ' ', 'p', 'a', 'y', 'l', 'o', 'a', 'd', ' ', 'f', 'a',
        'i', 'l', 'e', 'd',
    ]
}

/// The opening of a digest mismatch message.
pub open spec fn mismatch_prefix() -> Seq<char> {
    seq![
        'H', 'a', 's', 'h', ' ', 'm', 'i', 's', 'm', 'a', 't', 'c', 'h', ':', ' ', 'e', 'x', 'p',
        'e', 'c', 't', 'e', 'd', ' ',
    ]
}

/// What separates the two digests in a mismatch message.
pub open spec fn mismatch_middle() -> Seq<char> {
    seq![',', ' ', 'g', 'o', 't', ' ']
}

/// Compares the digest computed over the received bytes with the one the
/// sender announced; on a mismatch, the message names both.
pub fn check_digest(local: &String, sender: &String) -> (r: Result<(), String>)
    ensures
        local@ == sender@ ==> r is Ok,
        local@ != sender@ ==> (r matches Err(m) && m@ == mismatch_prefix() + sender@
            + mismatch_middle() + local@),
{
    if *local == *sender {
        Ok(())
    } else {
        let mut m = chars_of("Hash mismatch: expected ");
        proof {
            reveal_strlit("Hash mismatch: expected ");
            reveal_strlit(", got ");
        }
        push_all(&mut m, &chars_of(sender.as_str()));
        push_all(&mut m, &chars_of(", got "));
        push_all(&mut m, &chars_of(local.as_str()));
        assert(m@ =~= mismatch_prefix() + sender@ + mismatch_middle() + local@);
        Err(string_of(&m))
    }
}

/// The progress event for `counter` of `size` bytes in direction `direction`.
pub fn progress_event(counter: usize, size: usize, direction: Direction) -> (e: PeerEvent)
    ensures
        e == PeerEvent::TransferProgress((counter, size, direction)),
{
    PeerEvent::TransferProgress((counter, size, direction))
}

/// What follows the remote's answer to an offer: sending the content when
/// it accepted, telling the user it was rejected otherwise.
pub fn after_answer(accepted: bool) -> (e: Option<PeerEvent>)
    ensures
        accepted ==> e is None,
        !accepted ==> e matches Some(PeerEvent::TransferRejected),
{
    if accepted {
        None
    } else {
        Some(PeerEvent::TransferRejected)
    }
}

} // verus!
