//! The transfer side of the network behaviour: files waiting to be sent and
//! the actions handed to the swarm, newest first.

use vstd::prelude::*;
use crate::p2p::transfer::file::FileToSend;
use crate::p2p::transfer::protocol::{ProtocolEvent, TransferOut, TransferPayload};

verus! {

/// Seconds a transfer substream may stay open.
pub const TIMEOUT: u64 = 600;

/// What the behaviour asks of the swarm: hand an outgoing transfer to a
/// connection with `peer_id`, or report a received transfer.
#[derive(Debug)]
pub enum TransferAction<P> {
    NotifyHandler { peer_id: String, event: TransferOut },
    GenerateEvent(P),
}

/// The actions after queued files are turned into outgoing transfers: the
/// newest waiting file, if any, becomes the newest action.
pub open spec fn with_dispatch<P>(pending: Seq<FileToSend>, events: Seq<TransferAction<P>>) -> Seq<
    TransferAction<P>,
> {
    if pending.len() > 0 {
        events.push(dispatch_of(pending.last()))
    } else {
        events
    }
}

/// The outgoing transfer of `file`, to the peer it is meant for.
pub open spec fn dispatch_of<P>(file: FileToSend) -> TransferAction<P> {
    TransferAction::NotifyHandler { peer_id: file.peer, event: TransferOut { file } }
}

/// The action a poll hands out and the actions left, given the waiting
/// files and the queued actions.
pub open spec fn poll_outcome<P>(pending: Seq<FileToSend>, events: Seq<TransferAction<P>>) -> (
    Option<TransferAction<P>>,
    Seq<TransferAction<P>>,
) {
    let ev = with_dispatch(pending, events);
    if ev.len() > 0 {
        (Some(ev.last()), ev.drop_last())
    } else {
        (None, ev)
    }
}

/// Files to send and actions for the swarm.
pub struct TransferBehaviour<P> {
    events: Vec<TransferAction<P>>,
    payloads: Vec<FileToSend>,
    target_path: Option<String>,
}

impl<P> TransferBehaviour<P> {
    /// Where received content is saved, when not in the downloads
    /// directory.
    pub closed spec fn target(&self) -> Option<String> {
        self.target_path
    }

    /// Where received content is saved, when not in the downloads
    /// directory.
    pub fn target_path(&self) -> (t: Option<String>)
        ensures
            t == self.target(),
    {
        self.target_path.clone()
    }

    /// The files waiting to be sent, oldest first.
    pub closed spec fn pending(&self) -> Seq<FileToSend> {
        self.payloads@
    }

    /// The actions waiting for the swarm, oldest first.
    pub closed spec fn queued(&self) -> Seq<TransferAction<P>> {
        self.events@
    }

    /// A behaviour with nothing to do, saving received content in
    /// `target_path` (or in the downloads directory).
    pub fn new(target_path: Option<String>) -> (b: TransferBehaviour<P>)
        ensures
            b.pending() == Seq::<FileToSend>::empty(),
            b.queued() == Seq::<TransferAction<P>>::empty(),
            b.target() == target_path,
    {
        TransferBehaviour { events: Vec::new(), payloads: Vec::new(), target_path }
    }

    /// Queues `file` to be sent.
    pub fn push_file(&mut self, file: FileToSend)
        ensures
            final(self).pending() == old(self).pending().push(file),
            final(self).queued() == old(self).queued(),
            final(self).target() == old(self).target(),
    {
        self.payloads.push(file)
    }

    /// Queues an action for the swarm.
    pub fn push_event(&mut self, event: TransferAction<P>)
        ensures
            final(self).queued() == old(self).queued().push(event),
            final(self).pending() == old(self).pending(),
            final(self).target() == old(self).target(),
    {
        self.events.push(event)
    }

    /// The transfer awaited on a new connection.
    pub fn waiting_payload(&self) -> (t: TransferPayload)
        ensures
            t.target_path == self.target(),
            t.size_bytes == 0,
    {
        TransferPayload::waiting(self.target_path.clone())
    }

    /// Takes in what a connection handler reports: a received transfer is
    /// to be reported to the swarm; a sent one needs nothing.
    pub fn on_connection_handler_event(&mut self, event: ProtocolEvent<P>)
        ensures
            final(self).pending() == old(self).pending(),
            final(self).target() == old(self).target(),
            match event {
                ProtocolEvent::Received(d) => final(self).queued() == old(self).queued().push(
                    TransferAction::GenerateEvent(d),
                ),
                ProtocolEvent::Sent => final(self).queued() == old(self).queued(),
            },
    {
        match event {
            ProtocolEvent::Received(d) => self.events.push(TransferAction::GenerateEvent(d)),
            ProtocolEvent::Sent => {},
        }
    }

    /// Turns the newest waiting file, if any, into an outgoing transfer, then
    /// hands the newest action to the swarm.
    pub fn poll(&mut self) -> (r: Option<TransferAction<P>>)
        ensures
            final(self).pending() == (if old(self).pending().len() > 0 {
                old(self).pending().drop_last()
            } else {
                old(self).pending()
            }),
            final(self).target() == old(self).target(),
            (r, final(self).queued()) == poll_outcome(old(self).pending(), old(self).queued()),
    {
        if let Some(file) = self.payloads.pop() {
            let peer_id = file.peer.clone();
            self.events.push(TransferAction::NotifyHandler { peer_id, event: TransferOut { file } });
        }
        self.events.pop()
    }
}

/// A file queued to be sent is the next thing handed to the swarm.
pub proof fn law_pushed_file_is_dispatched<P>(
    pending: Seq<FileToSend>,
    events: Seq<TransferAction<P>>,
    file: FileToSend,
)
    ensures
        poll_outcome(pending.push(file), events).0 == Some(dispatch_of::<P>(file)),
        pending.push(file).drop_last() == pending,
{
    assert(pending.push(file).drop_last() =~= pending);
}

} // verus!
