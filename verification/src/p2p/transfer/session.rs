//! The order of a transfer as each side sees it. The receiving side reads
//! the offer, asks the user, answers, has a place chosen for the content,
//! receives it and checks its digest; the sending side offers, waits for
//! the answer, then sends the content and its digest. The caller reads and
//! writes the socket and reports back what happened.

use vstd::prelude::*;
use crate::p2p::commands::TransferCommand;
use crate::p2p::peer::{Direction, PeerEvent, TransferType};
use crate::p2p::transfer::digest::{hex_lower, md5_digest};
use crate::p2p::transfer::metadata::Metadata;
use crate::p2p::transfer::protocol::{
    check_digest,
    failure_text,
    mismatch_middle,
    mismatch_prefix,
};
use vstd::utf8::encode_utf8;

verus! {

/// Where the receiving side of a transfer stands.
#[derive(Debug)]
pub enum Inbound {
    /// Waiting for the offer.
    AwaitingOffer,
    /// Waiting for the user's choice about the offer.
    AwaitingChoice(Metadata),
    /// Waiting for the place where the accepted content goes.
    AwaitingTarget(Metadata),
    /// Receiving the content at the path.
    Receiving(Metadata, String),
    /// The content was received in full: this many bytes, at the path.
    Received(Metadata, String, usize),
    /// The transfer ended without content.
    Ended,
}

/// What the caller reports to the receiving side.
#[derive(Debug)]
pub enum InboundEvent {
    /// The offer was read.
    OfferRead(Metadata),
    /// The user chose.
    Chosen(TransferCommand),
    /// The place for the content was chosen.
    TargetChosen(String),
    /// A file's or a text's content was read: the number of bytes, the
    /// digest computed over them, and the digest the sender sent after them.
    FileRead(usize, String, String),
    /// A directory's archive was unpacked: the number of bytes.
    DirRead(usize),
    /// Reading the content failed.
    ReadFailed,
}

/// Why the receiving side stopped.
#[derive(Debug, PartialEq, Eq)]
pub enum InboundError {
    /// The user refused the offer.
    Rejected,
    /// The content did not match the sender's digest; the message says how.
    InvalidData(String),
    /// The content could not be read.
    ReadFailed,
}

/// What the receiving side asks the caller to do, in order.
#[derive(Debug)]
pub enum InboundAction {
    /// Tell the user.
    Notify(PeerEvent),
    /// Write the answer to the offer: accepted or not, and the hash the
    /// choice refers to.
    Answer(bool, String),
    /// Choose the place for content saved under this file name.
    ChooseTarget(String),
    /// Read this many bytes of content of this kind into the path.
    ReadContent { path: String, size: usize, transfer_type: TransferType },
    /// Stop.
    Fail(InboundError),
}

/// `event` can happen in `state`.
pub open spec fn inbound_fits(state: Inbound, event: InboundEvent) -> bool {
    match state {
        Inbound::AwaitingOffer => event is OfferRead,
        Inbound::AwaitingChoice(_) => event is Chosen,
        Inbound::AwaitingTarget(_) => event is TargetChosen,
        Inbound::Receiving(m, _) => match event {
            InboundEvent::FileRead(..) => m.transfer_type != TransferType::Dir,
            InboundEvent::DirRead(_) => m.transfer_type == TransferType::Dir,
            InboundEvent::ReadFailed => true,
            _ => false,
        },
        _ => false,
    }
}

/// The file name the received content of `m` is saved under: the announced
/// name, or for a text the hexadecimal MD5 digest of it.
pub open spec fn safe_name(m: Metadata) -> Seq<char> {
    match m.transfer_type {
        TransferType::Text => hex_lower(md5_digest(encode_utf8(m.name@))),
        _ => m.name@,
    }
}

/// Files and directories are saved under the name they were announced
/// with; only a text is saved under the lowercase hexadecimal MD5 digest of
/// its name.
pub proof fn law_saved_name(m: Metadata)
    ensures
        m.transfer_type != TransferType::Text ==> safe_name(m) == m.name@,
        m.transfer_type == TransferType::Text ==> safe_name(m) == hex_lower(
            md5_digest(encode_utf8(m.name@)),
        ),
{
}

/// The state of the receiving side after `event` in `state`; an event that
/// cannot happen in `state` leaves it.
pub open spec fn inbound_next(state: Inbound, event: InboundEvent) -> Inbound {
    match (state, event) {
        (Inbound::AwaitingOffer, InboundEvent::OfferRead(m)) => Inbound::AwaitingChoice(m),
        (Inbound::AwaitingChoice(m), InboundEvent::Chosen(TransferCommand::Accept(_))) => {
            Inbound::AwaitingTarget(m)
        },
        (Inbound::AwaitingChoice(_), InboundEvent::Chosen(TransferCommand::Deny(_))) => {
            Inbound::Ended
        },
        (Inbound::AwaitingTarget(m), InboundEvent::TargetChosen(p)) => Inbound::Receiving(m, p),
        (Inbound::Receiving(m, p), InboundEvent::FileRead(n, local, sender)) => if local@
            == sender@ {
            Inbound::Received(m, p, n)
        } else {
            Inbound::Ended
        },
        (Inbound::Receiving(m, p), InboundEvent::DirRead(n)) => Inbound::Received(m, p, n),
        (Inbound::Receiving(_, _), InboundEvent::ReadFailed) => Inbound::Ended,
        (s, _) => s,
    }
}

/// The next state of the receiving side and what the caller does, for
/// `event` in `state`. An offer is shown to the user; an accepted offer is
/// answered, its progress starts at zero and a place is chosen for it,
/// where its content is then read; a refused offer is answered and ends.
/// A file's content counts only when its digest matches the sender's: then
/// the progress shows all bytes read; otherwise the user is told the file
/// is incorrect. A failed read is reported as an error.
pub fn inbound_step(state: Inbound, event: InboundEvent) -> (r: (Inbound, Vec<InboundAction>))
    requires
        inbound_fits(state, event),
    ensures
        r.0 == inbound_next(state, event),
        match (state, event) {
            (Inbound::AwaitingOffer, InboundEvent::OfferRead(m)) => r.0 == Inbound::AwaitingChoice(m)
                && r.1@.len() == 1 && (r.1@[0] matches InboundAction::Notify(
                PeerEvent::FileIncoming(n, h, s, t),
            ) && n@ == m.name@ && h@.len() == 0 && s == m.size && t == m.transfer_type),
            (Inbound::AwaitingChoice(m), InboundEvent::Chosen(TransferCommand::Accept(h))) => r.0
                == Inbound::AwaitingTarget(m) && r.1@.len() == 3 && (r.1@[0] matches InboundAction::Answer(
                a,
                x,
            ) && a && x@ == h@) && r.1@[1] == InboundAction::Notify(
                PeerEvent::TransferProgress((0, m.size, Direction::Incoming)),
            ) && (r.1@[2] matches InboundAction::ChooseTarget(n) && n@ == safe_name(m) && (
            m.transfer_type != TransferType::Text ==> n@ == m.name@) && (m.transfer_type
                == TransferType::Text ==> n@ == hex_lower(md5_digest(encode_utf8(m.name@))))),
            (Inbound::AwaitingChoice(m), InboundEvent::Chosen(TransferCommand::Deny(h))) => r.0
                == Inbound::Ended && r.1@.len() == 2 && (r.1@[0] matches InboundAction::Answer(a, x)
                && !a && x@ == h@) && r.1@[1] == InboundAction::Fail(InboundError::Rejected),
            (Inbound::AwaitingTarget(m), InboundEvent::TargetChosen(p)) => r.0 == Inbound::Receiving(
                m,
                p,
            ) && r.1@ == seq![
                InboundAction::ReadContent { path: p, size: m.size, transfer_type: m.transfer_type },
            ],
            (Inbound::Receiving(m, p), InboundEvent::FileRead(n, local, sender)) => r.1@.len() >= 1
                && r.1@[0] == InboundAction::Notify(
                PeerEvent::TransferProgress((n, m.size, Direction::Incoming)),
            ) && if local@ == sender@ {
                r.0 == Inbound::Received(m, p, n) && r.1@.len() == 1
            } else {
                r.0 == Inbound::Ended && r.1@.len() == 3 && r.1@[1] == InboundAction::Notify(
                    PeerEvent::FileIncorrect,
                ) && (r.1@[2] matches InboundAction::Fail(InboundError::InvalidData(msg)) && msg@
                    == mismatch_prefix() + sender@ + mismatch_middle() + local@)
            },
            (Inbound::Receiving(m, p), InboundEvent::DirRead(n)) => r.0 == Inbound::Received(m, p, n)
                && r.1@.len() == 0,
            (Inbound::Receiving(_, _), InboundEvent::ReadFailed) => r.0 == Inbound::Ended
                && r.1@.len() == 2 && (r.1@[0] matches InboundAction::Notify(PeerEvent::Error(msg))
                && msg@ == failure_text()) && r.1@[1] == InboundAction::Fail(InboundError::ReadFailed),
            _ => false,
        },
{
    let mut actions: Vec<InboundAction> = Vec::new();
    match state {
        Inbound::AwaitingOffer => match event {
            InboundEvent::OfferRead(m) => {
                actions.push(
                    InboundAction::Notify(
                        crate::p2p::transfer::protocol::incoming_event(&m),
                    ),
                );
                (Inbound::AwaitingChoice(m), actions)
            },
            _ => (Inbound::AwaitingOffer, actions),
        },
        Inbound::AwaitingChoice(m) => match event {
            InboundEvent::Chosen(command) => {
                let (accepted, hash) = crate::p2p::transfer::protocol::answer_for(&command);
                actions.push(InboundAction::Answer(accepted, hash));
                if accepted {
                    actions.push(
                        InboundAction::Notify(
                            PeerEvent::TransferProgress((0, m.size, Direction::Incoming)),
                        ),
                    );
                    actions.push(InboundAction::ChooseTarget(m.get_safe_file_name()));
                    (Inbound::AwaitingTarget(m), actions)
                } else {
                    actions.push(InboundAction::Fail(InboundError::Rejected));
                    (Inbound::Ended, actions)
                }
            },
            _ => (Inbound::AwaitingChoice(m), actions),
        },
        Inbound::AwaitingTarget(m) => match event {
            InboundEvent::TargetChosen(p) => {
                actions.push(
                    InboundAction::ReadContent {
                        path: p.clone(),
                        size: m.size,
                        transfer_type: m.transfer_type,
                    },
                );
                (Inbound::Receiving(m, p), actions)
            },
            _ => (Inbound::AwaitingTarget(m), actions),
        },
        Inbound::Receiving(m, p) => match event {
            InboundEvent::FileRead(n, local, sender) => {
                actions.push(
                    InboundAction::Notify(
                        PeerEvent::TransferProgress((n, m.size, Direction::Incoming)),
                    ),
                );
                match check_digest(&local, &sender) {
                    Ok(()) => (Inbound::Received(m, p, n), actions),
                    Err(msg) => {
                        actions.push(InboundAction::Notify(PeerEvent::FileIncorrect));
                        actions.push(InboundAction::Fail(InboundError::InvalidData(msg)));
                        (Inbound::Ended, actions)
                    },
                }
            },
            InboundEvent::DirRead(n) => (Inbound::Received(m, p, n), actions),
            InboundEvent::ReadFailed => {
                actions.push(
                    InboundAction::Notify(crate::p2p::transfer::protocol::failure_event(false)),
                );
                actions.push(InboundAction::Fail(InboundError::ReadFailed));
                (Inbound::Ended, actions)
            },
            _ => (Inbound::Receiving(m, p), actions),
        },
        other => (other, actions),
    }
}

/// Where the sending side of a transfer stands.
#[derive(Debug, PartialEq, Eq, Structural)]
pub enum Outbound {
    /// Waiting until the offer is written.
    Offering,
    /// Waiting for the answer to an offer of this many bytes.
    AwaitingAnswer(usize),
    /// Sending this many bytes of content.
    Sending(usize),
    /// Done.
    Ended,
}

/// What the caller reports to the sending side.
#[derive(Debug)]
pub enum OutboundEvent {
    /// The offer was written; the content has this many bytes.
    OfferSent(usize),
    /// The answer was read: accepted or not.
    AnswerRead(bool),
    /// The content was written; this is its digest.
    ContentSent(String),
}

/// What the sending side asks the caller to do, in order.
#[derive(Debug)]
pub enum OutboundAction {
    /// Tell the user.
    Notify(PeerEvent),
    /// Write the offer.
    SendOffer,
    /// Read the answer.
    ReadAnswer,
    /// Write this many bytes of content.
    SendContent(usize),
    /// Write the digest after the content.
    SendTrailer(String),
}

/// The start of a transfer to a peer: the user is told that the answer is
/// awaited, and the offer is written.
pub fn outbound_start() -> (r: (Outbound, Vec<OutboundAction>))
    ensures
        r.0 == Outbound::Offering,
        r.1@ == seq![OutboundAction::Notify(PeerEvent::WaitingForAnswer), OutboundAction::SendOffer],
{
    let mut actions: Vec<OutboundAction> = Vec::new();
    actions.push(OutboundAction::Notify(PeerEvent::WaitingForAnswer));
    actions.push(OutboundAction::SendOffer);
    (Outbound::Offering, actions)
}

/// The state of the sending side after `event` in `state`; an event that
/// cannot happen in `state` leaves it.
pub open spec fn outbound_next(state: Outbound, event: OutboundEvent) -> Outbound {
    match (state, event) {
        (Outbound::Offering, OutboundEvent::OfferSent(size)) => Outbound::AwaitingAnswer(size),
        (Outbound::AwaitingAnswer(size), OutboundEvent::AnswerRead(accepted)) => if accepted {
            Outbound::Sending(size)
        } else {
            Outbound::Ended
        },
        (Outbound::Sending(_), OutboundEvent::ContentSent(_)) => Outbound::Ended,
        (s, _) => s,
    }
}

/// `event` can happen in `state`.
pub open spec fn outbound_fits(state: Outbound, event: OutboundEvent) -> bool {
    match state {
        Outbound::Offering => event is OfferSent,
        Outbound::AwaitingAnswer(_) => event is AnswerRead,
        Outbound::Sending(_) => event is ContentSent,
        Outbound::Ended => false,
    }
}

/// The next state of the sending side and what the caller does, for
/// `event` in `state`. After the offer the answer is read; an accepted
/// offer's progress starts at zero and its content is sent, followed by
/// its digest, after which the user is told the transfer completed; a
/// refused offer ends with the user told it was rejected.
pub fn outbound_step(state: Outbound, event: OutboundEvent) -> (r: (Outbound, Vec<OutboundAction>))
    requires
        outbound_fits(state, event),
    ensures
        r.0 == outbound_next(state, event),
        match (state, event) {
            (Outbound::Offering, OutboundEvent::OfferSent(size)) => r.0 == Outbound::AwaitingAnswer(
                size,
            ) && r.1@ == seq![OutboundAction::ReadAnswer],
            (Outbound::AwaitingAnswer(size), OutboundEvent::AnswerRead(accepted)) => if accepted {
                r.0 == Outbound::Sending(size) && r.1@ == seq![
                    OutboundAction::Notify(
                        PeerEvent::TransferProgress((0, size, Direction::Outgoing)),
                    ),
                    OutboundAction::SendContent(size),
                ]
            } else {
                r.0 == Outbound::Ended && r.1@ == seq![
                    OutboundAction::Notify(PeerEvent::TransferRejected),
                ]
            },
            (Outbound::Sending(_), OutboundEvent::ContentSent(digest)) => r.0 == Outbound::Ended
                && r.1@ == seq![
                OutboundAction::SendTrailer(digest),
                OutboundAction::Notify(PeerEvent::TransferCompleted),
            ],
            _ => false,
        },
{
    let mut actions: Vec<OutboundAction> = Vec::new();
    match state {
        Outbound::Offering => match event {
            OutboundEvent::OfferSent(size) => {
                actions.push(OutboundAction::ReadAnswer);
                (Outbound::AwaitingAnswer(size), actions)
            },
            _ => (Outbound::Offering, actions),
        },
        Outbound::AwaitingAnswer(size) => match event {
            OutboundEvent::AnswerRead(accepted) => {
                match crate::p2p::transfer::protocol::after_answer(accepted) {
                    None => {
                        actions.push(
                            OutboundAction::Notify(
                                PeerEvent::TransferProgress((0, size, Direction::Outgoing)),
                            ),
                        );
                        actions.push(OutboundAction::SendContent(size));
                        (Outbound::Sending(size), actions)
                    },
                    Some(e) => {
                        actions.push(OutboundAction::Notify(e));
                        (Outbound::Ended, actions)
                    },
                }
            },
            _ => (Outbound::AwaitingAnswer(size), actions),
        },
        Outbound::Sending(size) => match event {
            OutboundEvent::ContentSent(digest) => {
                actions.push(OutboundAction::SendTrailer(digest));
                actions.push(OutboundAction::Notify(PeerEvent::TransferCompleted));
                (Outbound::Ended, actions)
            },
            _ => (Outbound::Sending(size), actions),
        },
        Outbound::Ended => (Outbound::Ended, actions),
    }
}

/// The state of the receiving side after the events `events`, from the
/// start.
pub open spec fn inbound_after(events: Seq<InboundEvent>) -> Inbound
    decreases events.len(),
{
    if events.len() == 0 {
        Inbound::AwaitingOffer
    } else {
        inbound_next(inbound_after(events.drop_last()), events.last())
    }
}

/// `e` is the user accepting an offer.
pub open spec fn is_acceptance(e: InboundEvent) -> bool {
    e matches InboundEvent::Chosen(TransferCommand::Accept(_))
}

/// `e` is content read in full: a directory, or a file or text whose digest
/// matches the sender's.
pub open spec fn is_sound_content(e: InboundEvent) -> bool {
    match e {
        InboundEvent::FileRead(_, local, sender) => local@ == sender@,
        InboundEvent::DirRead(_) => true,
        _ => false,
    }
}

proof fn lemma_inbound_history(events: Seq<InboundEvent>)
    ensures
        (inbound_after(events) is AwaitingTarget || inbound_after(events) is Receiving) ==> exists|
            i: int,
        |
            0 <= i < events.len() && #[trigger] is_acceptance(events[i]),
        inbound_after(events) is Received ==> exists|i: int, j: int|
            0 <= i < j < events.len() && #[trigger] is_acceptance(events[i])
                && #[trigger] is_sound_content(events[j]),
    decreases events.len(),
{
    if events.len() > 0 {
        let pre = events.drop_last();
        let e = events.last();
        lemma_inbound_history(pre);
        let before = inbound_after(pre);
        let after = inbound_after(events);
        assert(after == inbound_next(before, e));
        assert forall|k: int| 0 <= k < pre.len() implies events[k] == pre[k] by {}
        if after is AwaitingTarget || after is Receiving {
            if before is AwaitingTarget || before is Receiving {
                let i = choose|i: int| 0 <= i < pre.len() && #[trigger] is_acceptance(pre[i]);
                assert(events[i] == pre[i]);
            } else {
                assert(is_acceptance(events[events.len() - 1]));
            }
        }
        if after is Received {
            if before is Received {
                let (i, j) = choose|i: int, j: int|
                    0 <= i < j < pre.len() && #[trigger] is_acceptance(pre[i])
                        && #[trigger] is_sound_content(pre[j]);
                assert(events[i] == pre[i] && events[j] == pre[j]);
            } else {
                let i = choose|i: int| 0 <= i < pre.len() && #[trigger] is_acceptance(pre[i]);
                assert(events[i] == pre[i]);
                assert(is_sound_content(events[events.len() - 1]));
            }
        }
    }
}

/// The receiving side keeps content only with the user's consent and a
/// sound copy: whenever it ends with content received, the user accepted
/// the offer, and afterwards the content was read in full with the
/// sender's digest matching.
pub proof fn law_content_kept_only_after_acceptance(events: Seq<InboundEvent>)
    ensures
        inbound_after(events) is Received ==> exists|i: int, j: int|
            0 <= i < j < events.len() && #[trigger] is_acceptance(events[i])
                && #[trigger] is_sound_content(events[j]),
{
    lemma_inbound_history(events);
}

/// The state of the sending side after the events `events`, from the
/// start.
pub open spec fn outbound_after(events: Seq<OutboundEvent>) -> Outbound
    decreases events.len(),
{
    if events.len() == 0 {
        Outbound::Offering
    } else {
        outbound_next(outbound_after(events.drop_last()), events.last())
    }
}

/// `e` is the remote accepting the offer.
pub open spec fn is_accepted_answer(e: OutboundEvent) -> bool {
    e matches OutboundEvent::AnswerRead(true)
}

/// The sending side sends content only to a remote that accepted it:
/// whenever it is sending, the answer read before accepted the offer.
pub proof fn law_content_sent_only_after_acceptance(events: Seq<OutboundEvent>)
    ensures
        outbound_after(events) is Sending ==> exists|i: int|
            0 <= i < events.len() && #[trigger] is_accepted_answer(events[i]),
    decreases events.len(),
{
    if events.len() > 0 {
        let pre = events.drop_last();
        law_content_sent_only_after_acceptance(pre);
        if outbound_after(events) is Sending {
            if outbound_after(pre) is Sending {
                let i = choose|i: int| 0 <= i < pre.len() && #[trigger] is_accepted_answer(pre[i]);
                assert(events[i] == pre[i]);
            } else {
                assert(is_accepted_answer(events[events.len() - 1]));
            }
        }
    }
}

} // verus!
