use dragit::p2p::commands::TransferCommand;
use dragit::p2p::peer::{Direction, PeerEvent, TransferType};
use dragit::p2p::transfer::metadata::Metadata;
use dragit::p2p::transfer::session::{
    inbound_step, outbound_start, outbound_step, Inbound, InboundAction, InboundError, InboundEvent,
    Outbound, OutboundAction, OutboundEvent,
};

fn meta(kind: TransferType) -> Metadata {
    Metadata { name: "Hello there".to_string(), size: 11, transfer_type: kind }
}

#[test]
fn accepted_text_is_received_when_digests_match() {
    let (s, a) = inbound_step(Inbound::AwaitingOffer, InboundEvent::OfferRead(meta(TransferType::Text)));
    assert!(matches!(s, Inbound::AwaitingChoice(_)));
    assert_eq!(a.len(), 1);
    match &a[0] {
        InboundAction::Notify(PeerEvent::FileIncoming(n, h, size, t)) => {
            assert_eq!(n, "Hello there");
            assert_eq!(h, "");
            assert_eq!(*size, 11);
            assert_eq!(*t, TransferType::Text);
        }
        other => panic!("unexpected {:?}", other),
    }

    let hash = "e8ea7a8d1e93e8764a84a0f3df4644de".to_string();
    let (s, a) = inbound_step(s, InboundEvent::Chosen(TransferCommand::Accept(hash.clone())));
    assert!(matches!(s, Inbound::AwaitingTarget(_)));
    assert_eq!(a.len(), 3);
    match &a[0] {
        InboundAction::Answer(true, h) => assert_eq!(h, &hash),
        other => panic!("unexpected {:?}", other),
    }
    assert!(matches!(&a[1], InboundAction::Notify(PeerEvent::TransferProgress((0, 11, Direction::Incoming)))));
    match &a[2] {
        InboundAction::ChooseTarget(n) => assert_eq!(n, "e8ea7a8d1e93e8764a84a0f3df4644de"),
        other => panic!("unexpected {:?}", other),
    }

    let (s, a) = inbound_step(s, InboundEvent::TargetChosen("/tmp/in/x".to_string()));
    match &a[..] {
        [InboundAction::ReadContent { path, size, transfer_type }] => {
            assert_eq!(path, "/tmp/in/x");
            assert_eq!(*size, 11);
            assert_eq!(*transfer_type, TransferType::Text);
        }
        other => panic!("unexpected {:?}", other),
    }

    let (s, a) = inbound_step(s, InboundEvent::FileRead(11, hash.clone(), hash.clone()));
    match s {
        Inbound::Received(m, p, n) => {
            assert_eq!(m.name, "Hello there");
            assert_eq!(p, "/tmp/in/x");
            assert_eq!(n, 11);
        }
        other => panic!("unexpected {:?}", other),
    }
    assert_eq!(a.len(), 1);
    assert!(matches!(&a[0], InboundAction::Notify(PeerEvent::TransferProgress((11, 11, Direction::Incoming)))));
}

#[test]
fn mismatched_digest_marks_file_incorrect() {
    let s = Inbound::Receiving(meta(TransferType::File), "/tmp/f".to_string());
    let (s, a) = inbound_step(s, InboundEvent::FileRead(11, "aa".to_string(), "bb".to_string()));
    assert!(matches!(s, Inbound::Ended));
    assert_eq!(a.len(), 3);
    assert!(matches!(&a[1], InboundAction::Notify(PeerEvent::FileIncorrect)));
    match &a[2] {
        InboundAction::Fail(InboundError::InvalidData(m)) => {
            assert_eq!(m, "Hash mismatch: expected bb, got aa")
        }
        other => panic!("unexpected {:?}", other),
    }
}

#[test]
fn refused_offer_is_answered_and_ends() {
    let (s, a) = inbound_step(
        Inbound::AwaitingChoice(meta(TransferType::File)),
        InboundEvent::Chosen(TransferCommand::Deny("h".to_string())),
    );
    assert!(matches!(s, Inbound::Ended));
    assert_eq!(a.len(), 2);
    assert!(matches!(&a[0], InboundAction::Answer(false, h) if h == "h"));
    assert!(matches!(&a[1], InboundAction::Fail(InboundError::Rejected)));
}

#[test]
fn directory_and_failed_reads() {
    let s = Inbound::Receiving(meta(TransferType::Dir), "/tmp/d".to_string());
    let (s2, a) = inbound_step(s, InboundEvent::DirRead(4096));
    assert!(matches!(s2, Inbound::Received(_, _, 4096)));
    assert!(a.is_empty());

    let s = Inbound::Receiving(meta(TransferType::File), "/tmp/f".to_string());
    let (s3, a) = inbound_step(s, InboundEvent::ReadFailed);
    assert!(matches!(s3, Inbound::Ended));
    assert!(matches!(&a[0], InboundAction::Notify(PeerEvent::Error(m)) if m == "Reading payload failed"));
    assert!(matches!(&a[1], InboundAction::Fail(InboundError::ReadFailed)));
}

#[test]
fn sending_side_sends_content_then_digest() {
    let (s, a) = outbound_start();
    assert_eq!(s, Outbound::Offering);
    assert!(matches!(&a[..], [OutboundAction::Notify(PeerEvent::WaitingForAnswer), OutboundAction::SendOffer]));
    let (s, a) = outbound_step(s, OutboundEvent::OfferSent(11));
    assert_eq!(s, Outbound::AwaitingAnswer(11));
    assert!(matches!(&a[..], [OutboundAction::ReadAnswer]));
    let (s, a) = outbound_step(s, OutboundEvent::AnswerRead(true));
    assert_eq!(s, Outbound::Sending(11));
    assert!(matches!(
        &a[..],
        [OutboundAction::Notify(PeerEvent::TransferProgress((0, 11, Direction::Outgoing))), OutboundAction::SendContent(11)]
    ));
    let (s, a) = outbound_step(s, OutboundEvent::ContentSent("d1".to_string()));
    assert_eq!(s, Outbound::Ended);
    assert!(matches!(&a[..], [OutboundAction::SendTrailer(d), OutboundAction::Notify(PeerEvent::TransferCompleted)] if d == "d1"));
}

#[test]
fn rejected_offer_is_reported() {
    let (s, a) = outbound_step(Outbound::AwaitingAnswer(5), OutboundEvent::AnswerRead(false));
    assert_eq!(s, Outbound::Ended);
    assert!(matches!(&a[..], [OutboundAction::Notify(PeerEvent::TransferRejected)]));
}

#[test]
fn digest_sent_by_sender_is_accepted_by_receiver() {
    let (_, a) = outbound_step(Outbound::Sending(3), OutboundEvent::ContentSent("abc".to_string()));
    let sent = match &a[0] {
        OutboundAction::SendTrailer(d) => d.clone(),
        other => panic!("unexpected {:?}", other),
    };
    let (s, _) = inbound_step(
        Inbound::Receiving(meta(TransferType::File), "/tmp/f".to_string()),
        InboundEvent::FileRead(3, "abc".to_string(), sent),
    );
    assert!(matches!(s, Inbound::Received(_, _, 3)));
}
