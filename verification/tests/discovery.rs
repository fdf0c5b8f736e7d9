use dragit::p2p::discovery::behaviour::{hostname_or_empty, DiscoveryAction, DiscoveryBehaviour};
use dragit::p2p::discovery::handler::{ConnectionEvent, HandlerPoll, KeepAliveHandler, MAX_DIAL_NEGOTIATED};
use dragit::p2p::discovery::proto::Host;
use dragit::p2p::discovery::protocol::{
    decode_peer, encode_peer, exchange_outcome, payload_len, read_peer, Discovery,
};
use dragit::p2p::peer::{OperatingSystem, TransferType};
use dragit::p2p::wire::{read_varint, write_varint, WireError};

#[test]
fn new_peer_is_dialed_and_listed() {
    let mut b: DiscoveryBehaviour<u32> = DiscoveryBehaviour::new("me".to_string(), OperatingSystem::Linux);
    b.add_peer("peer-a".to_string(), "/ip4/10.0.0.2/tcp/36571".to_string());
    let shown = b.peers_event();
    assert_eq!(shown.len(), 1);
    assert_eq!(shown[0].name, "peer-a");
    assert_eq!(shown[0].peer_id, "peer-a");
    assert_eq!(shown[0].address, "/ip4/10.0.0.2/tcp/36571");
    assert_eq!(shown[0].hostname, "Not known yet");
    assert_eq!(shown[0].os, OperatingSystem::Unknown);
    match b.poll() {
        Some(DiscoveryAction::Dial { peer_id, address }) => {
            assert_eq!(peer_id, "peer-a");
            assert_eq!(address, "/ip4/10.0.0.2/tcp/36571");
        }
        other => panic!("unexpected {:?}", other),
    }
    assert!(b.poll().is_none());
}

#[test]
fn known_peer_is_dialed_again_only_while_its_system_is_unknown() {
    let mut b: DiscoveryBehaviour<u32> = DiscoveryBehaviour::new("me".to_string(), OperatingSystem::Linux);
    b.add_peer("p".to_string(), "a1".to_string());
    b.add_peer("p".to_string(), "a2".to_string());
    assert_eq!(b.peers_event().len(), 1);
    assert!(b.poll().is_some());
    assert!(b.poll().is_some());
    assert!(b.poll().is_none());

    let shown = b.update_peer(&"p".to_string(), "laptop".to_string(), OperatingSystem::Windows);
    assert_eq!(shown[0].hostname, "laptop");
    assert_eq!(shown[0].os, OperatingSystem::Windows);
    b.add_peer("p".to_string(), "a3".to_string());
    assert!(b.poll().is_none());
}

#[test]
fn removed_peer_is_gone() {
    let mut b: DiscoveryBehaviour<u32> = DiscoveryBehaviour::new("me".to_string(), OperatingSystem::Linux);
    b.add_peer("p1".to_string(), "a".to_string());
    b.add_peer("p2".to_string(), "b".to_string());
    let shown = b.remove_peer(&"p1".to_string());
    assert_eq!(shown.len(), 1);
    assert_eq!(shown[0].peer_id, "p2");
    let again = b.remove_peer(&"p1".to_string());
    assert_eq!(again.len(), 1);
    let closed = b.on_connection_closed(&"p2".to_string());
    assert!(closed.is_empty());
}

#[test]
fn unknown_peer_update_changes_nothing() {
    let mut b: DiscoveryBehaviour<u32> = DiscoveryBehaviour::new("me".to_string(), OperatingSystem::Linux);
    b.add_peer("p1".to_string(), "a".to_string());
    let shown = b.update_peer(&"zz".to_string(), "x".to_string(), OperatingSystem::Macos);
    assert_eq!(shown.len(), 1);
    assert_eq!(shown[0].hostname, "Not known yet");
}

#[test]
fn connections_update_addresses_and_start_exchange() {
    let mut b: DiscoveryBehaviour<u32> = DiscoveryBehaviour::new("host-1".to_string(), OperatingSystem::Macos);
    let d = b.handle_established_inbound_connection("p".to_string(), "/ip4/1.1.1.1/tcp/1".to_string());
    assert_eq!(d.hostname, "host-1");
    assert_eq!(d.os, OperatingSystem::Macos);
    assert_eq!(b.peers_event()[0].address, "/ip4/1.1.1.1/tcp/1");
    assert!(b.poll().is_none());

    b.handle_established_outbound_connection(7, "p".to_string(), "/ip4/2.2.2.2/tcp/2".to_string());
    assert_eq!(b.peers_event()[0].address, "/ip4/2.2.2.2/tcp/2");
    match b.poll() {
        Some(DiscoveryAction::NotifyHandler { peer_id, connection, event }) => {
            assert_eq!(peer_id, "p");
            assert_eq!(connection, 7);
            assert_eq!(event.hostname, "host-1");
            assert_eq!(event.os, OperatingSystem::Macos);
        }
        other => panic!("unexpected {:?}", other),
    }

    b.on_connection_handler_event("p".to_string(), Discovery { hostname: "other".to_string(), os: OperatingSystem::Linux });
    match b.poll() {
        Some(DiscoveryAction::GenerateEvent(e)) => {
            assert_eq!(e.peer, "p");
            assert_eq!(e.hostname, "other");
            assert_eq!(e.os, OperatingSystem::Linux);
        }
        other => panic!("unexpected {:?}", other),
    }
}

#[test]
fn host_name_and_system() {
    assert_eq!(hostname_or_empty(Some("box".to_string())), "box");
    assert_eq!(hostname_or_empty(None), "");
    assert_eq!(DiscoveryBehaviour::<u32>::get_os("linux"), OperatingSystem::Linux);
    assert_eq!(DiscoveryBehaviour::<u32>::get_os("windows"), OperatingSystem::Windows);
    assert_eq!(DiscoveryBehaviour::<u32>::get_os("macos"), OperatingSystem::Other);
    let d = Discovery::default();
    assert_eq!(d.hostname, "");
    assert_eq!(d.os, OperatingSystem::Linux);
}

#[test]
fn peer_frame_roundtrip() {
    let frame = encode_peer(&"laptop".to_string(), OperatingSystem::Windows);
    assert_eq!(frame, vec![0, 0, 0, 10, 10, 6, b'l', b'a', b'p', b't', b'o', b'p', 16, 1]);
    let d = read_peer(&frame).unwrap();
    assert_eq!(d.hostname, "laptop");
    assert_eq!(d.os, OperatingSystem::Windows);
}

#[test]
fn peer_frame_errors() {
    assert_eq!(read_peer(&[0, 0]).err(), Some(WireError::Truncated));
    assert_eq!(read_peer(&[0, 0, 0x10, 1]).err(), Some(WireError::TooLarge));
    assert_eq!(payload_len(&[0, 0, 0x10, 0]), Ok(4096));
    assert_eq!(payload_len(&[0, 0, 0x10, 1]), Err(WireError::TooLarge));
    let unknown = decode_peer(&[16, 9]).unwrap();
    assert_eq!(unknown.os, OperatingSystem::Unknown);
    assert_eq!(unknown.hostname, "");
}

#[test]
fn host_message_roundtrip() {
    let h = Host { hostname: "pc".to_string(), os: 2 };
    let bytes = h.encode();
    assert_eq!(bytes, vec![10, 2, b'p', b'c', 16, 2]);
    let back = Host::decode(&bytes).unwrap();
    assert_eq!(back.hostname, "pc");
    assert_eq!(back.os, 2);
}

#[test]
fn varint_roundtrip() {
    let mut buf: Vec<u8> = Vec::new();
    write_varint(300, &mut buf);
    assert_eq!(buf, vec![0xAC, 0x02]);
    assert_eq!(read_varint(&buf, 0), Ok((300, 2)));
    let mut big: Vec<u8> = Vec::new();
    write_varint(u64::MAX, &mut big);
    assert_eq!(big.len(), 10);
    assert_eq!(read_varint(&big, 0), Ok((u64::MAX, 10)));
    assert_eq!(read_varint(&[0x80], 0).err(), Some(WireError::InvalidVarint));
}

#[test]
fn enum_numbers() {
    assert_eq!(OperatingSystem::Unknown.as_i32(), 4);
    assert_eq!(OperatingSystem::try_from_i32(2), Some(OperatingSystem::Macos));
    assert_eq!(OperatingSystem::try_from_i32(5), None);
    assert_eq!(TransferType::Dir.as_i32(), 2);
    assert_eq!(TransferType::try_from_i32(1), Some(TransferType::Text));
    assert_eq!(TransferType::try_from_i32(-1), None);
}

#[test]
fn handler_queues_requests_and_bounds_negotiations() {
    let mut h: KeepAliveHandler<&str, u32, String> = KeepAliveHandler::new("proto");
    assert_eq!(*h.listen_protocol_ref(), "proto");
    assert!(h.connection_keep_alive());
    for i in 0..(MAX_DIAL_NEGOTIATED + 2) {
        h.send_request(i);
    }
    assert_eq!(h.pending_requests(), MAX_DIAL_NEGOTIATED + 2);
    for i in 0..MAX_DIAL_NEGOTIATED {
        assert!(matches!(h.poll(), HandlerPoll::OutboundRequest(x) if x == i));
    }
    assert!(matches!(h.poll(), HandlerPoll::Pending));
    assert_eq!(h.pending_requests(), MAX_DIAL_NEGOTIATED + 2);

    h.on_connection_event(ConnectionEvent::OutboundNegotiated("done".to_string()));
    assert!(matches!(h.poll(), HandlerPoll::Notify(ref e) if e == "done"));
    assert!(matches!(h.poll(), HandlerPoll::OutboundRequest(x) if x == MAX_DIAL_NEGOTIATED));
    h.on_connection_event(ConnectionEvent::InboundNegotiated("in".to_string()));
    assert_eq!(h.pending_requests(), MAX_DIAL_NEGOTIATED + 1);
    h.on_connection_event(ConnectionEvent::DialUpgradeError);
    assert_eq!(h.pending_requests(), MAX_DIAL_NEGOTIATED);
    assert!(matches!(h.poll(), HandlerPoll::Notify(ref e) if e == "in"));
    assert!(matches!(h.poll(), HandlerPoll::OutboundRequest(x) if x == MAX_DIAL_NEGOTIATED + 1));
    h.set_listen_protocol("other");
    assert_eq!(*h.listen_protocol_ref(), "other");
}

#[test]
fn discovery_event_description() {
    let e = dragit::p2p::discovery::protocol::DiscoveryEvent {
        peer: "p".to_string(),
        hostname: "h".to_string(),
        os: OperatingSystem::Macos,
    };
    assert_eq!(e.describe(), "DiscoveryEvent: peer: p, hostname: h, os: Macos");
    assert_eq!(OperatingSystem::Unknown.name(), "Unknown");
}

#[test]
fn failed_dial_frees_its_slot() {
    let mut h: KeepAliveHandler<&str, u32, String> = KeepAliveHandler::new("proto");
    h.send_request(1);
    assert!(matches!(h.poll(), HandlerPoll::OutboundRequest(1)));
    assert_eq!(h.pending_requests(), 1);
    h.on_connection_event(ConnectionEvent::DialUpgradeError);
    assert_eq!(h.pending_requests(), 0);
    assert_eq!(h.negotiating_now(), 0);
}

#[test]
fn pending_is_sent_less_ended_over_many_calls() {
    let mut h: KeepAliveHandler<&str, u32, String> = KeepAliveHandler::new("proto");
    for i in 0..12 {
        h.send_request(i);
    }
    for _ in 0..12 {
        let _ = h.poll();
    }
    assert_eq!(h.negotiating_now(), MAX_DIAL_NEGOTIATED);
    h.on_connection_event(ConnectionEvent::OutboundNegotiated("ok".to_string()));
    h.on_connection_event(ConnectionEvent::DialUpgradeError);
    h.on_connection_event(ConnectionEvent::InboundNegotiated("in".to_string()));
    assert_eq!(h.pending_requests(), 12 - 2);
    for _ in 0..5 {
        let _ = h.poll();
    }
    assert_eq!(h.pending_requests(), 12 - 2);
}

#[test]
fn exchange_gives_each_end_the_other() {
    let a = encode_peer(&"host-a".to_string(), OperatingSystem::Linux);
    let b = encode_peer(&"host-b".to_string(), OperatingSystem::Windows);
    let at_a = exchange_outcome::<WireError>(Ok(()), read_peer(&b)).unwrap();
    let at_b = exchange_outcome::<WireError>(Ok(()), read_peer(&a)).unwrap();
    assert_eq!((at_a.hostname.as_str(), at_a.os), ("host-b", OperatingSystem::Windows));
    assert_eq!((at_b.hostname.as_str(), at_b.os), ("host-a", OperatingSystem::Linux));
    let failed = exchange_outcome(Err(WireError::Truncated), read_peer(&b));
    assert!(matches!(failed, Err(WireError::Truncated)));
}
