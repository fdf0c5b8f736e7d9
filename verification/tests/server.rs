use dragit::p2p::discovery::protocol::DiscoveryEvent;
use dragit::p2p::peer::{OperatingSystem, PeerEvent};
use dragit::p2p::server::{commands_for, network_wait, ServerCommand, SwarmInput};
use dragit::p2p::transfer::file::{FileToSend, Payload};
use dragit::p2p::transfer::protocol::TransferPayload;
use dragit::p2p::util::{check_network_interfaces, default_interface, time_to_notify, NetworkError, NetworkInterface};

fn iface(name: &str, loopback: bool, up: bool, n: usize) -> NetworkInterface {
    NetworkInterface { name: name.to_string(), is_loopback: loopback, is_up: up, n_addresses: n }
}

#[test]
fn queued_file_goes_to_transfer_behaviour() {
    let f = FileToSend::new(&"p".to_string(), Payload::Text("Hello there".to_string()), |p: &String| -> Result<String, ()> { Ok(p.clone()) }).unwrap();
    let cs = commands_for(SwarmInput::FileQueued(f));
    assert_eq!(cs.len(), 1);
    assert!(matches!(&cs[0], ServerCommand::PushFile(f) if f.name == "Hello (...)"));
}

#[test]
fn mdns_peers_are_added_and_removed_in_order() {
    let seen = vec![("a".to_string(), "/ip4/1.1.1.1".to_string()), ("b".to_string(), "/ip4/2.2.2.2".to_string())];
    let cs = commands_for(SwarmInput::PeersDiscovered(seen));
    assert_eq!(cs.len(), 2);
    assert!(matches!(&cs[0], ServerCommand::AddPeer(id, a) if id == "a" && a == "/ip4/1.1.1.1"));
    assert!(matches!(&cs[1], ServerCommand::AddPeer(id, a) if id == "b" && a == "/ip4/2.2.2.2"));

    let gone = vec![("b".to_string(), "/ip4/2.2.2.2".to_string())];
    let cs = commands_for(SwarmInput::PeersExpired(gone));
    assert!(matches!(&cs[..], [ServerCommand::RemovePeer(id)] if id == "b"));
}

#[test]
fn described_peer_is_updated() {
    let e = DiscoveryEvent { peer: "a".to_string(), hostname: "pc".to_string(), os: OperatingSystem::Macos };
    let cs = commands_for(SwarmInput::PeerDescribed(e));
    assert!(matches!(&cs[..], [ServerCommand::UpdatePeer(id, h, OperatingSystem::Macos)] if id == "a" && h == "pc"));
}

#[test]
fn received_text_is_cleaned_up_then_reported() {
    let t = TransferPayload {
        name: "Hello (...)".to_string(),
        payload: Payload::Text("Hello there".to_string()),
        hash: String::new(),
        size_bytes: 11,
        target_path: Some("/tmp/in/h".to_string()),
    };
    let cs = commands_for(SwarmInput::TransferReceived(t));
    assert_eq!(cs.len(), 2);
    assert!(matches!(&cs[0], ServerCommand::RemoveFile(p) if p == "/tmp/in/h"));
    assert!(matches!(&cs[1], ServerCommand::Notify(PeerEvent::FileCorrect(n, Payload::Text(x))) if n == "Hello (...)" && x == "Hello there"));

    let f = TransferPayload {
        name: "a.txt".to_string(),
        payload: Payload::File("/tmp/in/a.txt".to_string()),
        hash: String::new(),
        size_bytes: 1,
        target_path: Some("/tmp/in/a.txt".to_string()),
    };
    let cs = commands_for(SwarmInput::TransferReceived(f));
    assert!(matches!(&cs[..], [ServerCommand::Notify(PeerEvent::FileCorrect(_, Payload::File(_)))]));
}

#[test]
fn network_check() {
    let none: Vec<NetworkInterface> = vec![iface("lo", true, true, 1), iface("eth0", false, true, 0)];
    assert_eq!(default_interface(&none), None);
    assert_eq!(check_network_interfaces(&none), Err(NetworkError::NoConnection));
    let some = vec![iface("lo", true, true, 1), iface("wlan0", false, false, 2), iface("eth0", false, true, 1)];
    assert_eq!(default_interface(&some), Some(2));
    assert_eq!(check_network_interfaces(&some), Ok(()));
    assert!(network_wait(Ok(())).is_none());
    match network_wait(Err(NetworkError::NoConnection)) {
        Some(PeerEvent::Error(m)) => assert_eq!(m, "There is no network connection available"),
        other => panic!("unexpected {:?}", other),
    }
}

#[test]
fn notify_threshold() {
    assert!(!time_to_notify(4096 * 256 - 1, 0));
    assert!(time_to_notify(4096 * 256, 0));
    assert!(!time_to_notify(4096 * 256 + 99, 1000));
    assert!(time_to_notify(4096 * 256 + 100, 1000));
}
