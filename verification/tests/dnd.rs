use dragit::dnd::{
    accept_prompt, clean_file_proto, command_for_response, dropped_content, extract_ip,
    file_payload_path, ip_of_component, needs_separator, peer_label, progress_text,
    recent_file_link, route_peer_event, rows_to_remove, shows_placeholder, window_action,
    DropContent, NotificationType, WindowAction,
};
use dragit::p2p::commands::TransferCommand;
use dragit::p2p::peer::{Direction, OperatingSystem, Peer, PeerEvent, TransferType};
use dragit::p2p::transfer::file::Payload;

#[test]
fn file_scheme_is_removed() {
    assert_eq!(clean_file_proto("file:///home/u/a.txt"), "/home/u/a.txt");
    assert_eq!(clean_file_proto("/plain/path"), "/plain/path");
    assert_eq!(clean_file_proto("file://a file://b"), "a b");
    assert_eq!(recent_file_link("/home/u/a.txt"), "file:///home/u/a.txt");
}

#[test]
fn ip_is_shown_without_protocol_marks() {
    assert_eq!(extract_ip("/ip4/192.168.1.5/tcp/36571"), Some("192.168.1.5".to_string()));
    assert_eq!(extract_ip("/ip6/::1/tcp/36571"), Some("::1".to_string()));
    assert_eq!(extract_ip("not an address"), None);
    assert_eq!(ip_of_component("/dns4/example.org"), "/dns4/example.org");
}

#[test]
fn peer_label_markup() {
    let label = peer_label("laptop", "10.0.0.2", OperatingSystem::Windows);
    assert_eq!(
        label,
        "<big><b>Device Name</b>: laptop</big>\n<big><b>IP Address</b>: 10.0.0.2</big>\n<big><b>System</b>: Windows</big>\n"
    );
}

#[test]
fn accept_prompt_shows_readable_size() {
    assert_eq!(
        accept_prompt("a.txt", 500),
        "Incoming file a.txt (500 B).\n\nWould you like to accept the file?"
    );
    assert_eq!(
        accept_prompt("big.iso", 1500),
        "Incoming file big.iso (1.5 KB).\n\nWould you like to accept the file?"
    );
}

#[test]
fn response_becomes_command() {
    assert_eq!(command_for_response(true, "h".to_string()), TransferCommand::Accept("h".to_string()));
    assert_eq!(command_for_response(false, "h".to_string()), TransferCommand::Deny("h".to_string()));
}

#[test]
fn icons() {
    assert_eq!(NotificationType::Alert.icon_name(), "dialog-information");
    assert_eq!(NotificationType::Error.icon_name(), "dialog-warning");
    assert_eq!(progress_text(Direction::Incoming), "Receiving file");
    assert_eq!(progress_text(Direction::Outgoing), "Sending file");
}

#[test]
fn window_actions() {
    assert!(matches!(
        window_action(PeerEvent::TransferProgress((5, 10, Direction::Incoming))),
        WindowAction::Progress(Direction::Incoming, 5, 10)
    ));
    match window_action(PeerEvent::FileCorrect("a.txt".to_string(), Payload::File("/d/a.txt".to_string()))) {
        WindowAction::Alert(t) => assert_eq!(t, "Received a.txt \nSaved in FilePayload(/d/a.txt)"),
        other => panic!("unexpected {:?}", other),
    }
    match window_action(PeerEvent::FileIncorrect) {
        WindowAction::Failure(t) => assert_eq!(t, "File is incorrect"),
        other => panic!("unexpected {:?}", other),
    }
    match window_action(PeerEvent::Error("no \"net\"".to_string())) {
        WindowAction::Failure(t) => assert_eq!(t, "Encountered an error: \"no \\\"net\\\"\""),
        other => panic!("unexpected {:?}", other),
    }
    match window_action(PeerEvent::FileIncoming("n".to_string(), "h".to_string(), 3, TransferType::File)) {
        WindowAction::AskAccept { name, hash, size } => {
            assert_eq!((name.as_str(), hash.as_str(), size), ("n", "h", 3));
        }
        other => panic!("unexpected {:?}", other),
    }
    assert!(matches!(window_action(PeerEvent::TransferCompleted), WindowAction::Detach));
    assert!(matches!(window_action(PeerEvent::WaitingForAnswer), WindowAction::Detach));
}

#[test]
fn device_list_rows() {
    let peer = Peer {
        name: "p".to_string(),
        address: "a".to_string(),
        peer_id: "p".to_string(),
        hostname: "h".to_string(),
        os: OperatingSystem::Linux,
    };
    match route_peer_event(PeerEvent::PeersUpdated(vec![peer])) {
        Ok(list) => assert_eq!(list.len(), 1),
        Err(e) => panic!("unexpected {:?}", e),
    }
    assert!(matches!(route_peer_event(PeerEvent::FileIncorrect), Err(PeerEvent::FileIncorrect)));

    let rows = vec!["empty-item".to_string(), "peer-1".to_string(), "notification".to_string(), "peer-2".to_string()];
    assert_eq!(rows_to_remove(&rows), vec![1, 3]);
    assert!(!shows_placeholder(&rows));
    assert!(shows_placeholder(&vec!["empty-item".to_string()]));
    assert!(shows_placeholder(&Vec::new()));
    assert!(needs_separator(Some(&"peer-1".to_string())));
    assert!(!needs_separator(Some(&"empty-item".to_string())));
    assert!(!needs_separator(None));
}

#[test]
fn dropped_content_prefers_last_uri() {
    let r = dropped_content(vec!["file:///a".to_string(), "file:///b".to_string()], Some("t".to_string()));
    assert_eq!(r, Ok(DropContent::Uri("file:///b".to_string())));
    assert_eq!(dropped_content(Vec::new(), Some("t".to_string())), Ok(DropContent::Text("t".to_string())));
    assert_eq!(dropped_content(Vec::new(), None), Err("No text found".to_string()));
    assert_eq!(file_payload_path(Some("/home/u/a b.txt".to_string()), "file:///home/u/a%20b.txt"), "/home/u/a b.txt");
    assert_eq!(file_payload_path(None, "file:///home/u/x"), "/home/u/x");
}
