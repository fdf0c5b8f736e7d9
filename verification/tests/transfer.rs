use std::io::{Read, Seek, SeekFrom, Write};

use dragit::p2p::commands::TransferCommand;
use dragit::p2p::peer::{Direction, PeerEvent, TransferType};
use dragit::p2p::transfer::behaviour::{TransferAction, TransferBehaviour};
use dragit::p2p::transfer::digest::md5_hex;
use dragit::p2p::transfer::directory::{archive_name, entry_destination};
use dragit::p2p::transfer::file::{FileToSend, Payload};
use dragit::p2p::transfer::metadata::{
    hash_contents, Answer, Metadata, PacketBuffer, Trailer, HASH_BUFFER_SIZE, PACKET_SIZE,
};
use dragit::p2p::transfer::protocol::{
    after_answer, answer_for, check_digest, failure_event, incoming_event, ProtocolEvent,
    TransferPayload,
};
use dragit::p2p::transfer::reader::{HashingReader, ProgressReader};
use dragit::p2p::wire::WireError;

fn same_path(p: &String) -> Result<String, String> {
    Ok(p.clone())
}

#[test]
fn test_extract_name_text() {
    let text = "here is the text I'm sending".to_string();
    let result = FileToSend::extract_name_text(&text);

    assert_eq!(result, "here  (...)");
}

#[test]
fn metadata_test_hash_local_file() {
    let mut file = tempfile::tempfile().unwrap();
    file.write_all(b"I'll fly to device!").unwrap();
    file.seek(SeekFrom::Start(0)).unwrap();

    let mut chunks: Vec<Vec<u8>> = Vec::new();
    let mut buffer = [0u8; HASH_BUFFER_SIZE];
    loop {
        let n = file.read(&mut buffer).unwrap();
        if n == 0 {
            break;
        }
        chunks.push(buffer[..n].to_vec());
    }
    let (hash, size) = hash_contents(&chunks);

    assert_eq!(hash, "a909b834a8f95194ee2ce975e38cec31".to_string());
    assert_eq!(size, 19);
}

#[test]
fn hash_covers_every_read_in_order() {
    let whole = hash_contents(&vec![b"I'll fly to device!".to_vec()]);
    let split = hash_contents(&vec![b"I'll ".to_vec(), Vec::new(), b"fly to device!".to_vec()]);
    assert_eq!(whole, split);
    let swapped = hash_contents(&vec![b"fly to device!".to_vec(), b"I'll ".to_vec()]);
    assert_ne!(whole.0, swapped.0);
    assert_eq!(hash_contents(&Vec::new()), ("d41d8cd98f00b204e9800998ecf8427e".to_string(), 0));
}

#[test]
fn progress_reader_keeps_and_counts_what_passes() {
    let mut reader = ProgressReader::new(HashingReader::new(()), 19);
    for part in [&b"I'll "[..], &b"fly to "[..], &b"device!"[..]] {
        reader.inner.observe(part);
        reader.record(part.len());
    }
    assert_eq!(reader.counter(), 19);
    assert_eq!(reader.into_inner().finish(), "a909b834a8f95194ee2ce975e38cec31");
}

#[test]
fn text_offer_is_named_after_its_first_characters() {
    let payload = Payload::Text("Hello there".to_string());
    let file = FileToSend::new(&"peer-1".to_string(), payload, same_path).unwrap();
    assert_eq!(file.name, "Hello (...)");
    assert_eq!(file.transfer_type, TransferType::Text);
    assert_eq!(file.peer, "peer-1");
}

#[test]
fn short_text_offer_is_named_text() {
    assert_eq!(FileToSend::extract_name_text(&"hey".to_string()), "text");
    assert_eq!(FileToSend::extract_name_text(&"ab\ncdef".to_string()), "abcd (...)");
}

#[test]
fn file_and_directory_offers_are_named_after_their_last_component() {
    let file = FileToSend::new(&"p".to_string(), Payload::File("/home/u/report.pdf".to_string()), same_path).unwrap();
    assert_eq!(file.name, "report.pdf");
    assert_eq!(file.transfer_type, TransferType::File);
    let dir = FileToSend::new(&"p".to_string(), Payload::Dir("/home/u/photos".to_string()), same_path).unwrap();
    assert_eq!(dir.name, "photos");
    assert_eq!(dir.transfer_type, TransferType::Dir);
    assert_eq!(FileToSend::extract_name_dir(&"/".to_string()), "/");
}

#[test]
fn unresolved_file_offer_fails() {
    let r = FileToSend::new(&"p".to_string(), Payload::File("missing".to_string()), |_: &String| -> Result<String, String> {
        Err("not found".to_string())
    });
    assert_eq!(r.err(), Some("not found".to_string()));
}

#[test]
fn payload_for_transfer_type() {
    let f = Payload::new(TransferType::File, "/a".to_string(), |_: String| -> Result<String, ()> { Ok(String::new()) }).unwrap();
    assert_eq!(f.describe(), "FilePayload(/a)");
    let d = Payload::new(TransferType::Dir, "/d".to_string(), |_: String| -> Result<String, ()> { Ok(String::new()) }).unwrap();
    assert_eq!(d.describe(), "DirPayload(/d)");
    let t = Payload::new(TransferType::Text, "/t".to_string(), |_: String| -> Result<String, ()> { Ok("zażółć".to_string()) }).unwrap();
    assert_eq!(t.describe(), "TextPayload(10)");
}

#[test]
fn text_size_is_its_byte_length() {
    let file = FileToSend::new(&"p".to_string(), Payload::Text("Hello there".to_string()), same_path).unwrap();
    let size = file.get_size(|_: &String, _: bool| -> Result<u64, ()> { Ok(0) });
    assert_eq!(size, Ok(11));
}

#[test]
fn text_digest_matches_accepted_hash() {
    assert_eq!(md5_hex(b"Hello there"), "e8ea7a8d1e93e8764a84a0f3df4644de");
    assert_eq!(md5_hex(b""), "d41d8cd98f00b204e9800998ecf8427e");
}

#[test]
fn metadata_packet_roundtrip() {
    let meta = Metadata { name: "file.txt".to_string(), size: 300, transfer_type: TransferType::Dir };
    let packet = meta.write();
    assert_eq!(packet.len(), PACKET_SIZE);
    assert_eq!(&packet[..15], &[10, 8, b'f', b'i', b'l', b'e', b'.', b't', b'x', b't', 16, 0xAC, 0x02, 24, 2]);
    assert!(packet[15..].iter().all(|b| *b == 0));
    let back = Metadata::read(&packet).unwrap();
    assert_eq!(back.name, "file.txt");
    assert_eq!(back.size, 300);
    assert_eq!(back.transfer_type, TransferType::Dir);
}

#[test]
fn metadata_defaults_are_left_out() {
    let meta = Metadata { name: String::new(), size: 0, transfer_type: TransferType::File };
    assert_eq!(meta.encode(), Vec::<u8>::new());
    let back = Metadata::read(&[0u8; 16]).unwrap();
    assert_eq!(back.name, "");
    assert_eq!(back.size, 0);
    assert_eq!(back.transfer_type, TransferType::File);
}

#[test]
fn metadata_unknown_type_counts_as_file() {
    let back = Metadata::read(&[24, 9]).unwrap();
    assert_eq!(back.transfer_type, TransferType::File);
}

#[test]
fn metadata_errors() {
    assert_eq!(Metadata::read(&[10, 5, b'a']).err(), Some(WireError::Truncated));
    assert_eq!(Metadata::read(&[8, 1]).err(), Some(WireError::WrongWireType));
    assert_eq!(Metadata::read(&[10, 1, 0xFF]).err(), Some(WireError::InvalidUtf8));
}

#[test]
fn safe_file_name_hashes_text_names() {
    let text = Metadata { name: "Hello there".to_string(), size: 11, transfer_type: TransferType::Text };
    assert_eq!(text.get_safe_file_name(), "e8ea7a8d1e93e8764a84a0f3df4644de");
    let file = Metadata { name: "a.txt".to_string(), size: 1, transfer_type: TransferType::File };
    assert_eq!(file.get_safe_file_name(), "a.txt");
}

#[test]
fn answer_packet_roundtrip() {
    let yes = Answer::write(true, &"abc".to_string());
    assert_eq!(yes.len(), PACKET_SIZE);
    assert_eq!(&yes[..7], &[8, 1, 18, 3, b'a', b'b', b'c']);
    assert_eq!(Answer::read(&yes), Ok(true));
    let no = Answer::write(false, &"abc".to_string());
    assert_eq!(Answer::read(&no), Ok(false));
}

#[test]
fn trailer_packet_roundtrip() {
    let digest = md5_hex(b"payload");
    let packet = Trailer::write(&digest);
    assert_eq!(Trailer::read(&packet), Ok(digest));
}

#[test]
fn packet_buffer_collects_a_packet() {
    let packet = Answer::write(true, &"h".to_string());
    let mut buffer = PacketBuffer::new();
    assert!(!buffer.push_chunk(&packet[..100]));
    assert!(buffer.push_chunk(&packet[100..]));
    assert_eq!(buffer.message(), vec![8, 1, 18, 1, b'h']);
}

#[test]
fn progress_is_reported_at_the_threshold() {
    let mut reader = ProgressReader::new((), 1000);
    assert_eq!(reader.record(4096 * 256 - 1), None);
    assert_eq!(reader.record(101), Some((4096 * 256 + 100, 1000)));
    assert_eq!(reader.record(5), None);
    assert_eq!(reader.counter(), 4096 * 256 + 105);
}

#[test]
fn receiving_side_decisions() {
    let meta = Metadata { name: "a.txt".to_string(), size: 5, transfer_type: TransferType::File };
    match incoming_event(&meta) {
        PeerEvent::FileIncoming(n, h, s, t) => {
            assert_eq!(n, "a.txt");
            assert_eq!(h, "");
            assert_eq!(s, 5);
            assert_eq!(t, TransferType::File);
        }
        other => panic!("unexpected {:?}", other),
    }
    assert_eq!(answer_for(&TransferCommand::Accept("h1".to_string())), (true, "h1".to_string()));
    assert_eq!(answer_for(&TransferCommand::Deny("h2".to_string())), (false, "h2".to_string()));
    assert!(matches!(failure_event(true), PeerEvent::FileIncorrect));
    match failure_event(false) {
        PeerEvent::Error(m) => assert_eq!(m, "Reading payload failed"),
        other => panic!("unexpected {:?}", other),
    }
    assert_eq!(check_digest(&"aa".to_string(), &"aa".to_string()), Ok(()));
    assert_eq!(
        check_digest(&"aa".to_string(), &"bb".to_string()),
        Err("Hash mismatch: expected bb, got aa".to_string())
    );
    assert!(after_answer(true).is_none());
    assert!(matches!(after_answer(false), Some(PeerEvent::TransferRejected)));
}

#[test]
fn finished_transfer_and_cleanup() {
    let mut t = TransferPayload::waiting(Some("/tmp/in".to_string()));
    assert_eq!(t.name, "default");
    assert_eq!(t.size_bytes, 0);
    let meta = Metadata { name: "Hello (...)".to_string(), size: 11, transfer_type: TransferType::Text };
    t.finish(meta, Payload::Text("Hello there".to_string()), 11, "/tmp/in/h".to_string());
    assert_eq!(t.name, "Hello (...)");
    assert_eq!(t.size_bytes, 11);
    assert_eq!(t.target_path, Some("/tmp/in/h".to_string()));

    let mut removed: Vec<String> = Vec::new();
    let r = t.cleanup(|p: &String| -> Result<(), ()> {
        removed.push(p.clone());
        Ok(())
    });
    assert_eq!(r, Ok(()));
    assert_eq!(removed, vec!["/tmp/in/h".to_string()]);

    let file = TransferPayload {
        name: "f".to_string(),
        payload: Payload::File("/tmp/in/f".to_string()),
        hash: String::new(),
        size_bytes: 1,
        target_path: Some("/tmp/in/f".to_string()),
    };
    let r2 = file.cleanup(|_: &String| -> Result<(), String> { Err("must not be called".to_string()) });
    assert_eq!(r2, Ok(()));
}

#[test]
fn queued_file_is_dispatched_to_its_peer() {
    let mut b: TransferBehaviour<TransferPayload> = TransferBehaviour::new(None);
    assert!(b.poll().is_none());
    let file = FileToSend::new(&"peer-9".to_string(), Payload::Text("Hello there".to_string()), same_path).unwrap();
    b.push_file(file);
    match b.poll() {
        Some(TransferAction::NotifyHandler { peer_id, event }) => {
            assert_eq!(peer_id, "peer-9");
            assert_eq!(event.file.name, "Hello (...)");
        }
        other => panic!("unexpected {:?}", other),
    }
    assert!(b.poll().is_none());

    let received = TransferPayload::waiting(None);
    b.on_connection_handler_event(ProtocolEvent::Received(received));
    b.on_connection_handler_event(ProtocolEvent::Sent);
    assert!(matches!(b.poll(), Some(TransferAction::GenerateEvent(_))));
    assert!(b.poll().is_none());
    assert_eq!(b.waiting_payload().size_bytes, 0);
}

#[test]
fn progress_event_carries_direction() {
    match dragit::p2p::transfer::protocol::progress_event(3, 9, Direction::Outgoing) {
        PeerEvent::TransferProgress((c, s, Direction::Outgoing)) => {
            assert_eq!((c, s), (3, 9));
        }
        other => panic!("unexpected {:?}", other),
    }
}

#[test]
fn archive_roots() {
    assert_eq!(archive_name("/home/u/test_dir"), "test_dir");
    assert_eq!(archive_name("/home/u/test_dir/"), "test_dir");
    assert_eq!(archive_name("/"), "/");
}

#[test]
fn received_entries_land_under_the_reported_target() {
    let target = "/home/u/Downloads/test_dir_77";
    assert_eq!(entry_destination(target, "test_dir/").as_deref(), Some(target));
    assert_eq!(entry_destination(target, "test_dir").as_deref(), Some(target));
    assert_eq!(
        entry_destination(target, "test_dir/sub/a.txt").as_deref(),
        Some("/home/u/Downloads/test_dir_77/sub/a.txt")
    );
    assert_eq!(
        entry_destination(target, "./test_dir//sub/./b/").as_deref(),
        Some("/home/u/Downloads/test_dir_77/sub/b")
    );
}

#[test]
fn unsafe_or_empty_entries_are_skipped() {
    assert_eq!(entry_destination("/t", "test_dir/../../etc/passwd"), None);
    assert_eq!(entry_destination("/t", ".."), None);
    assert_eq!(entry_destination("/t", ""), None);
    assert_eq!(entry_destination("/t", "./"), None);
}

#[test]
fn descriptions() {
    assert_eq!(TransferType::File.describe(), "TransferType: File");
    assert_eq!(TransferType::Dir.describe(), "TransferType: Dir");
    let file = FileToSend::new(&"p".to_string(), Payload::Text("Hello there".to_string()), same_path).unwrap();
    assert_eq!(file.describe(), "FileToSend name: Hello (...), type: TransferType: Text");
    let out = dragit::p2p::transfer::protocol::TransferOut { file };
    assert_eq!(out.describe(), "[TransferOut] FileToSend name: Hello (...), type: TransferType: Text");
    let meta = Metadata { name: "a.txt".to_string(), size: 19, transfer_type: TransferType::File };
    assert_eq!(meta.describe(), "Metadata:\n name: a.txt\n size: 19\n type: TransferType: File\n");
    let waiting = TransferPayload::waiting(None);
    assert_eq!(
        waiting.describe(),
        "TransferPayload name: default, payload: FilePayload(.), hash: , size: 0 bytes"
    );
    assert_eq!(
        ProtocolEvent::Received(waiting).describe(),
        "Received TransferPayload name: default, payload: FilePayload(.), hash: , size: 0 bytes"
    );
    assert_eq!(ProtocolEvent::<TransferPayload>::Sent.describe(), "Sent");
}

#[test]
fn hashing_reader_over_reads_matches_hash_contents() {
    let reads = vec![b"I'll ".to_vec(), b"fly to ".to_vec(), b"device!".to_vec()];
    let mut h = HashingReader::new(());
    h.observe_all(&reads);
    let digest = h.finish();
    assert_eq!(digest, hash_contents(&reads).0);
    assert_eq!(digest, "a909b834a8f95194ee2ce975e38cec31");
    assert_eq!(HashingReader::new(()).finish(), "d41d8cd98f00b204e9800998ecf8427e");
}
