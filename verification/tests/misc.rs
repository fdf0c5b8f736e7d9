use std::sync::mpsc::sync_channel;

use dragit::bluetooth::{device_address, supports_object_push};
use dragit::p2p::transfer::jobs::{next_write_step, send_buffer, JobError, WriteStep};

#[test]
fn device_address_from_object_path() {
    assert_eq!(device_address("/org/bluez/hci0/dev_AA_BB_CC_DD_EE_FF"), "AA:BB:CC:DD:EE:FF");
    assert_eq!(device_address("other"), "other");
}

#[test]
fn object_push_support() {
    let uuids = vec!["0000110a-0000-1000-8000-00805f9b34fb".to_string(), "00001105-0000-1000-8000-00805f9b34fb".to_string()];
    assert!(supports_object_push(&uuids));
    assert!(!supports_object_push(&vec!["0000110a-0000-1000-8000-00805f9b34fb".to_string()]));
}

#[test]
fn buffers_reach_the_write_job() {
    let (tx, rx) = sync_channel::<Vec<u8>>(2);
    assert_eq!(send_buffer(&tx, vec![1, 2, 3]), Ok(()));
    assert_eq!(rx.recv().unwrap(), vec![1, 2, 3]);
    drop(rx);
    assert_eq!(send_buffer(&tx, vec![4]), Err(JobError::ReaderDisconnected));
    assert_eq!(JobError::ReaderDisconnected.message(), "File reader disconnected");
    assert_eq!(JobError::SenderDisconnected.message(), "File sender disconnected");
}

#[test]
fn write_job_steps() {
    assert!(matches!(next_write_step(Some(vec![7, 8])), WriteStep::Write(b) if b == vec![7, 8]));
    assert!(matches!(next_write_step(Some(Vec::new())), WriteStep::Finish));
    assert!(matches!(next_write_step(None), WriteStep::Fail(JobError::SenderDisconnected)));
}

fn run_job(messages: Vec<Option<Vec<u8>>>) -> (Vec<u8>, &'static str) {
    let mut file = Vec::new();
    for m in messages {
        match next_write_step(m) {
            WriteStep::Write(b) => file.extend_from_slice(&b),
            WriteStep::Finish => return (file, "finished"),
            WriteStep::Fail(_) => return (file, "failed"),
        }
    }
    (file, "receiving")
}

#[test]
fn chunks_then_end_make_the_file() {
    let msgs = vec![Some(vec![1, 2]), Some(vec![3]), Some(Vec::new()), Some(vec![9]), None];
    assert_eq!(run_job(msgs), (vec![1, 2, 3], "finished"));
}

#[test]
fn hangup_keeps_what_arrived() {
    let msgs = vec![Some(vec![5]), None, Some(vec![6])];
    assert_eq!(run_job(msgs), (vec![5], "failed"));
}
