//! The hand-over of received chunks to the job that writes them to disk:
//! an empty chunk ends the file, and either end going away is an error.

use vstd::prelude::*;
use std::sync::mpsc::SyncSender;

verus! {

#[verifier::external_type_specification]
#[verifier::external_body]
#[verifier::reject_recursive_types(T)]
pub struct ExSyncSender<T>(SyncSender<T>);

/// Why a write job or its feeder stopped.
#[derive(Debug, Clone, Copy, PartialEq, Eq, Structural)]
pub enum JobError {
    /// The job writing the file is gone.
    ReaderDisconnected,
    /// The side handing over the chunks is gone.
    SenderDisconnected,
}

impl JobError {
    /// The error's message.
    pub fn message(&self) -> (m: &'static str)
        ensures
            *self == JobError::ReaderDisconnected ==> m@ == "File reader disconnected"@,
            *self == JobError::SenderDisconnected ==> m@ == "File sender disconnected"@,
    {
        match self {
            JobError::ReaderDisconnected => "File reader disconnected",
            JobError::SenderDisconnected => "File sender disconnected",
        }
    }
}

/// Hands `buff` to the receiving end of `sender` (std's `SyncSender::send`),
/// waiting while the channel is full; `true` when it was taken. Whether the
/// receiving end still exists is not known here, so the result is left
/// unstated.
#[verifier::external_body]
fn deliver(sender: &SyncSender<Vec<u8>>, buff: Vec<u8>) -> (delivered: bool) {
    match sender.send(buff) {
        Ok(()) => true,
        Err(_) => false,
    }
}

/// The outcome of handing over a chunk: an error when the write job was
/// gone.
pub fn send_outcome(delivered: bool) -> (r: Result<(), JobError>)
    ensures
        delivered ==> r is Ok,
        !delivered ==> r == Err::<(), JobError>(JobError::ReaderDisconnected),
{
    if delivered {
        Ok(())
    } else {
        Err(JobError::ReaderDisconnected)
    }
}

/// Hands the chunk `buff` to the job writing the file.
pub fn send_buffer(sender: &SyncSender<Vec<u8>>, buff: Vec<u8>) -> (r: Result<(), JobError>)
    ensures
        r is Ok || r == Err::<(), JobError>(JobError::ReaderDisconnected),
{
    send_outcome(deliver(sender, buff))
}

/// What the write job does with what it received.
#[derive(Debug)]
pub enum WriteStep {
    /// Append the bytes to the file.
    Write(Vec<u8>),
    /// Flush the file and stop.
    Finish,
    /// Stop with an error.
    Fail(JobError),
}

/// Where a write job stands: still receiving, done, or stopped by an error.
#[derive(Debug, Clone, Copy, PartialEq, Eq, Structural)]
pub enum JobState {
    /// Waiting for more chunks.
    Receiving,
    /// The end of the file arrived.
    Finished,
    /// The feeding side went away.
    Failed,
}

/// What was received, as plain values: `None` when the feeding side is gone.
pub open spec fn received_view(received: Option<Vec<u8>>) -> Option<Seq<u8>> {
    match received {
        Some(b) => Some(b@),
        None => None,
    }
}

/// The file's content and the job's state after one message, starting from
/// a receiving job that has written `written`.
pub open spec fn job_step(written: Seq<u8>, msg: Option<Seq<u8>>) -> (Seq<u8>, JobState) {
    match msg {
        None => (written, JobState::Failed),
        Some(b) => if b.len() == 0 {
            (written, JobState::Finished)
        } else {
            (written + b, JobState::Receiving)
        },
    }
}

/// The file's content and the job's state after carrying out `s` on a file
/// holding `written`.
pub open spec fn apply_step(written: Seq<u8>, s: WriteStep) -> (Seq<u8>, JobState) {
    match s {
        WriteStep::Write(w) => (written + w@, JobState::Receiving),
        WriteStep::Finish => (written, JobState::Finished),
        WriteStep::Fail(_) => (written, JobState::Failed),
    }
}

/// The file's content and the job's state after the messages `msgs`, in
/// order, on a freshly created file; nothing is read once the job stopped.
pub open spec fn job_run(msgs: Seq<Option<Seq<u8>>>) -> (Seq<u8>, JobState)
    decreases msgs.len(),
{
    if msgs.len() == 0 {
        (Seq::empty(), JobState::Receiving)
    } else {
        let (w, st) = job_run(msgs.drop_last());
        if st == JobState::Receiving {
            job_step(w, msgs.last())
        } else {
            (w, st)
        }
    }
}

/// The chunks `bs` one after the other.
pub open spec fn concat_chunks(bs: Seq<Seq<u8>>) -> Seq<u8>
    decreases bs.len(),
{
    if bs.len() == 0 {
        Seq::empty()
    } else {
        concat_chunks(bs.drop_last()) + bs.last()
    }
}

/// The chunks `bs`, each handed over as received.
pub open spec fn as_messages(bs: Seq<Seq<u8>>) -> Seq<Option<Seq<u8>>> {
    bs.map_values(|b: Seq<u8>| Some(b))
}

proof fn lemma_chunks_received(bs: Seq<Seq<u8>>)
    requires
        forall|i: int| 0 <= i < bs.len() ==> #[trigger] bs[i].len() > 0,
    ensures
        job_run(as_messages(bs)) == (concat_chunks(bs), JobState::Receiving),
    decreases bs.len(),
{
    if bs.len() > 0 {
        let pre = bs.drop_last();
        assert(as_messages(bs).drop_last() == as_messages(pre));
        assert(bs[bs.len() - 1].len() > 0);
        lemma_chunks_received(pre);
    }
}

proof fn lemma_stopped_stays(msgs: Seq<Option<Seq<u8>>>, rest: Seq<Option<Seq<u8>>>)
    requires
        job_run(msgs).1 != JobState::Receiving,
    ensures
        job_run(msgs + rest) == job_run(msgs),
    decreases rest.len(),
{
    if rest.len() == 0 {
        assert(msgs + rest == msgs);
    } else {
        lemma_stopped_stays(msgs, rest.drop_last());
        assert((msgs + rest).drop_last() == msgs + rest.drop_last());
    }
}

/// Non-empty chunks handed over in order and then an empty chunk leave the
/// file holding exactly those chunks, one after the other, and the job
/// finished; whatever comes after the empty chunk is not read.
pub proof fn law_chunks_then_end_make_the_file(
    bs: Seq<Seq<u8>>,
    rest: Seq<Option<Seq<u8>>>,
)
    requires
        forall|i: int| 0 <= i < bs.len() ==> #[trigger] bs[i].len() > 0,
    ensures
        job_run(as_messages(bs).push(Some(Seq::<u8>::empty())) + rest) == (
            concat_chunks(bs),
            JobState::Finished,
        ),
{
    let msgs = as_messages(bs).push(Some(Seq::<u8>::empty()));
    lemma_chunks_received(bs);
    assert(msgs.drop_last() == as_messages(bs));
    lemma_stopped_stays(msgs, rest);
}

/// Non-empty chunks handed over in order and then the feeding side going
/// away leave the file holding what arrived and the job failed.
pub proof fn law_hangup_keeps_what_arrived(bs: Seq<Seq<u8>>, rest: Seq<Option<Seq<u8>>>)
    requires
        forall|i: int| 0 <= i < bs.len() ==> #[trigger] bs[i].len() > 0,
    ensures
        job_run(as_messages(bs).push(None) + rest) == (concat_chunks(bs), JobState::Failed),
{
    let msgs = as_messages(bs).push(None);
    lemma_chunks_received(bs);
    assert(msgs.drop_last() == as_messages(bs));
    lemma_stopped_stays(msgs, rest);
}

/// The write job's next step for `received`: `None` when the side handing
/// over the chunks is gone, an empty chunk marking the end of the file.
pub fn next_write_step(received: Option<Vec<u8>>) -> (s: WriteStep)
    ensures
        forall|written: Seq<u8>| #[trigger] apply_step(written, s) == job_step(written, received_view(received)),
        received is None ==> s == WriteStep::Fail(JobError::SenderDisconnected),
        received matches Some(b) ==> (if b@.len() == 0 {
            s is Finish
        } else {
            s matches WriteStep::Write(w) && w@ == b@
        }),
{
    match received {
        None => WriteStep::Fail(JobError::SenderDisconnected),
        Some(b) => {
            if b.len() == 0 {
                WriteStep::Finish
            } else {
                WriteStep::Write(b)
            }
        },
    }
}

} // verus!
