//! The transfer of one file, step by step.
//!
//! Like the engine, a session performs nothing. It names the operation
//! that is due and is told what came of it. The first failure ends a
//! session: nothing more is asked for, and the file counts as failed.

use vstd::prelude::*;
use crate::transfer::{
    chunk_count, chunk_len, least, planned, Chunk, Download, Upload, CHUNK_SIZE,
};

verus! {

/// What came of an operation of a session.
#[derive(Clone, Copy, Debug, PartialEq, Eq, Structural)]
pub enum Signal {
    /// The operation was carried out.
    Done,
    /// This many bytes were read from the local file, or arrived in the
    /// next buffer of the stream.
    Bytes { len: u64 },
    /// The stream has ended.
    End,
    /// The operation failed.
    Failed,
}

/// The operation that an upload asks for.
#[derive(Clone, Copy, Debug, PartialEq, Eq, Structural)]
pub enum SendAction {
    /// Declare the remote object with `size` bytes.
    Declare { size: u64 },
    /// Read up to `len` bytes of the local file, from where the last read
    /// ended.
    Read { len: u64 },
    /// Write the bytes just read into the remote object, at the chunk's
    /// offset.
    Write { chunk: Chunk },
    /// Stop. The upload went through, or it did not.
    Stop { complete: bool },
}

/// What an upload is waiting for.
#[derive(Clone, Copy, Debug, PartialEq, Eq, Structural)]
pub enum SendStage {
    Declare,
    Read,
    Write { chunk: Chunk },
    Done { complete: bool },
}

/// The state of an upload: the declared size, the bytes read so far, and
/// what is waited for.
pub struct SendState {
    pub size: nat,
    pub sent: nat,
    pub stage: SendStage,
}

/// An upload of `size` bytes before anything was asked.
pub open spec fn send_initial(size: nat) -> SendState {
    SendState { size, sent: 0, stage: SendStage::Declare }
}

/// The number of bytes that an upload asks for next: a full chunk, or
/// what is left of the declared size where that is less.
pub open spec fn send_request(state: SendState) -> nat {
    least(CHUNK_SIZE as int, state.size - state.sent) as nat
}

/// The operation that an upload waits for.
pub open spec fn send_action(state: SendState) -> SendAction {
    match state.stage {
        SendStage::Declare => SendAction::Declare { size: state.size as u64 },
        SendStage::Read => SendAction::Read { len: send_request(state) as u64 },
        SendStage::Write { chunk } => SendAction::Write { chunk },
        SendStage::Done { complete } => SendAction::Stop { complete },
    }
}

/// The upload with the work ended.
pub open spec fn send_ended(state: SendState, complete: bool) -> SendState {
    SendState { stage: SendStage::Done { complete }, ..state }
}

/// The state of an upload after the operation it waited for came to
/// `signal`.
///
/// - Once the object is declared, the file is read.
/// - A read of no bytes is the end of the file and of the upload. A read
///   of some bytes is written at the offset that was current, and the
///   offset moves on by the bytes read. Of a read of more than was asked
///   for, what was asked for counts.
/// - Once a chunk is written, the file is read again.
/// - A failure ends the upload, and so does an answer of the wrong shape.
pub open spec fn send_step(state: SendState, signal: Signal) -> SendState {
    match state.stage {
        SendStage::Declare => match signal {
            Signal::Done => SendState { stage: SendStage::Read, ..state },
            _ => send_ended(state, false),
        },
        SendStage::Read => match signal {
            Signal::Bytes { len } => {
                let taken = least(len as int, send_request(state) as int) as nat;
                if taken == 0 {
                    send_ended(state, true)
                } else {
                    SendState {
                        sent: state.sent + taken,
                        stage: SendStage::Write {
                            chunk: Chunk { offset: state.sent as u64, len: taken as u64 },
                        },
                        ..state
                    }
                }
            },
            _ => send_ended(state, false),
        },
        SendStage::Write { chunk } => match signal {
            Signal::Done => SendState { stage: SendStage::Read, ..state },
            _ => send_ended(state, false),
        },
        SendStage::Done { complete } => state,
    }
}

/// An upload in progress.
#[derive(Clone, Copy, Debug)]
pub struct UploadSession {
    upload: Upload,
    stage: SendStage,
}

impl View for UploadSession {
    type V = SendState;

    closed spec fn view(&self) -> SendState {
        SendState {
            size: self.upload.spec_size(),
            sent: self.upload.spec_sent(),
            stage: self.stage,
        }
    }
}

impl UploadSession {
    /// An upload of a file of `size` bytes.
    pub fn new(size: u64) -> (session: UploadSession)
        ensures
            session@ == send_initial(size as nat),
    {
        UploadSession { upload: Upload::new(size), stage: SendStage::Declare }
    }

    /// The operation that is due.
    pub fn action(&self) -> (due: SendAction)
        ensures
            due == send_action(self@),
    {
        match self.stage {
            SendStage::Declare => SendAction::Declare { size: self.upload.size() },
            SendStage::Read => SendAction::Read { len: self.upload.request() },
            SendStage::Write { chunk } => SendAction::Write { chunk },
            SendStage::Done { complete } => SendAction::Stop { complete },
        }
    }

    /// The number of bytes read so far.
    pub fn sent(&self) -> (sent: u64)
        ensures
            sent == self@.sent,
    {
        self.upload.sent()
    }

    /// The session after the operation that was due came to `signal`.
    pub fn step(self, signal: Signal) -> (next: UploadSession)
        ensures
            next@ == send_step(self@, signal),
    {
        let mut next = self;
        match self.stage {
            SendStage::Declare => match signal {
                Signal::Done => {
                    next.stage = SendStage::Read;
                },
                _ => {
                    next.stage = SendStage::Done { complete: false };
                },
            },
            SendStage::Read => match signal {
                Signal::Bytes { len } => match next.upload.advance(len) {
                    None => {
                        next.stage = SendStage::Done { complete: true };
                    },
                    Some(chunk) => {
                        next.stage = SendStage::Write { chunk };
                    },
                },
                _ => {
                    next.stage = SendStage::Done { complete: false };
                },
            },
            SendStage::Write { chunk } => match signal {
                Signal::Done => {
                    next.stage = SendStage::Read;
                },
                _ => {
                    next.stage = SendStage::Done { complete: false };
                },
            },
            SendStage::Done { complete } => {},
        }
        next
    }
}

/// The operation that a download asks for.
#[derive(Clone, Copy, Debug, PartialEq, Eq, Structural)]
pub enum FetchAction {
    /// Create the local file and ask the store for the object's bytes.
    Open,
    /// Wait for the next buffer of the stream.
    Receive,
    /// Write the buffer just received into the local file at `offset`.
    Write { offset: u64, len: u64 },
    /// Flush the local file.
    Flush,
    /// Stop. The download went through, or it did not.
    Stop { complete: bool },
}

/// What a download is waiting for.
#[derive(Clone, Copy, Debug, PartialEq, Eq, Structural)]
pub enum FetchStage {
    Open,
    Receive,
    Write { offset: u64, len: u64 },
    Flush,
    Done { complete: bool },
}

/// The state of a download: the bytes received so far and what is waited
/// for.
pub struct FetchState {
    pub received: nat,
    pub stage: FetchStage,
}

/// A download before anything was asked.
pub open spec fn fetch_initial() -> FetchState {
    FetchState { received: 0, stage: FetchStage::Open }
}

/// The operation that a download waits for.
pub open spec fn fetch_action(state: FetchState) -> FetchAction {
    match state.stage {
        FetchStage::Open => FetchAction::Open,
        FetchStage::Receive => FetchAction::Receive,
        FetchStage::Write { offset, len } => FetchAction::Write { offset, len },
        FetchStage::Flush => FetchAction::Flush,
        FetchStage::Done { complete } => FetchAction::Stop { complete },
    }
}

/// The download with the work ended.
pub open spec fn fetch_ended(state: FetchState, complete: bool) -> FetchState {
    FetchState { stage: FetchStage::Done { complete }, ..state }
}

/// The state of a download after the operation it waited for came to
/// `signal`.
///
/// - Once the stream is open, buffers are waited for.
/// - A buffer is written at the number of bytes received before it, and
///   that number grows by the buffer's length. A stream that outgrows 64
///   bits ends the download.
/// - Once a buffer is written, the next is waited for.
/// - When the stream has ended the file is flushed, and with that the
///   download is complete.
/// - A failure ends the download, and so does an answer of the wrong
///   shape.
pub open spec fn fetch_step(state: FetchState, signal: Signal) -> FetchState {
    match state.stage {
        FetchStage::Open => match signal {
            Signal::Done => FetchState { stage: FetchStage::Receive, ..state },
            _ => fetch_ended(state, false),
        },
        FetchStage::Receive => match signal {
            Signal::Bytes { len } => if state.received + len <= u64::MAX {
                FetchState {
                    received: state.received + (len as nat),
                    stage: FetchStage::Write { offset: state.received as u64, len },
                }
            } else {
                fetch_ended(state, false)
            },
            Signal::End => FetchState { stage: FetchStage::Flush, ..state },
            _ => fetch_ended(state, false),
        },
        FetchStage::Write { offset, len } => match signal {
            Signal::Done => FetchState { stage: FetchStage::Receive, ..state },
            _ => fetch_ended(state, false),
        },
        FetchStage::Flush => match signal {
            Signal::Done => fetch_ended(state, true),
            _ => fetch_ended(state, false),
        },
        FetchStage::Done { complete } => state,
    }
}

/// A download in progress.
#[derive(Clone, Copy, Debug)]
pub struct DownloadSession {
    download: Download,
    stage: FetchStage,
}

impl View for DownloadSession {
    type V = FetchState;

    closed spec fn view(&self) -> FetchState {
        FetchState { received: self.download.spec_received(), stage: self.stage }
    }
}

impl DownloadSession {
    /// A download of one object.
    pub fn new() -> (session: DownloadSession)
        ensures
            session@ == fetch_initial(),
    {
        DownloadSession { download: Download::new(), stage: FetchStage::Open }
    }

    /// The operation that is due.
    pub fn action(&self) -> (due: FetchAction)
        ensures
            due == fetch_action(self@),
    {
        match self.stage {
            FetchStage::Open => FetchAction::Open,
            FetchStage::Receive => FetchAction::Receive,
            FetchStage::Write { offset, len } => FetchAction::Write { offset, len },
            FetchStage::Flush => FetchAction::Flush,
            FetchStage::Done { complete } => FetchAction::Stop { complete },
        }
    }

    /// The number of bytes received so far.
    pub fn received(&self) -> (received: u64)
        ensures
            received == self@.received,
    {
        self.download.received()
    }

    /// The session after the operation that was due came to `signal`.
    pub fn step(self, signal: Signal) -> (next: DownloadSession)
        ensures
            next@ == fetch_step(self@, signal),
    {
        let mut next = self;
        match self.stage {
            FetchStage::Open => match signal {
                Signal::Done => {
                    next.stage = FetchStage::Receive;
                },
                _ => {
                    next.stage = FetchStage::Done { complete: false };
                },
            },
            FetchStage::Receive => match signal {
                Signal::Bytes { len } => match next.download.place(len) {
                    Some(offset) => {
                        next.stage = FetchStage::Write { offset, len };
                    },
                    None => {
                        next.stage = FetchStage::Done { complete: false };
                    },
                },
                Signal::End => {
                    next.stage = FetchStage::Flush;
                },
                _ => {
                    next.stage = FetchStage::Done { complete: false };
                },
            },
            FetchStage::Write { offset, len } => match signal {
                Signal::Done => {
                    next.stage = FetchStage::Receive;
                },
                _ => {
                    next.stage = FetchStage::Done { complete: false };
                },
            },
            FetchStage::Flush => match signal {
                Signal::Done => {
                    next.stage = FetchStage::Done { complete: true };
                },
                _ => {
                    next.stage = FetchStage::Done { complete: false };
                },
            },
            FetchStage::Done { complete } => {},
        }
        next
    }
}

/// No empty chunk. Whatever an upload is told: where a write is due next,
/// the file was just read, and the chunk to write is not empty, not larger
/// than the chunk size, starts where the bytes read before it end, and
/// stays within the declared size.
pub proof fn law_no_empty_chunk(state: SendState, signal: Signal)
    requires
        state.sent <= state.size <= u64::MAX,
        send_step(state, signal).stage is Write,
    ensures
        state.stage is Read,
        ({
            let chunk = send_step(state, signal).stage->chunk;
            &&& 0 < chunk.len <= CHUNK_SIZE
            &&& chunk.offset == state.sent
            &&& chunk.offset + chunk.len == send_step(state, signal).sent
            &&& send_step(state, signal).sent <= state.size
        }),
{
}

/// A failure ends an upload: where any operation of an upload fails, the
/// upload stops as not complete, and an upload that has stopped asks for
/// nothing more, whatever it is told.
pub proof fn law_failure_ends_upload(state: SendState, signal: Signal)
    ensures
        !(state.stage is Done) ==> send_action(send_step(state, Signal::Failed)) == (
        SendAction::Stop { complete: false }),
        state.stage is Done ==> send_step(state, signal) == state,
{
}

/// The upload after `rounds` rounds in which the read yields all that was
/// asked for and the write goes through.
pub open spec fn sent_through(state: SendState, rounds: nat) -> SendState
    decreases rounds,
{
    if rounds == 0 {
        state
    } else {
        let before = sent_through(state, (rounds - 1) as nat);
        send_step(
            send_step(before, Signal::Bytes { len: send_request(before) as u64 }),
            Signal::Done,
        )
    }
}

/// After `rounds` full rounds the upload has read that many chunks and
/// reads again.
proof fn lemma_sent_through(size: u64, rounds: nat)
    requires
        rounds <= chunk_count(size as nat),
    ensures
        sent_through(send_step(send_initial(size as nat), Signal::Done), rounds) == (SendState {
            size: size as nat,
            sent: least(size as int, rounds * CHUNK_SIZE) as nat,
            stage: SendStage::Read,
        }),
    decreases rounds,
{
    if rounds > 0 {
        lemma_sent_through(size, (rounds - 1) as nat);
    }
}

/// Chunk sizing, operation for operation. A file of `size` bytes goes up,
/// every read yields all that was asked for and every write goes through.
/// Then round number `index` reads the length of chunk number `index` and
/// writes that chunk, for each of the chunks of the plan; the read after
/// the last chunk asks for nothing and yields nothing, and with that the
/// upload is complete. So the writes are as many as the size divided by
/// the chunk size, rounded up.
pub proof fn law_upload_follows_plan(size: u64, index: nat)
    requires
        index < chunk_count(size as nat),
    ensures
        ({
            let declared = send_step(send_initial(size as nat), Signal::Done);
            let before = sent_through(declared, index);
            let end = sent_through(declared, chunk_count(size as nat));
            &&& send_action(send_initial(size as nat)) == (SendAction::Declare { size })
            &&& send_action(before) == (SendAction::Read {
                len: chunk_len(size as nat, index) as u64,
            })
            &&& send_action(
                send_step(before, Signal::Bytes { len: chunk_len(size as nat, index) as u64 }),
            ) == (SendAction::Write { chunk: planned(size as nat)[index as int] })
            &&& send_action(end) == (SendAction::Read { len: 0 })
            &&& send_action(send_step(end, Signal::Bytes { len: 0 })) == (SendAction::Stop {
                complete: true,
            })
        }),
{
    lemma_sent_through(size, index);
    lemma_sent_through(size, chunk_count(size as nat));
}

/// The number of bytes in a run of buffers.
pub open spec fn total_len(lens: Seq<u64>) -> nat
    decreases lens.len(),
{
    if lens.len() == 0 {
        0
    } else {
        total_len(lens.drop_last()) + (lens.last() as nat)
    }
}

/// The download after buffers of the lengths `lens` arrived and each was
/// written.
pub open spec fn fed(state: FetchState, lens: Seq<u64>) -> FetchState
    decreases lens.len(),
{
    if lens.len() == 0 {
        state
    } else {
        fetch_step(
            fetch_step(fed(state, lens.drop_last()), Signal::Bytes { len: lens.last() }),
            Signal::Done,
        )
    }
}

/// Buffers are placed one after the other. A stream opens and brings
/// buffers of the lengths `lens`, every write goes through. Then each
/// buffer is written at the number of bytes that came before it; and when
/// the stream ends, the file is flushed and with that the download is
/// complete.
pub proof fn law_download_places_in_order(lens: Seq<u64>)
    requires
        total_len(lens) <= u64::MAX,
    ensures
        fetch_action(fetch_initial()) == FetchAction::Open,
        fed(fetch_step(fetch_initial(), Signal::Done), lens) == (FetchState {
            received: total_len(lens),
            stage: FetchStage::Receive,
        }),
        lens.len() > 0 ==> fetch_action(
            fetch_step(
                fed(fetch_step(fetch_initial(), Signal::Done), lens.drop_last()),
                Signal::Bytes { len: lens.last() },
            ),
        ) == (FetchAction::Write {
            offset: total_len(lens.drop_last()) as u64,
            len: lens.last(),
        }),
        fetch_action(
            fetch_step(fed(fetch_step(fetch_initial(), Signal::Done), lens), Signal::End),
        ) == FetchAction::Flush,
        fetch_action(
            fetch_step(
                fetch_step(fed(fetch_step(fetch_initial(), Signal::Done), lens), Signal::End),
                Signal::Done,
            ),
        ) == (FetchAction::Stop { complete: true }),
    decreases lens.len(),
{
    if lens.len() > 0 {
        law_download_places_in_order(lens.drop_last());
    }
}

/// A failure ends a download: where any operation of a download fails,
/// the download stops as not complete, and a download that has stopped
/// asks for nothing more, whatever it is told.
pub proof fn law_failure_ends_download(state: FetchState, signal: Signal)
    ensures
        !(state.stage is Done) ==> fetch_action(fetch_step(state, Signal::Failed)) == (
        FetchAction::Stop { complete: false }),
        state.stage is Done ==> fetch_step(state, signal) == state,
{
}

} // verus!
