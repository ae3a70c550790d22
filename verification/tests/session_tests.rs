use dirsync::session::{DownloadSession, FetchAction, SendAction, Signal, UploadSession};
use dirsync::transfer::{chunk_plan, Chunk, CHUNK_SIZE};

/// Sends `data` up through a session into `object`; a write fails where
/// `fail_at` says so. Returns the writes that were asked for.
fn send(data: &[u8], object: &mut Vec<u8>, fail_at: Option<usize>) -> (Vec<Chunk>, bool) {
    let mut session = UploadSession::new(data.len() as u64);
    let mut position = 0usize;
    let mut last_read: Vec<u8> = Vec::new();
    let mut writes = Vec::new();
    for _ in 0..1000 {
        match session.action() {
            SendAction::Declare { size } => {
                assert_eq!(size, data.len() as u64);
                *object = vec![0u8; size as usize];
                session = session.step(Signal::Done);
            }
            SendAction::Read { len } => {
                let end = (position + len as usize).min(data.len());
                last_read = data[position..end].to_vec();
                position = end;
                session = session.step(Signal::Bytes { len: last_read.len() as u64 });
            }
            SendAction::Write { chunk } => {
                assert_eq!(chunk.len as usize, last_read.len());
                if fail_at == Some(writes.len()) {
                    writes.push(chunk);
                    session = session.step(Signal::Failed);
                } else {
                    let start = chunk.offset as usize;
                    object[start..start + last_read.len()].copy_from_slice(&last_read);
                    writes.push(chunk);
                    session = session.step(Signal::Done);
                }
            }
            SendAction::Stop { complete } => return (writes, complete),
        }
    }
    panic!("the upload did not come to an end");
}

fn fetch(buffers: &[&[u8]]) -> (Vec<u8>, Vec<FetchAction>, bool) {
    let mut session = DownloadSession::new();
    let mut file: Vec<u8> = Vec::new();
    let mut log = Vec::new();
    let mut next = 0usize;
    for _ in 0..1000 {
        let action = session.action();
        log.push(action);
        match action {
            FetchAction::Open => session = session.step(Signal::Done),
            FetchAction::Receive => {
                if next < buffers.len() {
                    session = session.step(Signal::Bytes { len: buffers[next].len() as u64 });
                    next += 1;
                } else {
                    session = session.step(Signal::End);
                }
            }
            FetchAction::Write { offset, len } => {
                let buffer = buffers[next - 1];
                assert_eq!(len as usize, buffer.len());
                let end = offset as usize + buffer.len();
                if file.len() < end {
                    file.resize(end, 0);
                }
                file[offset as usize..end].copy_from_slice(buffer);
                session = session.step(Signal::Done);
            }
            FetchAction::Flush => session = session.step(Signal::Done),
            FetchAction::Stop { complete } => return (file, log, complete),
        }
    }
    panic!("the download did not come to an end");
}

fn sample(size: usize) -> Vec<u8> {
    (0..size).map(|i| (i * 7 % 253) as u8).collect()
}

#[test]
fn an_upload_declares_then_reads_and_writes_in_turn() {
    let mut session = UploadSession::new(10);
    assert_eq!(session.action(), SendAction::Declare { size: 10 });
    session = session.step(Signal::Done);
    assert_eq!(session.action(), SendAction::Read { len: 10 });
    session = session.step(Signal::Bytes { len: 4 });
    assert_eq!(session.action(), SendAction::Write { chunk: Chunk { offset: 0, len: 4 } });
    assert_eq!(session.sent(), 4);
    session = session.step(Signal::Done);
    assert_eq!(session.action(), SendAction::Read { len: 6 });
    session = session.step(Signal::Bytes { len: 6 });
    assert_eq!(session.action(), SendAction::Write { chunk: Chunk { offset: 4, len: 6 } });
    session = session.step(Signal::Done);
    assert_eq!(session.action(), SendAction::Read { len: 0 });
    session = session.step(Signal::Bytes { len: 0 });
    assert_eq!(session.action(), SendAction::Stop { complete: true });
}

#[test]
fn the_writes_of_an_upload_are_the_planned_chunks() {
    for size in [0usize, 1, 2_097_153, 2_097_154, 5_000_000] {
        let data = sample(size);
        let mut object = Vec::new();
        let (writes, complete) = send(&data, &mut object, None);
        assert!(complete);
        assert_eq!(writes, chunk_plan(size as u64));
        assert_eq!(object, data);
    }
}

#[test]
fn a_failed_write_ends_the_upload() {
    let data = sample(5_000_000);
    let mut object = Vec::new();
    let (writes, complete) = send(&data, &mut object, Some(1));
    assert!(!complete);
    assert_eq!(writes.len(), 2);
    assert_ne!(object, data);
}

#[test]
fn an_upload_that_cannot_be_declared_reads_nothing() {
    let session = UploadSession::new(10).step(Signal::Failed);
    assert_eq!(session.action(), SendAction::Stop { complete: false });
    let session = session.step(Signal::Done).step(Signal::Bytes { len: 3 });
    assert_eq!(session.action(), SendAction::Stop { complete: false });
    assert_eq!(session.sent(), 0);
}

#[test]
fn a_failed_read_ends_the_upload() {
    let session = UploadSession::new(10).step(Signal::Done).step(Signal::Failed);
    assert_eq!(session.action(), SendAction::Stop { complete: false });
}

#[test]
fn an_upload_ends_on_an_answer_of_the_wrong_shape() {
    let session = UploadSession::new(10).step(Signal::Bytes { len: 1 });
    assert_eq!(session.action(), SendAction::Stop { complete: false });
    let session = UploadSession::new(10).step(Signal::Done).step(Signal::End);
    assert_eq!(session.action(), SendAction::Stop { complete: false });
}

#[test]
fn an_upload_never_asks_for_more_than_a_chunk() {
    let session = UploadSession::new(u64::MAX).step(Signal::Done);
    assert_eq!(session.action(), SendAction::Read { len: CHUNK_SIZE });
    let session = session.step(Signal::Bytes { len: u64::MAX });
    assert_eq!(
        session.action(),
        SendAction::Write { chunk: Chunk { offset: 0, len: CHUNK_SIZE } }
    );
}

#[test]
fn a_download_writes_each_buffer_after_the_last() {
    let (file, log, complete) = fetch(&[b"hello ", b"", b"wor", b"ld"]);
    assert!(complete);
    assert_eq!(file, b"hello world");
    assert_eq!(
        log,
        vec![
            FetchAction::Open,
            FetchAction::Receive,
            FetchAction::Write { offset: 0, len: 6 },
            FetchAction::Receive,
            FetchAction::Write { offset: 6, len: 0 },
            FetchAction::Receive,
            FetchAction::Write { offset: 6, len: 3 },
            FetchAction::Receive,
            FetchAction::Write { offset: 9, len: 2 },
            FetchAction::Receive,
            FetchAction::Flush,
            FetchAction::Stop { complete: true },
        ]
    );
}

#[test]
fn an_empty_stream_is_flushed_and_complete() {
    let (file, log, complete) = fetch(&[]);
    assert!(complete);
    assert!(file.is_empty());
    assert_eq!(
        log,
        vec![
            FetchAction::Open,
            FetchAction::Receive,
            FetchAction::Flush,
            FetchAction::Stop { complete: true },
        ]
    );
}

#[test]
fn a_failure_at_any_point_ends_the_download() {
    let opened = DownloadSession::new().step(Signal::Done);
    for session in [
        DownloadSession::new(),
        opened,
        opened.step(Signal::Bytes { len: 5 }),
        opened.step(Signal::End),
    ] {
        let failed = session.step(Signal::Failed);
        assert_eq!(failed.action(), FetchAction::Stop { complete: false });
        assert_eq!(failed.step(Signal::Done).action(), FetchAction::Stop { complete: false });
    }
}

#[test]
fn a_stream_that_outgrows_64_bits_ends_the_download() {
    let session = DownloadSession::new()
        .step(Signal::Done)
        .step(Signal::Bytes { len: u64::MAX })
        .step(Signal::Done);
    assert_eq!(session.received(), u64::MAX);
    let session = session.step(Signal::Bytes { len: 1 });
    assert_eq!(session.action(), FetchAction::Stop { complete: false });
}

#[test]
fn a_file_sent_up_in_a_session_and_fetched_in_a_session_is_the_same() {
    let data = sample(4_500_000);
    let mut object = Vec::new();
    let (_, sent) = send(&data, &mut object, None);
    assert!(sent);
    let buffers: Vec<&[u8]> = object.chunks(100_003).collect();
    let (file, _, fetched) = fetch(&buffers);
    assert!(fetched);
    assert_eq!(file, data);
}
