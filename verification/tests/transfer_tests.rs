use dirsync::transfer::{chunk_plan, Chunk, Download, Upload, CHUNK_SIZE};

fn ceil_div(n: u64) -> u64 {
    (n + CHUNK_SIZE - 1) / CHUNK_SIZE
}

#[test]
fn the_chunk_size_is_the_protocol_constant() {
    assert_eq!(CHUNK_SIZE, 2_097_153);
    assert_eq!(CHUNK_SIZE, 2 * 1024 * 1024 + 1);
}

#[test]
fn an_empty_file_has_no_chunk() {
    assert_eq!(chunk_plan(0), vec![]);
}

#[test]
fn a_small_file_is_one_short_chunk() {
    assert_eq!(chunk_plan(1), vec![Chunk { offset: 0, len: 1 }]);
    assert_eq!(chunk_plan(2_097_152), vec![Chunk { offset: 0, len: 2_097_152 }]);
}

#[test]
fn an_exact_multiple_ends_in_a_full_chunk() {
    assert_eq!(chunk_plan(CHUNK_SIZE), vec![Chunk { offset: 0, len: CHUNK_SIZE }]);
    assert_eq!(
        chunk_plan(3 * CHUNK_SIZE),
        vec![
            Chunk { offset: 0, len: 2_097_153 },
            Chunk { offset: 2_097_153, len: 2_097_153 },
            Chunk { offset: 4_194_306, len: 2_097_153 },
        ]
    );
}

#[test]
fn one_byte_more_than_a_chunk_makes_a_second_chunk_of_one() {
    assert_eq!(
        chunk_plan(CHUNK_SIZE + 1),
        vec![Chunk { offset: 0, len: 2_097_153 }, Chunk { offset: 2_097_153, len: 1 }]
    );
}

#[test]
fn five_million_bytes_go_up_in_three_chunks() {
    assert_eq!(
        chunk_plan(5_000_000),
        vec![
            Chunk { offset: 0, len: 2_097_153 },
            Chunk { offset: 2_097_153, len: 2_097_153 },
            Chunk { offset: 4_194_306, len: 805_694 },
        ]
    );
}

#[test]
fn the_plan_follows_the_rounded_up_division() {
    for size in [0, 1, 1000, CHUNK_SIZE - 1, CHUNK_SIZE, CHUNK_SIZE + 1, 10 * CHUNK_SIZE + 7, 123_456_789] {
        let plan = chunk_plan(size);
        assert_eq!(plan.len() as u64, ceil_div(size));
        let mut offset = 0;
        for chunk in &plan {
            assert_eq!(chunk.offset, offset);
            assert!(chunk.len > 0);
            assert!(chunk.len <= CHUNK_SIZE);
            offset += chunk.len;
        }
        assert_eq!(offset, size);
        if let Some(last) = plan.last() {
            let rest = size % CHUNK_SIZE;
            assert_eq!(last.len, if rest == 0 { CHUNK_SIZE } else { rest });
        }
    }
}

#[test]
fn an_upload_asks_for_a_full_chunk_or_what_is_left() {
    let upload = Upload::new(5_000_000);
    assert_eq!(upload.size(), 5_000_000);
    assert_eq!(upload.sent(), 0);
    assert_eq!(upload.request(), CHUNK_SIZE);
    let small = Upload::new(10);
    assert_eq!(small.request(), 10);
    assert_eq!(Upload::new(0).request(), 0);
}

#[test]
fn offsets_move_on_by_the_bytes_actually_read() {
    let mut upload = Upload::new(5_000_000);
    assert_eq!(upload.advance(1000), Some(Chunk { offset: 0, len: 1000 }));
    assert_eq!(upload.sent(), 1000);
    assert_eq!(upload.advance(CHUNK_SIZE), Some(Chunk { offset: 1000, len: CHUNK_SIZE }));
    assert_eq!(upload.sent(), 1000 + CHUNK_SIZE);
    assert_eq!(upload.request(), CHUNK_SIZE);
}

#[test]
fn a_read_of_no_bytes_ends_the_upload() {
    let mut upload = Upload::new(5_000_000);
    assert_eq!(upload.advance(0), None);
    assert_eq!(upload.sent(), 0);
    upload.advance(10);
    assert_eq!(upload.advance(0), None);
    assert_eq!(upload.sent(), 10);
}

#[test]
fn nothing_is_sent_beyond_the_declared_size() {
    let mut upload = Upload::new(100);
    assert_eq!(upload.advance(60), Some(Chunk { offset: 0, len: 60 }));
    assert_eq!(upload.request(), 40);
    assert_eq!(upload.advance(60), Some(Chunk { offset: 60, len: 40 }));
    assert_eq!(upload.request(), 0);
    assert_eq!(upload.advance(60), None);
    assert_eq!(upload.sent(), 100);
}

#[test]
fn a_read_larger_than_a_chunk_counts_as_a_chunk() {
    let mut upload = Upload::new(10 * CHUNK_SIZE);
    assert_eq!(upload.advance(u64::MAX), Some(Chunk { offset: 0, len: CHUNK_SIZE }));
}

#[test]
fn an_upload_of_the_largest_size_does_not_overflow() {
    let mut upload = Upload::new(u64::MAX);
    assert_eq!(upload.request(), CHUNK_SIZE);
    assert_eq!(upload.advance(CHUNK_SIZE), Some(Chunk { offset: 0, len: CHUNK_SIZE }));
}

#[test]
fn buffers_are_placed_one_after_the_other() {
    let mut download = Download::new();
    assert_eq!(download.received(), 0);
    assert_eq!(download.place(10), Some(0));
    assert_eq!(download.place(0), Some(10));
    assert_eq!(download.place(5), Some(10));
    assert_eq!(download.place(1), Some(15));
    assert_eq!(download.received(), 16);
}

#[test]
fn a_download_that_outgrows_64_bits_is_refused() {
    let mut download = Download::new();
    assert_eq!(download.place(u64::MAX), Some(0));
    assert_eq!(download.place(1), None);
    assert_eq!(download.received(), u64::MAX);
    assert_eq!(download.place(0), Some(u64::MAX));
}

fn write_at(file: &mut Vec<u8>, offset: u64, data: &[u8]) {
    let end = offset as usize + data.len();
    if file.len() < end {
        file.resize(end, 0);
    }
    file[offset as usize..end].copy_from_slice(data);
}

#[test]
fn a_file_sent_up_and_brought_down_arrives_byte_for_byte() {
    let size: usize = 5_000_000;
    let data: Vec<u8> = (0..size).map(|i| (i * 31 % 251) as u8).collect();

    let mut object = vec![0u8; size];
    let mut upload = Upload::new(size as u64);
    let mut writes = 0;
    loop {
        let want = upload.request() as usize;
        let from = upload.sent() as usize;
        let read = &data[from..from + want];
        match upload.advance(read.len() as u64) {
            Some(chunk) => {
                write_at(&mut object, chunk.offset, read);
                writes += 1;
            }
            None => break,
        }
    }
    assert_eq!(writes, 3);
    assert_eq!(object, data);

    let mut file = Vec::new();
    let mut download = Download::new();
    for buffer in object.chunks(65_536 + 7) {
        let offset = download.place(buffer.len() as u64).unwrap();
        write_at(&mut file, offset, buffer);
    }
    assert_eq!(download.received(), size as u64);
    assert_eq!(file, data);
}
