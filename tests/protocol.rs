use infinitime::codec::{encode_read_continue, encode_write_chunk, MAX_PAYLOAD};
use infinitime::responses::{
    payload_recv, recv, FileChunk, MkdirReceipt, MvReceipt, ProtocolError, RawDirEntry, RmReceipt,
    WriteReceipt,
};
use infinitime::transfer::{
    create_dir_request, delete_request, move_request, version_from_bytes, ArgumentError, ListDir,
    ReadFile, ReadStep, Timestamp, WriteFile, WriteStep,
};

fn le32(v: u32) -> Vec<u8> {
    v.to_le_bytes().to_vec()
}

fn chunk_frame(offset: u32, total: u32, data: &[u8]) -> Vec<u8> {
    let mut f = vec![0x11, 1, 0, 0];
    f.extend(le32(offset));
    f.extend(le32(total));
    f.extend(le32(data.len() as u32));
    f.extend_from_slice(data);
    f
}

fn receipt_frame(offset: u32, remaining: u32) -> Vec<u8> {
    let mut f = vec![0x21, 1, 0, 0];
    f.extend(le32(offset));
    f.extend(0u64.to_le_bytes());
    f.extend(le32(remaining));
    f
}

fn dir_frame(number: u32, count: u32, flags: u32, size: u32, name: &[u8]) -> Vec<u8> {
    let mut f = vec![0x51, 1];
    f.extend((name.len() as u16).to_le_bytes());
    f.extend(le32(number));
    f.extend(le32(count));
    f.extend(le32(flags));
    f.extend(0u64.to_le_bytes());
    f.extend(le32(size));
    f.extend_from_slice(name);
    f
}

#[test]
fn version_reads_little_endian() {
    assert_eq!(version_from_bytes(&[0x01, 0x00, 0x00, 0x00]), 1);
}

#[test]
fn version_pads_and_truncates() {
    assert_eq!(version_from_bytes(&[0x02]), 2);
    assert_eq!(version_from_bytes(&[]), 0);
    assert_eq!(version_from_bytes(&[1, 2, 3, 4, 5, 6]), 0x0403_0201);
}

#[test]
fn list_dir_root() {
    let (mut l, req) = ListDir::start(b"/").unwrap();
    assert_eq!(req, vec![0x50, 0x00, 0x01, 0x00, 0x2F]);
    let frame: Vec<u8> = vec![
        0x51, 0x01, 0x01, 0x00, 0, 0, 0, 0, 1, 0, 0, 0, 2, 0, 0, 0, 0, 0, 0, 0, 0, 0, 0, 0, 0, 0,
        0, 0, 0x41,
    ];
    assert_eq!(l.on_frame(&frame), Ok(false));
    assert_eq!(l.entries.len(), 1);
    let e = &l.entries[0];
    assert_eq!(e.flags, 2);
    assert_eq!(e.timestamp, 0);
    assert_eq!(e.size, 0);
    assert_eq!(e.path, "A");
}

#[test]
fn list_dir_ends_at_entry_count() {
    let (mut l, _) = ListDir::start(b"/").unwrap();
    assert_eq!(l.on_frame(&dir_frame(0, 2, 1, 10, b"a.txt")), Ok(false));
    assert_eq!(l.on_frame(&dir_frame(1, 2, 1, 20, b"b.txt")), Ok(false));
    assert_eq!(l.on_frame(&dir_frame(2, 2, 0, 0, b"")), Ok(true));
    let names: Vec<&str> = l.entries.iter().map(|e| e.path.as_str()).collect();
    assert_eq!(names, vec!["a.txt", "b.txt", ""]);
    assert_eq!(l.entries[1].size, 20);
}

#[test]
fn list_dir_empty_marker_adds_nothing() {
    let (mut l, _) = ListDir::start(b"/empty").unwrap();
    assert_eq!(l.on_frame(&dir_frame(0, 0, 0, 0, b"")), Ok(true));
    assert!(l.entries.is_empty());
}

#[test]
fn list_dir_replaces_invalid_utf8() {
    let (mut l, _) = ListDir::start(b"/").unwrap();
    assert_eq!(l.on_frame(&dir_frame(0, 1, 0, 0, &[0x61, 0xFF, 0x62])), Ok(false));
    assert_eq!(l.entries[0].path, "a\u{FFFD}b");
}

#[test]
fn list_dir_rejects_out_of_order_entry() {
    let (mut l, _) = ListDir::start(b"/").unwrap();
    assert_eq!(l.on_frame(&dir_frame(1, 2, 0, 0, b"x")), Err(ProtocolError::EntryOutOfOrder));
    assert!(l.entries.is_empty());
}

#[test]
fn list_dir_rejects_wrong_name_length() {
    let (mut l, _) = ListDir::start(b"/").unwrap();
    let mut frame = dir_frame(0, 1, 0, 0, b"abc");
    frame.pop();
    assert_eq!(l.on_frame(&frame), Err(ProtocolError::LengthMismatch));
}

#[test]
fn read_file_500_bytes() {
    let data: Vec<u8> = (0..500u32).map(|i| (i % 251) as u8).collect();
    let (mut r, req) = ReadFile::start(b"x").unwrap();
    assert_eq!(
        req,
        vec![0x10, 0x00, 0x01, 0x00, 0, 0, 0, 0, 0xE7, 0, 0, 0, 0x78]
    );
    match r.on_frame(&chunk_frame(0, 500, &data[0..231])).unwrap() {
        ReadStep::Request(req) => {
            assert_eq!(req, vec![0x12, 0x01, 0x00, 0x00, 0xE7, 0, 0, 0, 0xE7, 0, 0, 0])
        }
        ReadStep::Done => panic!("read ended early"),
    }
    match r.on_frame(&chunk_frame(231, 500, &data[231..462])).unwrap() {
        ReadStep::Request(req) => {
            assert_eq!(req, vec![0x12, 0x01, 0x00, 0x00, 0xCE, 0x01, 0, 0, 0xE7, 0, 0, 0])
        }
        ReadStep::Done => panic!("read ended early"),
    }
    assert!(matches!(r.on_frame(&chunk_frame(462, 500, &data[462..500])).unwrap(), ReadStep::Done));
    assert_eq!(r.into_contents(), data);
}

#[test]
fn read_empty_file() {
    let (mut r, _) = ReadFile::start(b"empty").unwrap();
    assert!(matches!(r.on_frame(&chunk_frame(0, 0, &[])).unwrap(), ReadStep::Done));
    assert!(r.into_contents().is_empty());
}

#[test]
fn read_rejects_bad_status() {
    let (mut r, _) = ReadFile::start(b"x").unwrap();
    let mut frame = chunk_frame(0, 3, b"abc");
    frame[1] = 0;
    assert!(matches!(r.on_frame(&frame), Err(ProtocolError::BadStatus(0))));
    frame[1] = 0xFE;
    assert!(matches!(r.on_frame(&frame), Err(ProtocolError::BadStatus(-2))));
}

#[test]
fn read_rejects_wrong_command() {
    let (mut r, _) = ReadFile::start(b"x").unwrap();
    let mut frame = chunk_frame(0, 3, b"abc");
    frame[0] = 0x21;
    assert!(matches!(r.on_frame(&frame), Err(ProtocolError::WrongCommand(0x21))));
}

#[test]
fn read_rejects_length_mismatch() {
    let (mut r, _) = ReadFile::start(b"x").unwrap();
    let mut frame = chunk_frame(0, 3, b"abc");
    frame.pop();
    assert!(matches!(r.on_frame(&frame), Err(ProtocolError::LengthMismatch)));
}

#[test]
fn read_rejects_offset_mismatch() {
    let (mut r, _) = ReadFile::start(b"x").unwrap();
    assert!(matches!(r.on_frame(&chunk_frame(5, 10, b"abc")), Err(ProtocolError::OffsetMismatch)));
    assert_eq!(r.offset, 0);
}

#[test]
fn read_rejects_overrun() {
    let (mut r, _) = ReadFile::start(b"x").unwrap();
    assert!(matches!(r.on_frame(&chunk_frame(0, 2, b"abc")), Err(ProtocolError::Overrun)));
}

#[test]
fn read_rejects_truncated_header() {
    let (mut r, _) = ReadFile::start(b"x").unwrap();
    assert!(matches!(r.on_frame(&[0x11, 1, 0, 0, 0]), Err(ProtocolError::BadLength)));
}

#[test]
fn write_file_300_bytes() {
    let data: Vec<u8> = (0..300u32).map(|i| (i % 256) as u8).collect();
    let (mut w, req) = WriteFile::start(b"x", data.clone(), 0).unwrap();
    let mut expected = vec![0x20, 0x00, 0x01, 0x00, 0, 0, 0, 0];
    expected.extend([0u8; 8]);
    expected.extend([0x2C, 0x01, 0, 0, 0x78]);
    assert_eq!(req, expected);

    let mut chunks: Vec<Vec<u8>> = Vec::new();
    let mut receipts = 0;
    loop {
        receipts += 1;
        match w.on_receipt(&receipt_frame(0, 1000)).unwrap() {
            WriteStep::Request(req) => chunks.push(req),
            WriteStep::Done => break,
        }
    }
    assert_eq!(receipts, 3);
    assert_eq!(chunks.len(), 2);
    let mut first = vec![0x22, 0x01, 0x00, 0x00, 0, 0, 0, 0, 0xE7, 0, 0, 0];
    first.extend_from_slice(&data[0..231]);
    assert_eq!(chunks[0], first);
    let mut second = vec![0x22, 0x01, 0x00, 0x00, 0xE7, 0, 0, 0, 69, 0, 0, 0];
    second.extend_from_slice(&data[231..300]);
    assert_eq!(chunks[1], second);
}

#[test]
fn write_empty_file_sends_no_chunk() {
    let (mut w, _) = WriteFile::start(b"e", Vec::new(), 7).unwrap();
    assert!(matches!(w.on_receipt(&receipt_frame(0, 0)).unwrap(), WriteStep::Done));
}

#[test]
fn write_rejects_bad_receipt() {
    let (mut w, _) = WriteFile::start(b"x", vec![1, 2, 3], 0).unwrap();
    let mut frame = receipt_frame(0, 0);
    frame[1] = 0;
    assert!(matches!(w.on_receipt(&frame), Err(ProtocolError::BadStatus(0))));
    frame[1] = 1;
    frame.push(0);
    assert!(matches!(w.on_receipt(&frame), Err(ProtocolError::BadLength)));
    assert_eq!(w.offset, 0);
}

#[test]
fn write_start_encodes_timestamp() {
    let ts: u64 = 0x0102_0304_0506_0708;
    let (_, req) = WriteFile::start(b"ab", vec![9; 5], ts.to_u64()).unwrap();
    assert_eq!(
        req,
        vec![0x20, 0, 2, 0, 0, 0, 0, 0, 8, 7, 6, 5, 4, 3, 2, 1, 5, 0, 0, 0, 0x61, 0x62]
    );
}

#[test]
fn write_then_read_round_trip() {
    let data: Vec<u8> = (0..700u32).map(|i| (i * 7 % 256) as u8).collect();
    let (mut w, _) = WriteFile::start(b"f", data.clone(), 0).unwrap();
    let mut stored: Vec<u8> = Vec::new();
    loop {
        match w.on_receipt(&receipt_frame(stored.len() as u32, 0)).unwrap() {
            WriteStep::Request(req) => {
                assert!(req.len() - 12 <= MAX_PAYLOAD as usize);
                stored.extend_from_slice(&req[12..]);
            }
            WriteStep::Done => break,
        }
    }
    let (mut r, _) = ReadFile::start(b"f").unwrap();
    let mut offset = 0usize;
    loop {
        let end = (offset + MAX_PAYLOAD as usize).min(stored.len());
        let frame = chunk_frame(offset as u32, stored.len() as u32, &stored[offset..end]);
        match r.on_frame(&frame).unwrap() {
            ReadStep::Request(_) => offset = end,
            ReadStep::Done => break,
        }
    }
    assert_eq!(r.into_contents(), data);
}

#[test]
fn delete_file_x() {
    assert_eq!(delete_request(b"x").unwrap(), vec![0x30, 0x00, 0x01, 0x00, 0x78]);
    assert!(recv::<RmReceipt>(&[0x31, 0x01]).is_ok());
    assert!(matches!(recv::<RmReceipt>(&[0x31, 0xFF]), Err(ProtocolError::BadStatus(-1))));
}

#[test]
fn move_file_a_b() {
    assert_eq!(
        move_request(b"a", b"b").unwrap(),
        vec![0x60, 0x00, 0x01, 0x00, 0x01, 0x00, 0x61, 0x00, 0x62]
    );
    assert!(recv::<MvReceipt>(&[0x61, 0x01]).is_ok());
    assert!(matches!(recv::<MvReceipt>(&[0x31, 0x01]), Err(ProtocolError::WrongCommand(0x31))));
}

#[test]
fn create_dir_frame_and_receipt() {
    assert_eq!(
        create_dir_request(b"d", 0x1122).unwrap(),
        vec![0x40, 0, 1, 0, 0, 0, 0, 0, 0x22, 0x11, 0, 0, 0, 0, 0, 0, 0x64]
    );
    let mut frame = vec![0x41, 1, 0, 0, 0, 0, 0, 0];
    frame.extend(99u64.to_le_bytes());
    assert_eq!(recv::<MkdirReceipt>(&frame).unwrap().body.timestamp, 99);
    assert!(matches!(recv::<MkdirReceipt>(&frame[..10]), Err(ProtocolError::BadLength)));
}

#[test]
fn long_path_is_refused() {
    let long = vec![b'a'; 65536];
    assert!(matches!(delete_request(&long), Err(ArgumentError::PathTooLong)));
    assert!(matches!(move_request(b"a", &long), Err(ArgumentError::PathTooLong)));
    assert!(matches!(ListDir::start(&long), Err(ArgumentError::PathTooLong)));
    assert!(matches!(ReadFile::start(&long), Err(ArgumentError::PathTooLong)));
    assert!(matches!(WriteFile::start(&long, vec![], 0), Err(ArgumentError::PathTooLong)));
    assert!(delete_request(&long[..65535]).is_ok());
}

#[test]
fn payload_recv_splits_after_body() {
    let frame = chunk_frame(4, 9, b"hello");
    let (resp, payload) = payload_recv::<FileChunk>(&frame).unwrap();
    assert_eq!(resp.command, 0x11);
    assert_eq!(resp.status, 1);
    assert_eq!(resp.body.offset, 4);
    assert_eq!(resp.body.total_len, 9);
    assert_eq!(resp.body.current_len, 5);
    assert_eq!(payload, b"hello".to_vec());
    let entry = dir_frame(3, 4, 5, 6, b"n");
    let (raw, name) = payload_recv::<RawDirEntry>(&entry).unwrap();
    assert_eq!((raw.body.entry_number, raw.body.entry_count, raw.body.flags), (3, 4, 5));
    assert_eq!((raw.body.size, raw.body.path_len), (6, 1));
    assert_eq!(name, b"n".to_vec());
}

#[test]
fn write_receipt_fields() {
    let mut frame = vec![0x21, 1, 0, 0];
    frame.extend(le32(17));
    frame.extend(42u64.to_le_bytes());
    frame.extend(le32(1000));
    let r = recv::<WriteReceipt>(&frame).unwrap();
    assert_eq!((r.body.offset, r.body.timestamp, r.body.remaining), (17, 42, 1000));
}

#[test]
fn single_chunk_encoding() {
    assert_eq!(encode_read_continue(0x0102_0304), vec![0x12, 1, 0, 0, 4, 3, 2, 1, 0xE7, 0, 0, 0]);
    assert_eq!(encode_write_chunk(&[5, 6, 7], 1, 3), vec![0x22, 1, 0, 0, 1, 0, 0, 0, 2, 0, 0, 0, 6, 7]);
}

#[test]
fn short_failure_reply_keeps_status() {
    let (mut r, _) = ReadFile::start(b"x").unwrap();
    assert!(matches!(r.on_frame(&[0x11, 0x00]), Err(ProtocolError::BadStatus(0))));
    let (mut w, _) = WriteFile::start(b"x", vec![1], 0).unwrap();
    assert!(matches!(w.on_receipt(&[0x21, 0x00]), Err(ProtocolError::BadStatus(0))));
    assert!(matches!(recv::<RmReceipt>(&[0x31, 0xFF, 0x00]), Err(ProtocolError::BadStatus(-1))));
    assert!(matches!(recv::<RmReceipt>(&[0x31]), Err(ProtocolError::BadLength)));
    assert!(matches!(recv::<RmReceipt>(&[0x31, 0x01, 0x00]), Err(ProtocolError::BadLength)));
}

#[test]
fn read_stops_at_second_chunk_fault() {
    let data = vec![3u8; 300];
    let (mut r, _) = ReadFile::start(b"x").unwrap();
    let mut requests = 0;
    if let ReadStep::Request(_) = r.on_frame(&chunk_frame(0, 300, &data[..231])).unwrap() {
        requests += 1;
    }
    let mut bad = chunk_frame(231, 300, &data[231..]);
    bad[1] = 0;
    assert!(matches!(r.on_frame(&bad), Err(ProtocolError::BadStatus(0))));
    assert_eq!(requests, 1);
    assert_eq!(r.contents.len(), 231);
}
