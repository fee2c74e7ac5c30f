use infinitime::engine::{Engine, EngineError, InFlight, Outcome};
use infinitime::responses::ProtocolError;
use infinitime::transfer::ArgumentError;

fn entry_frame(number: u32, count: u32, name: &[u8]) -> Vec<u8> {
    let mut f = vec![0x51, 1];
    f.extend((name.len() as u16).to_le_bytes());
    f.extend(number.to_le_bytes());
    f.extend(count.to_le_bytes());
    f.extend(0u32.to_le_bytes());
    f.extend(0u64.to_le_bytes());
    f.extend(0u32.to_le_bytes());
    f.extend_from_slice(name);
    f
}

#[test]
fn second_command_is_refused_while_one_is_in_flight() {
    let mut e = Engine::new();
    let req = e.read_file(b"x").unwrap();
    assert_eq!(req[0], 0x10);
    assert!(matches!(e.list_dir(b"/"), Err(EngineError::Busy)));
    assert!(matches!(e.delete_file(b"x"), Err(EngineError::Busy)));
    assert!(matches!(e.pending, InFlight::Read(_)));
}

#[test]
fn commands_run_one_after_another() {
    let mut e = Engine::new();
    assert_eq!(e.delete_file(b"x").unwrap(), vec![0x30, 0x00, 0x01, 0x00, 0x78]);
    assert!(matches!(e.on_notification(&[0x31, 0x01]), Ok(Outcome::Complete)));
    assert!(e.is_idle());
    assert_eq!(
        e.move_file(b"a", b"b").unwrap(),
        vec![0x60, 0x00, 0x01, 0x00, 0x01, 0x00, 0x61, 0x00, 0x62]
    );
    assert!(matches!(e.on_notification(&[0x61, 0x01]), Ok(Outcome::Complete)));
    assert!(e.is_idle());
}

#[test]
fn notification_without_command_is_refused() {
    let mut e = Engine::new();
    assert!(matches!(e.on_notification(&[0x31, 0x01]), Err(EngineError::NothingPending)));
}

#[test]
fn failed_command_leaves_engine_idle() {
    let mut e = Engine::new();
    e.create_dir(b"d", 0).unwrap();
    let mut frame = vec![0x41, 0x00, 0, 0, 0, 0, 0, 0];
    frame.extend(0u64.to_le_bytes());
    assert!(matches!(
        e.on_notification(&frame),
        Err(EngineError::Protocol(ProtocolError::BadStatus(0)))
    ));
    assert!(e.is_idle());
    frame[1] = 1;
    e.create_dir(b"d", 0).unwrap();
    assert!(matches!(e.on_notification(&frame), Ok(Outcome::Complete)));
}

#[test]
fn listing_through_engine() {
    let mut e = Engine::new();
    e.list_dir(b"/").unwrap();
    assert!(matches!(e.on_notification(&entry_frame(0, 1, b"A")), Ok(Outcome::Wait)));
    match e.on_notification(&entry_frame(1, 1, b"")) {
        Ok(Outcome::Entries(es)) => {
            assert_eq!(es.len(), 2);
            assert_eq!(es[0].path, "A");
        }
        _ => panic!("listing did not end"),
    }
    assert!(e.is_idle());
}

#[test]
fn cancel_hands_back_partial_listing() {
    let mut e = Engine::new();
    e.list_dir(b"/").unwrap();
    assert!(matches!(e.on_notification(&entry_frame(0, 1, b"A")), Ok(Outcome::Wait)));
    match e.cancel() {
        InFlight::List(l) => assert_eq!(l.entries[0].path, "A"),
        _ => panic!("no listing in flight"),
    }
    assert!(e.is_idle());
}

#[test]
fn read_and_write_through_engine() {
    let mut e = Engine::new();
    let data: Vec<u8> = (0..240u32).map(|i| i as u8).collect();
    e.write_file(b"f", data.clone(), 5).unwrap();
    let mut receipt = vec![0x21, 1, 0, 0];
    receipt.extend([0u8; 16]);
    let mut sent: Vec<Vec<u8>> = Vec::new();
    loop {
        match e.on_notification(&receipt).unwrap() {
            Outcome::Send(f) => sent.push(f),
            Outcome::Complete => break,
            _ => panic!("unexpected outcome"),
        }
    }
    assert_eq!(sent.len(), 2);
    assert_eq!(sent[0].len(), 12 + 231);
    assert_eq!(sent[1].len(), 12 + 9);

    e.read_file(b"f").unwrap();
    let mut chunk = vec![0x11, 1, 0, 0];
    chunk.extend(0u32.to_le_bytes());
    chunk.extend(3u32.to_le_bytes());
    chunk.extend(3u32.to_le_bytes());
    chunk.extend([7, 8, 9]);
    match e.on_notification(&chunk) {
        Ok(Outcome::Contents(c)) => assert_eq!(c, vec![7, 8, 9]),
        _ => panic!("read did not end"),
    }
}

#[test]
fn engine_argument_errors() {
    let mut e = Engine::new();
    let long = vec![b'p'; 70000];
    assert!(matches!(
        e.create_dir(&long, 0),
        Err(EngineError::Argument(ArgumentError::PathTooLong))
    ));
    assert!(e.is_idle());
}

#[test]
fn stream_end_ends_listing_with_entries_so_far() {
    let mut e = Engine::new();
    e.list_dir(b"/").unwrap();
    assert!(matches!(e.on_notification(&entry_frame(0, 1, b"A")), Ok(Outcome::Wait)));
    match e.on_stream_end() {
        Ok(Outcome::Entries(es)) => {
            assert_eq!(es.len(), 1);
            assert_eq!(es[0].path, "A");
        }
        _ => panic!("listing did not end"),
    }
    assert!(e.is_idle());
}

#[test]
fn stream_end_fails_other_commands() {
    let mut e = Engine::new();
    e.read_file(b"x").unwrap();
    assert!(matches!(e.on_stream_end(), Err(EngineError::Disconnected)));
    assert!(e.is_idle());
    assert!(matches!(e.on_stream_end(), Err(EngineError::NothingPending)));
}
