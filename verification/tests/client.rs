//! Scenario checks for the client layer: the handshake, the framed
//! message codec, the multiplexer's id assignment and dispatch, and
//! the file and directory cursors.

use rusftp::client::dir::{Dir, DirStep, ReadDirAll, ReadDirStep};
use rusftp::client::error::{Error, IoErrorKind};
use rusftp::client::file::{File, SeekFrom, MAX_DATA_LEN};
use rusftp::client::handshake::{check_version_reply, init_message};
use rusftp::client::receiver::{DispatchOutcome, FrameBuffer, Receiver};
use rusftp::client::reply::{extract_path_from_name_message, unit_from_reply_message};
use rusftp::message::attrs::{Attrs, Owner, Time};
use rusftp::message::frame::Message;
use rusftp::message::name::{Name, NameEntry};
use rusftp::message::path::Path;
use rusftp::message::requests::{Data, Handle, Stat};
use rusftp::message::status::{Status, StatusCode};
use rusftp::message::version::Version;

fn ok_status() -> Status {
    Status {
        code: StatusCode::Okay,
        error: Vec::new(),
        language: Vec::new(),
    }
}

fn eof_status() -> Status {
    Status {
        code: StatusCode::Eof,
        error: b"eof".to_vec(),
        language: b"en".to_vec(),
    }
}

fn entry(name: &str) -> NameEntry {
    NameEntry {
        filename: Path(name.to_string()),
        long_name: name.as_bytes().to_vec(),
        attrs: Attrs::new(),
    }
}

/// Version handshake: the greeting is the five-byte Init frame naming
/// revision 3, and the matching Version answer establishes the
/// session.
#[test]
fn handshake_golden_frames() {
    let frame = init_message().encode(3).expect("encode should succeed");
    assert_eq!(frame.as_slice(), b"\0\0\0\x05\x01\0\0\0\x03");

    let reply: &[u8] = b"\x02\0\0\0\x03";
    let (id, msg) = Message::decode_raw(reply).expect("decode should succeed");
    assert_eq!(id, 3);
    assert!(check_version_reply(&msg).is_ok());

    let wrong = Message::Version(Version {
        version: 2,
        extensions: Vec::new(),
    });
    let err = check_version_reply(&wrong).unwrap_err();
    match err {
        Error::Sftp(s) => {
            assert_eq!(s.code, StatusCode::BadMessage);
            assert_eq!(s.error, b"Invalid sftp version".to_vec());
        }
        other => panic!("unexpected error: {:?}", other),
    }

    let not_version = Message::Status(ok_status());
    let err = check_version_reply(&not_version).unwrap_err();
    match err {
        Error::Sftp(s) => {
            assert_eq!(s.code, StatusCode::BadMessage);
            assert_eq!(s.error, b"Bad SFTP init".to_vec());
        }
        other => panic!("unexpected error: {:?}", other),
    }
}

/// Stat a path: the frame is `len=0x0B, type=Stat, id=1, path="/a"`,
/// and an Attrs reply with only a size decodes to that sparse record.
#[test]
fn stat_request_golden_frame() {
    let msg = Message::Stat(Stat {
        path: Path("/a".to_string()),
    });
    let frame = msg.encode(1).expect("encode should succeed");
    assert_eq!(frame.as_slice(), b"\0\0\0\x0b\x11\0\0\0\x01\0\0\0\x02/a");

    let reply: &[u8] = b"\x69\0\0\0\x01\0\0\0\x01\0\0\0\0\0\0\0\x2a";
    let (id, reply_msg) = Message::decode_raw(reply).expect("decode should succeed");
    assert_eq!(id, 1);
    assert_eq!(
        reply_msg,
        Message::Attrs(Attrs {
            size: Some(42),
            ..Attrs::new()
        })
    );
}

/// Codec round trip at the frame level for a sample of catalogue
/// variants.
#[test]
fn frame_round_trip() {
    let messages = vec![
        init_message(),
        Message::Version(Version {
            version: 3,
            extensions: vec![(b"k".to_vec(), b"v".to_vec())],
        }),
        Message::Stat(Stat {
            path: Path("/a/b".to_string()),
        }),
        Message::Handle(Handle(b"H".to_vec())),
        Message::Data(Data(b"payload".to_vec())),
        Message::Status(eof_status()),
        Message::Name(Name(vec![entry("a"), entry("b")])),
        Message::Attrs(Attrs {
            size: Some(7),
            owner: Some(Owner { uid: 1, gid: 2 }),
            perms: Some(0o755),
            time: Some(Time {
                atime: 3,
                mtime: 4,
            }),
        }),
    ];
    for msg in messages {
        let frame = msg.encode(9).expect("encode should succeed");
        let (_, decoded) = Message::decode_raw(&frame[4..]).expect("decode should succeed");
        assert_eq!(decoded, msg);
    }
}

/// Frame truncation: every proper prefix of a golden frame fails with
/// a not-enough-data error once the stream would supply it.
#[test]
fn frame_truncation() {
    let msg = Message::Stat(Stat {
        path: Path("/a".to_string()),
    });
    let frame = msg.encode(1).expect("encode should succeed");
    for i in 0..frame.len() {
        let mut fb = FrameBuffer::new();
        fb.push(&frame[..i]);
        assert!(fb.next_frame().is_none());
    }
    // The payload itself, cut anywhere, fails the decoder.
    for i in 5..frame.len() {
        assert!(Message::decode_raw(&frame[4..i]).is_err());
    }
}

/// The framer cuts the stream into whole frames however the bytes
/// arrive.
#[test]
fn frame_buffer_reassembles_split_input() {
    let first = Message::Handle(Handle(b"one".to_vec()))
        .encode(1)
        .expect("encode should succeed");
    let second = Message::Status(ok_status())
        .encode(2)
        .expect("encode should succeed");
    let mut stream = Vec::new();
    stream.extend_from_slice(&first);
    stream.extend_from_slice(&second);

    let mut fb = FrameBuffer::new();
    for chunk in stream.chunks(3) {
        fb.push(chunk);
    }
    let f1 = fb.next_frame().expect("first frame should be whole");
    assert_eq!(f1.as_slice(), &first[4..]);
    let f2 = fb.next_frame().expect("second frame should be whole");
    assert_eq!(f2.as_slice(), &second[4..]);
    assert!(fb.next_frame().is_none());
}

/// Request identity: in a session that issues N requests before any
/// reply arrives, the ids written to the wire are exactly 1..=N in
/// order.
#[test]
fn request_ids_are_consecutive() {
    let mut receiver: Receiver<u32> = Receiver::new();
    for expected in 1u32..=5 {
        let (id, frame) = receiver
            .prepare(&Message::Stat(Stat {
                path: Path("/".to_string()),
            }))
            .expect("prepare should succeed");
        assert_eq!(id, expected);
        // The id slot of the emitted frame carries the same id.
        assert_eq!(&frame[5..9], id.to_be_bytes().as_slice());
        receiver.register(id, id);
    }
}

/// Dispatch: replies arriving in reverse order each reach their own
/// waiter.
#[test]
fn dispatch_out_of_order() {
    let mut receiver: Receiver<&str> = Receiver::new();
    let (id1, _) = receiver
        .prepare(&Message::Stat(Stat {
            path: Path("/a".to_string()),
        }))
        .expect("prepare should succeed");
    let (id2, _) = receiver
        .prepare(&Message::Stat(Stat {
            path: Path("/b".to_string()),
        }))
        .expect("prepare should succeed");
    receiver.register(id1, "first waiter");
    receiver.register(id2, "second waiter");

    let reply2 = Message::Status(ok_status()).encode(id2).unwrap();
    let reply1 = Message::Status(eof_status()).encode(id1).unwrap();

    match receiver.dispatch(&reply2[4..]) {
        DispatchOutcome::Reply(sink, Message::Status(s)) => {
            assert_eq!(sink, "second waiter");
            assert_eq!(s.code, StatusCode::Okay);
        }
        other => panic!("unexpected outcome: {:?}", outcome_name(&other)),
    }
    match receiver.dispatch(&reply1[4..]) {
        DispatchOutcome::Reply(sink, Message::Status(s)) => {
            assert_eq!(sink, "first waiter");
            assert_eq!(s.code, StatusCode::Eof);
        }
        other => panic!("unexpected outcome: {:?}", outcome_name(&other)),
    }
}

fn outcome_name<T>(o: &DispatchOutcome<T>) -> &'static str {
    match o {
        DispatchOutcome::Reply(..) => "Reply",
        DispatchOutcome::Fail(..) => "Fail",
        DispatchOutcome::Discard => "Discard",
    }
}

/// Bad reply id: a frame whose id is unknown is dropped; other
/// in-flight waiters are unaffected.
#[test]
fn unknown_reply_id_is_discarded() {
    let mut receiver: Receiver<&str> = Receiver::new();
    let (id, _) = receiver
        .prepare(&Message::Stat(Stat {
            path: Path("/a".to_string()),
        }))
        .expect("prepare should succeed");
    receiver.register(id, "waiter");

    let stray = Message::Status(ok_status()).encode(id + 7).unwrap();
    match receiver.dispatch(&stray[4..]) {
        DispatchOutcome::Discard => {}
        other => panic!("unexpected outcome: {:?}", outcome_name(&other)),
    }

    // The real reply still reaches its waiter.
    let reply = Message::Status(ok_status()).encode(id).unwrap();
    match receiver.dispatch(&reply[4..]) {
        DispatchOutcome::Reply(sink, _) => assert_eq!(sink, "waiter"),
        other => panic!("unexpected outcome: {:?}", outcome_name(&other)),
    }
}

/// Cancellation: an abandoned request keeps its slot, so its id is not
/// reused, and the eventual reply is handed out exactly once — a
/// second frame with the same id is discarded without effect on other
/// waiters.
#[test]
fn abandoned_request_reply_is_discarded() {
    let mut receiver: Receiver<&str> = Receiver::new();
    let (id1, _) = receiver.prepare(&init_message()).expect("prepare");
    receiver.register(id1, "abandoned");
    let (id2, _) = receiver.prepare(&init_message()).expect("prepare");
    receiver.register(id2, "alive");
    assert_ne!(id1, id2);

    let reply = Message::Status(ok_status()).encode(id1).unwrap();
    // The reply to the abandoned request still comes out once (the
    // surrounding loop finds its one-shot channel closed and drops it).
    match receiver.dispatch(&reply[4..]) {
        DispatchOutcome::Reply(sink, _) => assert_eq!(sink, "abandoned"),
        other => panic!("unexpected outcome: {:?}", outcome_name(&other)),
    }
    // A duplicate is discarded, and the other waiter is unaffected.
    match receiver.dispatch(&reply[4..]) {
        DispatchOutcome::Discard => {}
        other => panic!("unexpected outcome: {:?}", outcome_name(&other)),
    }
    let reply2 = Message::Status(ok_status()).encode(id2).unwrap();
    match receiver.dispatch(&reply2[4..]) {
        DispatchOutcome::Reply(sink, _) => assert_eq!(sink, "alive"),
        other => panic!("unexpected outcome: {:?}", outcome_name(&other)),
    }
}

/// A decode failure carrying a known id is delivered to that waiter.
#[test]
fn decode_failure_reaches_its_waiter() {
    let mut receiver: Receiver<&str> = Receiver::new();
    let (id, _) = receiver.prepare(&init_message()).expect("prepare");
    receiver.register(id, "waiter");

    // type=Attrs, the right id, then a truncated attrs record.
    let mut bad = vec![105u8];
    bad.extend_from_slice(&id.to_be_bytes());
    bad.extend_from_slice(b"\0\0");
    match receiver.dispatch(&bad) {
        DispatchOutcome::Fail(sink, Error::WireFormat(w)) => {
            assert_eq!(sink, "waiter");
            assert_eq!(w, rusftp::wire::WireFormatError::NotEnoughData);
        }
        other => panic!("unexpected outcome: {:?}", outcome_name(&other)),
    }
}

/// All in-flight requests fail together when the stream dies.
#[test]
fn drain_hands_back_every_waiter() {
    let mut receiver: Receiver<&str> = Receiver::new();
    let (id1, _) = receiver.prepare(&init_message()).expect("prepare");
    receiver.register(id1, "a");
    let (id2, _) = receiver.prepare(&init_message()).expect("prepare");
    receiver.register(id2, "b");
    let mut drained = receiver.drain();
    drained.sort();
    assert_eq!(drained, vec![(id1, "a"), (id2, "b")]);
    let reply = Message::Status(ok_status()).encode(id1).unwrap();
    match receiver.dispatch(&reply[4..]) {
        DispatchOutcome::Discard => {}
        other => panic!("unexpected outcome: {:?}", outcome_name(&other)),
    }
}

/// Write chunking: a 48 KiB write is emitted as two frames of 32 KiB
/// and 16 KiB at offsets 0 and 32768, and the offset ends at 49152.
#[test]
fn write_chunking() {
    let payload = vec![0xabu8; 49152];
    let mut file = File::new(Handle(b"H".to_vec()));

    let first = file.start_write(&payload).expect("start should succeed");
    assert_eq!(first.offset, 0);
    assert_eq!(first.data.0.len(), MAX_DATA_LEN);
    assert_eq!(first.data.0.as_slice(), &payload[..32768]);
    let written = file.finish_write(Ok(())).expect("finish should succeed");
    assert_eq!(written, 32768);

    let second = file
        .start_write(&payload[written..])
        .expect("start should succeed");
    assert_eq!(second.offset, 32768);
    assert_eq!(second.data.0.len(), 16384);
    let written = file.finish_write(Ok(())).expect("finish should succeed");
    assert_eq!(written, 16384);

    let probe = file.start_read(1).expect("cursor should be idle");
    assert_eq!(probe.offset, 49152);
}

/// Seek from end: with a reported size of 100, a displacement of -10
/// lands on 90, and a displacement of -200 is invalid data.
#[test]
fn seek_from_end() {
    let mut file = File::new(Handle(b"H".to_vec()));
    let fstat = file
        .start_seek(SeekFrom::End(-10))
        .expect("seek should start")
        .expect("an end-relative seek issues a stat request");
    assert_eq!(fstat.handle.0, b"H".to_vec());
    let sized = Attrs {
        size: Some(100),
        ..Attrs::new()
    };
    assert_eq!(file.finish_seek(Ok(sized)), Ok(90));

    let _ = file
        .start_seek(SeekFrom::End(-200))
        .expect("seek should start");
    match file.finish_seek(Ok(sized)).unwrap_err() {
        Error::Io(kind, _) => assert_eq!(kind, IoErrorKind::InvalidData),
        other => panic!("unexpected error: {:?}", other),
    }
    // The failed seek left the offset at 90.
    let probe = file.start_read(1).expect("cursor should be idle");
    assert_eq!(probe.offset, 90);
}

/// A seek without a size in the stat reply is unsupported, and a seek
/// while an operation is pending would block.
#[test]
fn seek_edge_cases() {
    let mut file = File::new(Handle(b"H".to_vec()));
    let _ = file.start_seek(SeekFrom::End(-1)).expect("seek should start");
    match file.finish_seek(Ok(Attrs::new())).unwrap_err() {
        Error::Io(kind, _) => assert_eq!(kind, IoErrorKind::Unsupported),
        other => panic!("unexpected error: {:?}", other),
    }

    let _ = file.start_read(8).expect("cursor should be idle");
    match file.start_seek(SeekFrom::Start(0)).unwrap_err() {
        Error::Io(kind, _) => assert_eq!(kind, IoErrorKind::WouldBlock),
        other => panic!("unexpected error: {:?}", other),
    }
    let _ = file.finish_read(Ok(Data(Vec::new())));

    assert_eq!(file.start_seek(SeekFrom::Start(7)), Ok(None));
    assert_eq!(file.start_seek(SeekFrom::Current(-7)), Ok(None));
    match file.start_seek(SeekFrom::Current(-1)).unwrap_err() {
        Error::Io(kind, _) => assert_eq!(kind, IoErrorKind::InvalidData),
        other => panic!("unexpected error: {:?}", other),
    }
}

/// File EOF: a read whose reply is the end-of-file status surfaces as
/// a zero-byte read, not as an error.
#[test]
fn read_eof_is_zero_byte_read() {
    let mut file = File::new(Handle(b"H".to_vec()));
    let request = file.start_read(100).expect("start should succeed");
    assert_eq!(request.length, 100);
    let out = file
        .finish_read(Err(Error::Sftp(eof_status())))
        .expect("eof is not an error");
    assert_eq!(out.0.len(), 0);

    // A data reply advances the offset by its length.
    let request = file.start_read(100000).expect("cursor should be idle");
    assert_eq!(request.length, MAX_DATA_LEN as u32);
    let out = file
        .finish_read(Ok(Data(b"abc".to_vec())))
        .expect("data is not an error");
    assert_eq!(out.0, b"abc".to_vec());
    let probe = file.start_read(1).expect("cursor should be idle");
    assert_eq!(probe.offset, 3);
}

/// Closing a file is idempotent: the close request is built once, and
/// a second close completes immediately.
#[test]
fn file_close_is_idempotent() {
    let mut file = File::new(Handle(b"H".to_vec()));
    let close = file.start_close().expect("first close builds the request");
    assert_eq!(close.handle.0, b"H".to_vec());
    assert!(file.start_close().is_none());
    assert!(file.is_closed());
    match file.start_read(1).unwrap_err() {
        Error::Io(kind, _) => assert_eq!(kind, IoErrorKind::BrokenPipe),
        other => panic!("unexpected error: {:?}", other),
    }
}

/// Directory iteration: batches `[a,b,c]` and `[d,e]` followed by the
/// end-of-file status yield `a,b,c,d,e` and then terminate.
#[test]
fn dir_iteration_order() {
    let mut dir = Dir::new(Handle(b"D".to_vec()));
    let mut seen = Vec::new();
    let batches = vec![
        Ok(Name(vec![entry("a"), entry("b"), entry("c")])),
        Ok(Name(vec![entry("d"), entry("e")])),
        Err(Error::Sftp(eof_status())),
    ];
    let mut batches = batches.into_iter();
    loop {
        match dir.next_step() {
            DirStep::Entry(e) => seen.push(e.filename.0),
            DirStep::Fetch(_) => match dir.on_batch(batches.next().expect("a batch is scripted")) {
                Some(Ok(e)) => seen.push(e.filename.0),
                Some(Err(e)) => panic!("unexpected error: {:?}", e),
                None => break,
            },
            DirStep::Terminated => break,
            DirStep::Failed(e) => panic!("unexpected error: {:?}", e),
        }
    }
    assert_eq!(seen, vec!["a", "b", "c", "d", "e"]);
}

/// An empty batch with a successful status is a protocol violation
/// surfaced as a single unexpected-end-of-file error item.
#[test]
fn dir_empty_batch_is_unexpected_eof() {
    let mut dir = Dir::new(Handle(b"D".to_vec()));
    match dir.next_step() {
        DirStep::Fetch(_) => {}
        _ => panic!("an empty buffer fetches a batch"),
    }
    match dir.on_batch(Ok(Name(Vec::new()))) {
        Some(Err(Error::Io(kind, _))) => assert_eq!(kind, IoErrorKind::UnexpectedEof),
        other => panic!("unexpected outcome: {:?}", other.is_some()),
    }
    match dir.next_step() {
        DirStep::Terminated => {}
        _ => panic!("the sequence terminates after the error"),
    }
}

/// A closed directory yields one broken-pipe error and then
/// terminates.
#[test]
fn dir_closed_while_iterating() {
    let mut dir = Dir::new(Handle(b"D".to_vec()));
    let close = dir.close().expect("close builds the request");
    assert_eq!(close.handle.0, b"D".to_vec());
    match dir.next_step() {
        DirStep::Terminated => {}
        _ => panic!("a closed cursor has terminated"),
    }

    let mut half_open = Dir::new_closed();
    match half_open.next_step() {
        DirStep::Terminated => {}
        _ => panic!("a cursor born closed has terminated"),
    }
}

/// readdir composite: two batches `[n1,n2]` and `[n3]`, then the
/// end-of-file status; the result is `[n1,n2,n3]` and the handle is
/// closed.
#[test]
fn readdir_composite() {
    let mut all = ReadDirAll::new();
    match all.on_batch(Ok(Name(vec![entry("n1"), entry("n2")]))) {
        ReadDirStep::Continue => {}
        _ => panic!("a batch continues the listing"),
    }
    match all.on_batch(Ok(Name(vec![entry("n3")]))) {
        ReadDirStep::Continue => {}
        _ => panic!("a batch continues the listing"),
    }
    match all.on_batch(Err(Error::Sftp(eof_status()))) {
        ReadDirStep::CloseThenFinish => {}
        _ => panic!("the end-of-file status finishes the listing"),
    }
    let names: Vec<String> = all
        .into_entries()
        .0
        .into_iter()
        .map(|e| e.filename.0)
        .collect();
    assert_eq!(names, vec!["n1", "n2", "n3"]);
}

/// A failing batch aborts the listing with the original error, after a
/// best-effort close.
#[test]
fn readdir_composite_error() {
    let mut all = ReadDirAll::new();
    let denied = Status {
        code: StatusCode::PermissionDenied,
        error: Vec::new(),
        language: Vec::new(),
    };
    match all.on_batch(Err(Error::Sftp(denied.clone()))) {
        ReadDirStep::CloseThenFail(Error::Sftp(s)) => assert_eq!(s, denied),
        _ => panic!("a failing batch aborts the listing"),
    }
}

/// Reply narrowing: the expected variant passes through, an error
/// status is surfaced verbatim, and anything else — including a
/// successful status where a payload was expected — is a bad message.
#[test]
fn reply_narrowing() {
    let attrs = Attrs {
        size: Some(1),
        ..Attrs::new()
    };
    assert_eq!(Attrs::from_reply_message(Message::Attrs(attrs)), Ok(attrs));

    match Attrs::from_reply_message(Message::Status(eof_status())).unwrap_err() {
        Error::Sftp(s) => assert_eq!(s, eof_status()),
        other => panic!("unexpected error: {:?}", other),
    }

    match Attrs::from_reply_message(Message::Status(ok_status())).unwrap_err() {
        Error::Sftp(s) => assert_eq!(s.code, StatusCode::BadMessage),
        other => panic!("unexpected error: {:?}", other),
    }

    assert!(unit_from_reply_message(Message::Status(ok_status())).is_ok());
    match unit_from_reply_message(Message::Handle(Handle(Vec::new()))).unwrap_err() {
        Error::Sftp(s) => assert_eq!(s.code, StatusCode::BadMessage),
        other => panic!("unexpected error: {:?}", other),
    }
}

/// Path extraction from a listing reply: exactly one entry yields its
/// path; zero or several entries are protocol violations.
#[test]
fn extract_single_path() {
    let one = Message::Name(Name(vec![entry("/tmp")]));
    assert_eq!(
        extract_path_from_name_message(one),
        Ok(Path("/tmp".to_string()))
    );

    let none = Message::Name(Name(Vec::new()));
    match extract_path_from_name_message(none).unwrap_err() {
        Error::Sftp(s) => {
            assert_eq!(s.code, StatusCode::BadMessage);
            assert_eq!(s.error, b"No entry".to_vec());
        }
        other => panic!("unexpected error: {:?}", other),
    }

    let two = Message::Name(Name(vec![entry("a"), entry("b")]));
    match extract_path_from_name_message(two).unwrap_err() {
        Error::Sftp(s) => {
            assert_eq!(s.code, StatusCode::BadMessage);
            assert_eq!(s.error, b"Multiple entries".to_vec());
        }
        other => panic!("unexpected error: {:?}", other),
    }
}

/// The portable category of each status code.
#[test]
fn status_code_io_kinds() {
    let cases = [
        (StatusCode::Okay, IoErrorKind::Other),
        (StatusCode::Eof, IoErrorKind::UnexpectedEof),
        (StatusCode::NoSuchFile, IoErrorKind::NotFound),
        (StatusCode::PermissionDenied, IoErrorKind::PermissionDenied),
        (StatusCode::Failure, IoErrorKind::Other),
        (StatusCode::BadMessage, IoErrorKind::InvalidData),
        (StatusCode::NoConnection, IoErrorKind::Other),
        (StatusCode::ConnectionLost, IoErrorKind::Other),
        (StatusCode::OpUnsupported, IoErrorKind::Unsupported),
    ];
    for (code, kind) in cases {
        assert_eq!(code.io_kind(), kind);
    }
}

/// A status built from a code alone carries the code's label and the
/// `en` language tag; a supplied message is kept.
#[test]
fn to_status_defaults() {
    let s = StatusCode::Eof.to_status("");
    assert_eq!(s.code, StatusCode::Eof);
    assert_eq!(s.error, b"Eof".to_vec());
    assert_eq!(s.language, b"en".to_vec());

    let s = StatusCode::Failure.to_status("boom");
    assert_eq!(s.error, b"boom".to_vec());

    assert!(StatusCode::Okay.to_status("").is_ok());
    assert!(!StatusCode::Okay.to_status("").is_err());
    assert_eq!(StatusCode::Eof.to_status("").to_result(7u32).unwrap_err().code, StatusCode::Eof);
    assert_eq!(StatusCode::Okay.to_status("").to_result(7u32), Ok(7));
}

/// The attribute flag mask names exactly the present fields.
#[test]
fn attr_flags_match_presence() {
    let a = Attrs {
        owner: Some(Owner { uid: 1, gid: 2 }),
        time: Some(Time { atime: 3, mtime: 4 }),
        ..Attrs::new()
    };
    let mut buf = Vec::new();
    a.encode(&mut buf);
    assert_eq!(&buf[..4], b"\0\0\0\x0a");
}

/// A status message is never sent to the server: an error status comes
/// straight back, and a successful one is itself a protocol violation.
#[test]
fn status_requests_are_rejected() {
    match rusftp::client::reply::validate_request(Message::Status(eof_status())).unwrap_err() {
        Error::Sftp(s) => assert_eq!(s, eof_status()),
        other => panic!("unexpected error: {:?}", other),
    }
    match rusftp::client::reply::validate_request(Message::Status(ok_status())).unwrap_err() {
        Error::Sftp(s) => {
            assert_eq!(s.code, StatusCode::BadMessage);
            assert_eq!(
                s.error,
                b"Tried to send an OK status message to the server".to_vec()
            );
        }
        other => panic!("unexpected error: {:?}", other),
    }
    let through = rusftp::client::reply::validate_request(init_message()).unwrap();
    assert_eq!(through, init_message());
}
