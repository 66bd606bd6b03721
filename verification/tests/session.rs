use editr::error::EditorError;
use editr::file_states::FileStates;
use editr::message::{
    CloseResult, GetCursorsResult, IoRequest, Message, MoveCursorResult, ProcessOutcome,
    ReadReqData, ReadResult, RemoveAtCursorReqData, RemoveAtCursorResult, UpdateAdd, UpdateData,
    WriteAtCursorReqData, WriteAtCursorResult, WriteReqData, WriteResult,
};
use editr::session::{path_within_home, prepend_home, Session};

const HOME: &str = "/home/alice";

fn session(id: u64) -> Session {
    Session::new(id, HOME.to_string(), None)
}

fn open(s: &mut Session, files: &mut FileStates, path: &str, contents: &[u8]) {
    let canonical = path.to_string();
    let needs_load = s.open_begin(files, &canonical).unwrap();
    let loaded = if needs_load { contents.to_vec() } else { Vec::new() };
    s.open_finish(files, canonical, loaded).unwrap();
}

#[test]
fn session_sandbox_rejects_escaping_paths() {
    // P11: a path that resolves outside the canonical home is rejected with
    // "Invalid file path" and nothing is created.
    let mut files = FileStates::new();
    let mut s1 = session(1);
    let escaped = "/etc/passwd".to_string(); // what /home/../etc/passwd resolves to
    let r = s1.open_begin(&mut files, &escaped);
    assert_eq!(r, Err(EditorError::PathEscape));
    assert_eq!(
        EditorError::PathEscape.message(),
        "Invalid file path".to_string()
    );
    assert_eq!(s1.open_finish(&mut files, escaped.clone(), Vec::new()),
        Err(EditorError::PathEscape));
    assert!(!files.contains(&escaped));
    // the home directory itself is not a strict prefix of itself
    assert_eq!(s1.open_begin(&mut files, &HOME.to_string()),
        Err(EditorError::PathEscape));
}

#[test]
fn session_sandbox_decisions() {
    let home = HOME.to_string();
    assert!(path_within_home(&"/home/alice/f.txt".to_string(), &home));
    assert!(path_within_home(&"/home/alice/d/f".to_string(), &home));
    assert!(!path_within_home(&"/home/alicex/f".to_string(), &home));
    assert!(!path_within_home(&"/home/alice".to_string(), &home));
    assert!(!path_within_home(&"/etc/passwd".to_string(), &home));
    // a home given with a trailing slash still accepts its children
    assert!(path_within_home(
        &"/home/alice/f".to_string(),
        &"/home/alice/".to_string()
    ));
}

#[test]
fn session_prepend_home_resolution() {
    let home = HOME.to_string();
    assert_eq!(prepend_home(&home, &"f.txt".to_string()), "/home/alice/f.txt");
    // an absolute user path replaces the home, as the operating system would
    assert_eq!(
        prepend_home(&home, &"/home/../etc/passwd".to_string()),
        "/home/../etc/passwd"
    );
}

#[test]
fn session_broadcast_reaches_exactly_the_peers() {
    // P4 and P9: S1 and S2 have F open, S3 has G open. S1 writes "ABC" at 0:
    // exactly one Add{0, "ABC"} envelope is owed to S2, none to S1 or S3.
    let mut files = FileStates::new();
    let mut s1 = session(1);
    let mut s2 = session(2);
    let mut s3 = session(3);
    open(&mut s1, &mut files, "/home/alice/f.txt", b"");
    open(&mut s2, &mut files, "/home/alice/f.txt", b"");
    open(&mut s3, &mut files, "/home/alice/g.txt", b"");
    let b = s1.file_write(&mut files, 0, b"ABC").unwrap();
    assert_eq!(b.targets, vec![2]);
    assert_eq!(
        b.update,
        Message::UpdateMessage(UpdateData::Add(UpdateAdd {
            offset: 0,
            data: b"ABC".to_vec(),
        }))
    );
    // S2 then reads {0,3} and sees "ABC"
    assert_eq!(s2.file_read(&files, 0, 3).unwrap(), b"ABC".to_vec());
    // a mutation on G fans out to nobody
    let bg = s3.file_write(&mut files, 0, b"zzz").unwrap();
    assert_eq!(bg.targets, Vec::<u64>::new());
}

#[test]
fn session_save_hands_back_exact_bytes() {
    // P7 and P12: the bytes handed out for persisting equal the rope's
    // current contents; after the session disconnects the file is evicted.
    let mut files = FileStates::new();
    let mut s1 = session(1);
    open(&mut s1, &mut files, "/home/alice/note.txt", b"draft");
    s1.file_write(&mut files, 5, b" one").unwrap();
    let (path, bytes) = s1.file_save(&mut files).unwrap();
    assert_eq!(path, "/home/alice/note.txt");
    assert_eq!(bytes, b"draft one".to_vec());
    assert_eq!(bytes, s1.file_read(&files, 0, 9).unwrap());
    s1.file_close(&mut files).unwrap();
    assert!(!files.contains(&"/home/alice/note.txt".to_string())); // P6
}

#[test]
fn session_delete_of_open_file_is_busy() {
    // P13: deleting a file someone has open is refused with "File is busy".
    let mut files = FileStates::new();
    let mut s1 = session(1);
    let mut s2 = session(2);
    open(&mut s2, &mut files, "/home/alice/open.txt", b"keep me");
    let r = s1.check_delete(&files, &"/home/alice/open.txt".to_string());
    assert_eq!(r, Err(EditorError::Busy));
    assert_eq!(EditorError::Busy.message(), "File is busy".to_string());
    // a closed file may be deleted
    s2.file_close(&mut files).unwrap();
    assert_eq!(
        s1.check_delete(&files, &"/home/alice/open.txt".to_string()),
        Ok(())
    );
    // but never one outside the home
    assert_eq!(
        s1.check_delete(&files, &"/etc/passwd".to_string()),
        Err(EditorError::PathEscape)
    );
}

#[test]
fn session_rename_checks() {
    let mut files = FileStates::new();
    let mut s1 = session(1);
    let from = "/home/alice/a.txt".to_string();
    let to = "/home/alice/b.txt".to_string();
    assert_eq!(s1.check_rename(&files, &from, &to, true),
        Err(EditorError::AlreadyExists));
    assert_eq!(
        EditorError::AlreadyExists.message(),
        "File already exists".to_string()
    );
    open(&mut s1, &mut files, "/home/alice/a.txt", b"");
    assert_eq!(s1.check_rename(&files, &from, &to, false), Err(EditorError::Busy));
    s1.file_close(&mut files).unwrap();
    assert_eq!(s1.check_rename(&files, &from, &to, false), Ok(()));
    assert_eq!(
        s1.check_rename(&files, &"/etc/a".to_string(), &to, false),
        Err(EditorError::PathEscape)
    );
}

#[test]
fn session_create_check() {
    let s1 = session(1);
    assert_eq!(s1.check_create(&"/home/alice/new.txt".to_string()), Ok(()));
    assert_eq!(
        s1.check_create(&"/home/bob/new.txt".to_string()),
        Err(EditorError::PathEscape)
    );
}

#[test]
fn session_errors_without_open_file() {
    let mut files = FileStates::new();
    let s1 = session(1);
    assert_eq!(s1.file_read(&files, 0, 0), Err(EditorError::NotOpen));
    assert!(s1.file_write(&mut files, 0, b"x").is_err());
    assert!(s1.file_save(&mut files).is_err());
    assert_eq!(EditorError::NotOpen.message(), "File not open".to_string());
}

#[test]
fn process_echo_and_invalid() {
    let mut files = FileStates::new();
    let mut s1 = session(1);
    match Message::Echo(b"ping".to_vec()).process(&mut s1, &mut files) {
        ProcessOutcome::Reply(Message::Echo(data), false) => {
            assert_eq!(data, b"ping".to_vec())
        }
        _ => panic!("echo must reply with the same bytes"),
    }
    // a response message is no request: the session is told to exit
    match Message::CloseResp(CloseResult::Okay).process(&mut s1, &mut files) {
        ProcessOutcome::Reply(Message::Invalid, true) => {}
        _ => panic!("non-requests must end the session"),
    }
}

#[test]
fn process_write_and_read() {
    let mut files = FileStates::new();
    let mut s1 = session(1);
    open(&mut s1, &mut files, "/home/alice/f.txt", b"");
    let req = Message::WriteReq(WriteReqData { offset: 0, data: b"hi".to_vec() });
    match req.process(&mut s1, &mut files) {
        ProcessOutcome::ReplyBroadcast(Message::WriteResp(WriteResult::Okay), b) => {
            assert_eq!(b.targets, Vec::<u64>::new());
        }
        _ => panic!("in-range write must succeed with a broadcast"),
    }
    let req = Message::ReadReq(ReadReqData { offset: 0, len: 2 });
    match req.process(&mut s1, &mut files) {
        ProcessOutcome::Reply(Message::ReadResp(ReadResult::Okay(data)), false) => {
            assert_eq!(data, b"hi".to_vec())
        }
        _ => panic!("in-range read must succeed"),
    }
    // out of range: the error carries the wire string
    let req = Message::ReadReq(ReadReqData { offset: 1, len: 5 });
    match req.process(&mut s1, &mut files) {
        ProcessOutcome::Reply(Message::ReadResp(ReadResult::Error(e)), false) => {
            assert_eq!(e, "Out of range".to_string())
        }
        _ => panic!("an out-of-range read must fail"),
    }
}

#[test]
fn process_close_and_save() {
    let mut files = FileStates::new();
    let mut s1 = session(1);
    open(&mut s1, &mut files, "/home/alice/f.txt", b"data");
    match Message::SaveReq.process(&mut s1, &mut files) {
        ProcessOutcome::Io(IoRequest::Store(path, bytes)) => {
            assert_eq!(path, "/home/alice/f.txt");
            assert_eq!(bytes, b"data".to_vec());
        }
        _ => panic!("a save with an open file must hand out the bytes"),
    }
    match Message::CloseReq.process(&mut s1, &mut files) {
        ProcessOutcome::Reply(Message::CloseResp(CloseResult::Okay), false) => {}
        _ => panic!("close must succeed"),
    }
    assert!(!files.contains(&"/home/alice/f.txt".to_string()));
}

#[test]
fn process_routes_filesystem_requests() {
    let mut files = FileStates::new();
    let mut s1 = session(1);
    match Message::CreateReq("n.txt".to_string()).process(&mut s1, &mut files) {
        ProcessOutcome::Io(IoRequest::Create(name)) => assert_eq!(name, "n.txt"),
        _ => panic!("create must be routed to the filesystem"),
    }
    match Message::FilesListReq.process(&mut s1, &mut files) {
        ProcessOutcome::Io(IoRequest::ListDir) => {}
        _ => panic!("a listing must be routed to the filesystem"),
    }
    match Message::OpenReq("f.txt".to_string()).process(&mut s1, &mut files) {
        ProcessOutcome::Io(IoRequest::Open(name)) => assert_eq!(name, "f.txt"),
        _ => panic!("open must be routed to the filesystem"),
    }
}

#[test]
fn process_cursor_requests() {
    let mut files = FileStates::new();
    let mut s1 = session(1);
    open(&mut s1, &mut files, "/home/alice/f.txt", b"");
    let req = Message::WriteAtCursorReq(WriteAtCursorReqData { data: b"abcdef".to_vec() });
    match req.process(&mut s1, &mut files) {
        ProcessOutcome::ReplyBroadcast(
            Message::WriteAtCursorResp(WriteAtCursorResult::Okay),
            _,
        ) => {}
        _ => panic!("write at cursor must succeed"),
    }
    match Message::MoveCursor(-3).process(&mut s1, &mut files) {
        ProcessOutcome::Reply(Message::MoveCursorResp(MoveCursorResult::Okay), false) => {}
        _ => panic!("move cursor must succeed"),
    }
    let req = Message::RemoveAtCursorReq(RemoveAtCursorReqData { len: 2 });
    match req.process(&mut s1, &mut files) {
        ProcessOutcome::ReplyBroadcast(
            Message::RemoveAtCursorResp(RemoveAtCursorResult::Okay),
            b,
        ) => match b.update {
            Message::UpdateMessage(UpdateData::Remove(u)) => {
                assert_eq!(u.offset, 3);
                assert_eq!(u.len, 2);
            }
            _ => panic!("a remove must broadcast a remove update"),
        },
        _ => panic!("remove at cursor must succeed"),
    }
    assert_eq!(s1.file_read(&files, 0, 4).unwrap(), b"abcf".to_vec());
    match Message::GetCursorsReq.process(&mut s1, &mut files) {
        ProcessOutcome::Reply(
            Message::GetCursorsResp(GetCursorsResult::Okay((own, others))),
            false,
        ) => {
            assert_eq!(own, 3);
            assert_eq!(others, Vec::new());
        }
        _ => panic!("get cursors must succeed"),
    }
}

#[test]
fn process_two_inserts_then_read() {
    // S1 inserts "Hello, " at 0, then "world!" at 7; a read of {0,13} yields
    // "Hello, world!" and the file holds 13 bytes.
    let mut files = FileStates::new();
    let mut s1 = session(1);
    open(&mut s1, &mut files, "/home/alice/h.txt", b"");
    let w1 = Message::WriteReq(WriteReqData { offset: 0, data: b"Hello, ".to_vec() });
    assert!(matches!(
        w1.process(&mut s1, &mut files),
        ProcessOutcome::ReplyBroadcast(Message::WriteResp(WriteResult::Okay), _)
    ));
    let w2 = Message::WriteReq(WriteReqData { offset: 7, data: b"world!".to_vec() });
    assert!(matches!(
        w2.process(&mut s1, &mut files),
        ProcessOutcome::ReplyBroadcast(Message::WriteResp(WriteResult::Okay), _)
    ));
    let rd = Message::ReadReq(ReadReqData { offset: 0, len: 13 });
    match rd.process(&mut s1, &mut files) {
        ProcessOutcome::Reply(Message::ReadResp(ReadResult::Okay(data)), false) => {
            assert_eq!(data, b"Hello, world!".to_vec());
            assert_eq!(data.len(), 13);
        }
        _ => panic!("the read must return the concatenation"),
    }
    // one byte past the end is an error, never a clamp
    let rd = Message::ReadReq(ReadReqData { offset: 0, len: 14 });
    assert!(matches!(
        rd.process(&mut s1, &mut files),
        ProcessOutcome::Reply(Message::ReadResp(ReadResult::Error(_)), false)
    ));
}

#[test]
fn process_broadcast_fanout_to_peer() {
    // P9 at the dispatch level: S2's inbound is owed one Add{0, "ABC"}.
    let mut files = FileStates::new();
    let mut s1 = session(1);
    let mut s2 = session(2);
    open(&mut s1, &mut files, "/home/alice/f.txt", b"");
    open(&mut s2, &mut files, "/home/alice/f.txt", b"");
    let req = Message::WriteReq(WriteReqData { offset: 0, data: b"ABC".to_vec() });
    match req.process(&mut s1, &mut files) {
        ProcessOutcome::ReplyBroadcast(Message::WriteResp(WriteResult::Okay), b) => {
            assert_eq!(b.targets, vec![2]);
            assert_eq!(
                b.update,
                Message::UpdateMessage(UpdateData::Add(UpdateAdd {
                    offset: 0,
                    data: b"ABC".to_vec(),
                }))
            );
        }
        _ => panic!("the write must succeed and owe one envelope"),
    }
    let req = Message::ReadReq(ReadReqData { offset: 0, len: 3 });
    match req.process(&mut s2, &mut files) {
        ProcessOutcome::Reply(Message::ReadResp(ReadResult::Okay(data)), false) => {
            assert_eq!(data, b"ABC".to_vec())
        }
        _ => panic!("the peer must read the broadcast bytes"),
    }
}
