use editr::error::EditorError;
use editr::file_state::FileState;
use editr::file_states::FileStates;
use editr::rope::Rope;

fn rope_of(bytes: &[u8]) -> Rope {
    let mut r = Rope::new();
    r.insert_at(0, bytes).unwrap();
    r
}

#[test]
fn state_cursor_shift_on_write() {
    // P3: after a write at o, a cursor at c stays when c < o and moves to
    // c + |d| otherwise.
    let mut fs = FileState::new(rope_of(b"abcdef"));
    fs.add_client(1, None);
    fs.add_client(2, None);
    fs.move_cursor(1, 2); // cursor 1 at 2
    fs.move_cursor(2, 5); // cursor 2 at 5
    fs.write(3, b"XY").unwrap();
    let (own1, _) = fs.get_cursors(1).unwrap();
    let (own2, _) = fs.get_cursors(2).unwrap();
    assert_eq!(own1, 2); // 2 < 3: unchanged
    assert_eq!(own2, 7); // 5 >= 3: moved by 2
}

#[test]
fn state_cursor_shift_on_remove() {
    // P3: after a remove of k at o, a cursor at c stays when c < o and moves
    // to max(o, c - k) otherwise.
    let mut fs = FileState::new(rope_of(b"abcdefgh"));
    fs.add_client(1, None);
    fs.add_client(2, None);
    fs.add_client(3, None);
    fs.move_cursor(1, 1); // before the cut
    fs.move_cursor(2, 4); // inside the cut
    fs.move_cursor(3, 7); // past the cut
    fs.remove(3, 3).unwrap(); // cut [3, 6)
    assert_eq!(fs.get_cursors(1).unwrap().0, 1);
    assert_eq!(fs.get_cursors(2).unwrap().0, 3); // collapsed to the cut point
    assert_eq!(fs.get_cursors(3).unwrap().0, 4); // 7 - 3
}

#[test]
fn state_move_cursor_clamps() {
    let mut fs = FileState::new(rope_of(b"abc"));
    fs.add_client(1, None);
    fs.move_cursor(1, 100);
    assert_eq!(fs.get_cursors(1).unwrap().0, 3); // clamped to len
    fs.move_cursor(1, -100);
    assert_eq!(fs.get_cursors(1).unwrap().0, 0); // clamped to 0
    fs.move_cursor(1, 2);
    assert_eq!(fs.get_cursors(1).unwrap().0, 2);
    // unknown id: a no-op, not an error
    fs.move_cursor(9, 1);
    assert_eq!(fs.get_cursors(1).unwrap().0, 2);
}

#[test]
fn state_write_at_cursor_returns_offset() {
    let mut fs = FileState::new(rope_of(b"abc"));
    fs.add_client(1, None);
    fs.move_cursor(1, 3);
    let at = fs.write_at_cursor(1, b"XY").unwrap();
    assert_eq!(at, 3);
    assert_eq!(fs.read(0, 5).unwrap(), b"abcXY".to_vec());
    // the writer's own cursor ends up after the new bytes
    assert_eq!(fs.get_cursors(1).unwrap().0, 5);
}

#[test]
fn state_remove_at_cursor_scenario() {
    // S1 inserts "abcdef" at 0, S1's cursor moves to 3, S2 attaches, S1
    // removes 2 at its cursor: the file is "abcf", S1 stays at 3, S2 at 0.
    let mut fs = FileState::new(Rope::new());
    fs.add_client(1, None);
    fs.write_at_cursor(1, b"abcdef").unwrap();
    // S1's cursor is now 6; put it at 3 as the scenario asks
    fs.move_cursor(1, -3);
    fs.add_client(2, None);
    let at = fs.remove_at_cursor(1, 2).unwrap();
    assert_eq!(at, 3);
    assert_eq!(fs.read(0, 4).unwrap(), b"abcf".to_vec());
    let (own1, others1) = fs.get_cursors(1).unwrap();
    assert_eq!(own1, 3);
    assert_eq!(others1, vec![(0, None)]);
    let (own2, others2) = fs.get_cursors(2).unwrap();
    assert_eq!(own2, 0);
    assert_eq!(others2, vec![(3, None)]);
}

#[test]
fn state_unknown_session_errors() {
    let mut fs = FileState::new(rope_of(b"abc"));
    fs.add_client(1, None);
    assert_eq!(fs.write_at_cursor(9, b"x"), Err(EditorError::UnknownSession));
    assert_eq!(fs.remove_at_cursor(9, 1), Err(EditorError::UnknownSession));
    assert!(fs.get_cursors(9).is_err());
    assert_eq!(
        EditorError::UnknownSession.message(),
        "ID not found in clients".to_string()
    );
}

#[test]
fn state_remove_at_cursor_out_of_range() {
    let mut fs = FileState::new(rope_of(b"abc"));
    fs.add_client(1, None);
    fs.move_cursor(1, 2);
    assert_eq!(fs.remove_at_cursor(1, 5), Err(EditorError::OutOfRange));
    // nothing changed
    assert_eq!(fs.read(0, 3).unwrap(), b"abc".to_vec());
    assert_eq!(fs.get_cursors(1).unwrap().0, 2);
}

#[test]
fn state_get_cursors_reports_names() {
    let mut fs = FileState::new(rope_of(b"abc"));
    fs.add_client(1, Some("alice".to_string()));
    fs.add_client(2, Some("bob".to_string()));
    let (own, others) = fs.get_cursors(1).unwrap();
    assert_eq!(own, 0);
    assert_eq!(others, vec![(0, Some("bob".to_string()))]);
}

#[test]
fn table_open_loads_and_attaches() {
    let mut files = FileStates::new();
    let path = "/home/a/f.txt".to_string();
    files.open(path.clone(), 1, None, b"content".to_vec());
    assert!(files.contains(&path));
    assert_eq!(files.read(&path, 0, 7).unwrap(), b"content".to_vec());
    // a second open of the same file ignores the new contents
    files.open(path.clone(), 2, None, b"IGNORED".to_vec());
    assert_eq!(files.read(&path, 0, 7).unwrap(), b"content".to_vec());
}

#[test]
fn table_eviction_after_last_close() {
    // P6: after the last attached session closes a file, contains is false.
    let mut files = FileStates::new();
    let path = "/home/a/f.txt".to_string();
    files.open(path.clone(), 1, None, b"x".to_vec());
    files.open(path.clone(), 2, None, Vec::new());
    files.close(&path, 1).unwrap();
    assert!(files.contains(&path));
    files.close(&path, 2).unwrap();
    assert!(!files.contains(&path));
}

#[test]
fn table_unknown_file_errors() {
    let mut files = FileStates::new();
    let path = "/nope".to_string();
    assert_eq!(files.read(&path, 0, 0), Err(EditorError::UnknownFile));
    assert_eq!(files.write(&path, 0, b"x"), Err(EditorError::UnknownFile));
    assert_eq!(files.close(&path, 1), Err(EditorError::UnknownFile));
    assert_eq!(
        EditorError::UnknownFile.message(),
        "Thread local storage does not exist".to_string()
    );
}

#[test]
fn table_write_remove_and_flush() {
    let mut files = FileStates::new();
    let path = "/home/a/f.txt".to_string();
    files.open(path.clone(), 1, None, b"hello".to_vec());
    files.write(&path, 5, b" world").unwrap();
    files.remove(&path, 0, 1).unwrap();
    let bytes = files.flush(&path).unwrap();
    assert_eq!(bytes, b"ello world".to_vec());
    // flushing does not disturb the contents
    assert_eq!(files.read(&path, 0, 10).unwrap(), b"ello world".to_vec());
}

#[test]
fn table_isolates_other_files() {
    let mut files = FileStates::new();
    let f = "/home/a/f.txt".to_string();
    let g = "/home/a/g.txt".to_string();
    files.open(f.clone(), 1, None, b"fff".to_vec());
    files.open(g.clone(), 2, None, b"ggg".to_vec());
    files.write(&f, 0, b"X").unwrap();
    assert_eq!(files.read(&g, 0, 3).unwrap(), b"ggg".to_vec());
    files.close(&f, 1).unwrap();
    assert!(files.contains(&g));
}

#[test]
fn table_get_clients_lists_attached_sessions() {
    let mut files = FileStates::new();
    let path = "/home/a/f.txt".to_string();
    files.open(path.clone(), 7, None, Vec::new());
    files.open(path.clone(), 8, None, Vec::new());
    assert_eq!(files.get_clients(&path).unwrap(), vec![7, 8]);
}
