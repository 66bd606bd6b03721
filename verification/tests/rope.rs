use editr::error::EditorError;
use editr::rope::Rope;

#[test]
fn rope_starts_empty() {
    let r = Rope::new();
    assert_eq!(r.len(), 0);
    assert!(r.is_empty());
    assert_eq!(r.collect(0, 0).unwrap(), Vec::<u8>::new());
}

#[test]
fn rope_hello_world_insertions() {
    let mut r = Rope::new();
    r.insert_at(0, b"Hello, ").unwrap();
    r.insert_at(7, b"world!").unwrap();
    assert_eq!(r.len(), 13);
    assert_eq!(r.collect(0, 13).unwrap(), b"Hello, world!".to_vec());
}

#[test]
fn rope_insert_in_middle() {
    let mut r = Rope::new();
    r.insert_at(0, b"A").unwrap();
    r.insert_at(0, b"B").unwrap();
    r.insert_at(0, b"C").unwrap();
    r.insert_at(2, b"HELLO WORLD").unwrap();
    assert_eq!(r.collect(0, r.len()).unwrap(), b"CBHELLO WORLDA".to_vec());
}

#[test]
fn rope_insert_out_of_range() {
    let mut r = Rope::new();
    r.insert_at(0, b"abc").unwrap();
    assert_eq!(r.insert_at(4, b"x"), Err(EditorError::OutOfRange));
    // the failed insert left the bytes alone
    assert_eq!(r.collect(0, 3).unwrap(), b"abc".to_vec());
}

#[test]
fn rope_remove_within_leaf() {
    let mut r = Rope::new();
    r.insert_at(0, b"abcdef").unwrap();
    r.remove(1, 3).unwrap();
    assert_eq!(r.collect(0, r.len()).unwrap(), b"aef".to_vec());
}

#[test]
fn rope_remove_across_internal_boundary() {
    // Build a tree with several internal nodes, then delete ranges that
    // cross the split points at multiple depths.
    let mut r = Rope::new();
    r.insert_at(0, b"abcd").unwrap();
    r.insert_at(2, b"XY").unwrap(); // ab XY cd
    r.insert_at(4, b"12").unwrap(); // ab XY 12 cd
    assert_eq!(r.collect(0, r.len()).unwrap(), b"abXY12cd".to_vec());
    r.remove(1, 6).unwrap(); // crosses every boundary
    assert_eq!(r.collect(0, r.len()).unwrap(), b"ad".to_vec());
}

#[test]
fn rope_remove_emptying_one_side() {
    let mut r = Rope::new();
    r.insert_at(0, b"left").unwrap();
    r.insert_at(4, b"right").unwrap();
    // deleting the whole left part promotes the right child
    r.remove(0, 4).unwrap();
    assert_eq!(r.collect(0, r.len()).unwrap(), b"right".to_vec());
    // deleting everything leaves the empty rope usable
    r.remove(0, 5).unwrap();
    assert_eq!(r.len(), 0);
    r.insert_at(0, b"again").unwrap();
    assert_eq!(r.collect(0, 5).unwrap(), b"again".to_vec());
}

#[test]
fn rope_remove_out_of_range() {
    let mut r = Rope::new();
    r.insert_at(0, b"abc").unwrap();
    assert_eq!(r.remove(2, 2), Err(EditorError::OutOfRange));
    assert_eq!(r.collect(0, 3).unwrap(), b"abc".to_vec());
}

#[test]
fn rope_collect_rejects_bad_ranges() {
    let mut r = Rope::new();
    r.insert_at(0, b"abc").unwrap();
    // past the end: an error, never a silent clamp
    assert_eq!(r.collect(0, 4), Err(EditorError::OutOfRange));
    // reversed
    assert_eq!(r.collect(2, 1), Err(EditorError::OutOfRange));
    // in range
    assert_eq!(r.collect(1, 3).unwrap(), b"bc".to_vec());
}

#[test]
fn rope_flatten_keeps_bytes() {
    let mut r = Rope::new();
    r.insert_at(0, b"abcd").unwrap();
    r.insert_at(2, b"XY").unwrap();
    r.remove(1, 2).unwrap();
    let before = r.collect(0, r.len()).unwrap();
    r.flatten();
    assert_eq!(r.collect(0, r.len()).unwrap(), before);
}

#[test]
fn rope_search_ascending_offsets() {
    let mut r = Rope::new();
    r.insert_at(0, b"banana").unwrap();
    assert_eq!(r.search(b'a'), vec![1, 3, 5]);
    assert_eq!(r.search(b'b'), vec![0]);
    assert_eq!(r.search(b'z'), Vec::<usize>::new());
}

#[test]
fn rope_round_trip_against_vec_model() {
    // A mixed splice history must read back exactly like the same splices
    // applied to a plain byte vector.
    let mut r = Rope::new();
    let mut model: Vec<u8> = Vec::new();
    let script: Vec<(bool, usize, Vec<u8>, usize)> = vec![
        (true, 0, b"the quick".to_vec(), 0),
        (true, 4, b"very ".to_vec(), 0),
        (false, 0, Vec::new(), 3),
        (true, 11, b" brown fox".to_vec(), 0),
        (false, 5, Vec::new(), 4),
        (true, 0, b">>".to_vec(), 0),
    ];
    for (is_insert, at, data, k) in script {
        if is_insert {
            r.insert_at(at, &data).unwrap();
            let tail = model.split_off(at);
            model.extend_from_slice(&data);
            model.extend_from_slice(&tail);
        } else {
            r.remove(at, k).unwrap();
            let tail = model.split_off(at + k);
            model.truncate(at);
            model.extend_from_slice(&tail);
        }
        assert_eq!(r.collect(0, r.len()).unwrap(), model);
    }
}

#[test]
fn rope_offset_arithmetic_under_edit() {
    // After write(o, d): collect(o, o + |d|) == d and len grows by |d|.
    let mut r = Rope::new();
    r.insert_at(0, b"0123456789").unwrap();
    let before = r.len();
    r.insert_at(4, b"abc").unwrap();
    assert_eq!(r.len(), before + 3);
    assert_eq!(r.collect(4, 7).unwrap(), b"abc".to_vec());
    // After remove(o, k): bytes once at [o+k, len) now sit at [o, len-k).
    let all = r.collect(0, r.len()).unwrap();
    let o = 2;
    let k = 5;
    let expected_tail = all[o + k..].to_vec();
    let len_before = r.len();
    r.remove(o, k).unwrap();
    assert_eq!(r.len(), len_before - k);
    assert_eq!(r.collect(o, r.len()).unwrap(), expected_tail);
}
