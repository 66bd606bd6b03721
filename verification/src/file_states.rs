//! The file table: canonical absolute path to per-file state.
//!
//! A file is present exactly while at least one session has it open: `open`
//! inserts the entry on first use, and `close` removes it when the last
//! session detaches.

use vstd::pervasive::VecAdditionalExecFns;
use vstd::prelude::*;

use crate::error::EditorError;
use crate::file_state::{
    has_session, others_view, session_cursor, shifted_by_insert, shifted_by_remove, moved_cursor,
    Cursor, FileState,
};
use crate::rope::{spliced_in, spliced_out, Rope};

verus! {

struct FileEntry {
    path: String,
    state: FileState,
}

spec fn paths_unique(es: Seq<FileEntry>) -> bool {
    forall|i: int, j: int| 0 <= i < j < es.len() ==> es[i].path@ != es[j].path@
}

spec fn entries_contain(es: Seq<FileEntry>, p: Seq<char>) -> bool {
    exists|i: int| 0 <= i < es.len() && es[i].path@ == p
}

spec fn entry_index(es: Seq<FileEntry>, p: Seq<char>) -> int {
    choose|i: int| 0 <= i < es.len() && es[i].path@ == p
}

spec fn entry_state(es: Seq<FileEntry>, p: Seq<char>) -> FileState {
    es[entry_index(es, p)].state
}

/// Under unique paths, any position holding `p` is the `entry_index`.
proof fn lemma_entry_index_unique(es: Seq<FileEntry>, p: Seq<char>, i: int)
    requires
        paths_unique(es),
        0 <= i < es.len(),
        es[i].path@ == p,
    ensures
        entry_index(es, p) == i,
{
    assert(entries_contain(es, p));
    let j = entry_index(es, p);
    if i != j {
        if i < j {
            assert(es[i].path@ != es[j].path@);
        } else {
            assert(es[j].path@ != es[i].path@);
        }
    }
}

/// Replacing the state at one entry (same path) keeps every other entry's
/// membership and state.
proof fn lemma_update_entry(es: Seq<FileEntry>, i: int, e: FileEntry)
    requires
        paths_unique(es),
        0 <= i < es.len(),
        e.path@ == es[i].path@,
    ensures
        paths_unique(es.update(i, e)),
        forall|q: Seq<char>|
            #[trigger] entries_contain(es.update(i, e), q) == entries_contain(es, q),
        entries_contain(es, e.path@),
        entry_state(es.update(i, e), e.path@) == e.state,
        forall|q: Seq<char>|
            entries_contain(es, q) && q != e.path@ ==> #[trigger] entry_state(es.update(i, e), q)
                == entry_state(es, q),
{
    let es2 = es.update(i, e);
    assert forall|q: Seq<char>| #[trigger] entries_contain(es2, q) == entries_contain(es, q) by {
        if entries_contain(es2, q) {
            let j = choose|j: int| 0 <= j < es2.len() && es2[j].path@ == q;
            assert(es[j].path@ == q);
        }
        if entries_contain(es, q) {
            let j = choose|j: int| 0 <= j < es.len() && es[j].path@ == q;
            assert(es2[j].path@ == q);
        }
    }
    lemma_entry_index_unique(es2, e.path@, i);
    assert forall|q: Seq<char>|
        entries_contain(es, q) && q != e.path@ implies #[trigger] entry_state(es2, q)
        == entry_state(es, q) by {
        let j = entry_index(es, q);
        assert(es[j].path@ == q);
        assert(j != i);
        lemma_entry_index_unique(es2, q, j);
    }
}

/// Appending an entry with a fresh path keeps every present entry's state.
proof fn lemma_push_entry(es: Seq<FileEntry>, e: FileEntry)
    requires
        paths_unique(es),
        !entries_contain(es, e.path@),
    ensures
        paths_unique(es.push(e)),
        entries_contain(es.push(e), e.path@),
        entry_state(es.push(e), e.path@) == e.state,
        forall|q: Seq<char>|
            q != e.path@ ==> #[trigger] entries_contain(es.push(e), q) == entries_contain(es, q),
        forall|q: Seq<char>|
            entries_contain(es, q) ==> #[trigger] entry_state(es.push(e), q) == entry_state(es, q),
{
    let es2 = es.push(e);
    assert(forall|j: int| 0 <= j < es.len() ==> es2[j] == es[j]);
    assert(es2[es.len() as int] == e);
    assert forall|i: int, j: int| 0 <= i < j < es2.len() implies es2[i].path@ != es2[j].path@ by {
        if j == es.len() as int {
            assert(es[i].path@ == es2[i].path@);
            if es2[i].path@ == e.path@ {
                assert(entries_contain(es, e.path@));
            }
        }
    }
    lemma_entry_index_unique(es2, e.path@, es.len() as int);
    assert forall|q: Seq<char>| q != e.path@ implies #[trigger] entries_contain(es2, q)
        == entries_contain(es, q) by {
        if entries_contain(es2, q) {
            let j = choose|j: int| 0 <= j < es2.len() && es2[j].path@ == q;
            assert(j < es.len());
            assert(es[j].path@ == q);
        }
        if entries_contain(es, q) {
            let j = entry_index(es, q);
            assert(es2[j].path@ == q);
        }
    }
    assert forall|q: Seq<char>| entries_contain(es, q) implies #[trigger] entry_state(es2, q)
        == entry_state(es, q) by {
        let j = entry_index(es, q);
        assert(es[j].path@ == q);
        assert(es2[j].path@ == q);
        lemma_entry_index_unique(es2, q, j);
        if q == e.path@ {
            assert(false);
        }
    }
}

/// Removing one entry keeps every other entry's membership and state.
proof fn lemma_remove_entry(es: Seq<FileEntry>, i: int)
    requires
        paths_unique(es),
        0 <= i < es.len(),
    ensures
        paths_unique(es.remove(i)),
        !entries_contain(es.remove(i), es[i].path@),
        forall|q: Seq<char>|
            q != es[i].path@ ==> #[trigger] entries_contain(es.remove(i), q) == entries_contain(
                es,
                q,
            ),
        forall|q: Seq<char>|
            q != es[i].path@ && entries_contain(es, q) ==> #[trigger] entry_state(es.remove(i), q)
                == entry_state(es, q),
{
    let es2 = es.remove(i);
    assert(forall|j: int|
        0 <= j < es2.len() ==> es2[j] == if j < i {
            es[j]
        } else {
            es[j + 1]
        });
    assert(paths_unique(es2));
    if entries_contain(es2, es[i].path@) {
        let j = choose|j: int| 0 <= j < es2.len() && es2[j].path@ == es[i].path@;
        if j < i {
            assert(es[j].path@ != es[i].path@);
        } else {
            assert(es[i].path@ != es[j + 1].path@);
        }
    }
    assert forall|q: Seq<char>| q != es[i].path@ implies #[trigger] entries_contain(es2, q)
        == entries_contain(es, q) by {
        if entries_contain(es2, q) {
            let j = choose|j: int| 0 <= j < es2.len() && es2[j].path@ == q;
            if j < i {
                assert(es[j].path@ == q);
            } else {
                assert(es[j + 1].path@ == q);
            }
        }
        if entries_contain(es, q) {
            let j = entry_index(es, q);
            assert(es[j].path@ == q);
            assert(j != i);
            if j < i {
                assert(es2[j].path@ == q);
            } else {
                assert(es2[j - 1].path@ == q);
            }
        }
    }
    assert forall|q: Seq<char>| q != es[i].path@ && entries_contain(es, q) implies #[trigger]
        entry_state(es2, q) == entry_state(es, q) by {
        let j = entry_index(es, q);
        assert(es[j].path@ == q);
        assert(j != i);
        if j < i {
            assert(es2[j].path@ == q);
            lemma_entry_index_unique(es2, q, j);
        } else {
            assert(es2[j - 1].path@ == q);
            lemma_entry_index_unique(es2, q, j - 1);
        }
    }
}

/// The tables agree on every path other than `p`: the same files are open
/// and each holds the same state.
pub open spec fn untouched_except(
    files_old: FileStates,
    files_new: FileStates,
    p: Seq<char>,
) -> bool {
    &&& forall|q: Seq<char>|
        q != p ==> #[trigger] files_new.contains_path(q) == files_old.contains_path(q)
    &&& forall|q: Seq<char>|
        q != p && files_old.contains_path(q) ==> #[trigger] files_new.state_of(q)
            == files_old.state_of(q)
}

/// How the table changes when session `id` closes the open file at `p`: the
/// session's cursor is removed, and the entry is evicted exactly when no
/// cursor remains.
pub open spec fn close_effect(
    files_old: FileStates,
    files_new: FileStates,
    p: Seq<char>,
    id: u64,
) -> bool {
    let remaining = if has_session(files_old.state_of(p).cursors(), id) {
        files_old.state_of(p).cursors().remove(
            crate::file_state::session_index(files_old.state_of(p).cursors(), id),
        )
    } else {
        files_old.state_of(p).cursors()
    };
    &&& (remaining.len() == 0 ==> !files_new.contains_path(p) && files_new.num_files()
        == files_old.num_files() - 1)
    &&& (remaining.len() > 0 ==> files_new.contains_path(p) && files_new.num_files()
        == files_old.num_files() && files_new.state_of(p).content() == files_old.state_of(
        p,
    ).content() && files_new.state_of(p).cursors() == remaining)
}

/// The table of open files. Its abstract value is a finite partial map from
/// canonical path (as a character sequence) to per-file state, reached
/// through `contains_path` and `state_of`.
pub struct FileStates {
    entries: Vec<FileEntry>,
}

impl FileStates {
    /// Well-formedness: no path appears twice and every per-file state is
    /// well formed.
    pub closed spec fn wf(&self) -> bool {
        &&& paths_unique(self.entries@)
        &&& forall|i: int| 0 <= i < self.entries@.len() ==> (#[trigger] self.entries@[i].state).wf()
    }

    /// Whether a file with canonical path `p` is open.
    pub closed spec fn contains_path(&self, p: Seq<char>) -> bool {
        entries_contain(self.entries@, p)
    }

    /// The per-file state of the open file at canonical path `p`.
    pub closed spec fn state_of(&self, p: Seq<char>) -> FileState {
        entry_state(self.entries@, p)
    }

    /// How many files are open.
    pub closed spec fn num_files(&self) -> nat {
        self.entries@.len()
    }

    /// Every state held by a well-formed table is itself well formed.
    pub proof fn lemma_state_wf(&self, p: Seq<char>)
        requires
            self.wf(),
            self.contains_path(p),
        ensures
            self.state_of(p).wf(),
    {
        let i = entry_index(self.entries@, p);
        assert(self.entries@[i].state.wf());
    }

    /// An empty table.
    pub fn new() -> (r: FileStates)
        ensures
            r.wf(),
            r.num_files() == 0,
            forall|p: Seq<char>| !r.contains_path(p),
    {
        FileStates { entries: Vec::new() }
    }

    /// Finds the entry position for `path`.
    fn find(&self, path: &String) -> (r: Option<usize>)
        requires
            self.wf(),
        ensures
            match r {
                Option::Some(i) => i < self.entries@.len() && self.entries@[i as int].path@
                    == path@ && i == entry_index(self.entries@, path@),
                Option::None => !self.contains_path(path@),
            },
    {
        let mut i: usize = 0;
        while i < self.entries.len()
            invariant
                self.wf(),
                i <= self.entries@.len(),
                forall|j: int| 0 <= j < i ==> self.entries@[j].path@ != path@,
            decreases self.entries@.len() - i,
        {
            if self.entries[i].path == *path {
                proof {
                    lemma_entry_index_unique(self.entries@, path@, i as int);
                }
                return Option::Some(i);
            }
            i = i + 1;
        }
        Option::None
    }

    /// True exactly when the file at `path` is open in some session.
    pub fn contains(&self, path: &String) -> (r: bool)
        requires
            self.wf(),
        ensures
            r == self.contains_path(path@),
    {
        match self.find(path) {
            Option::Some(_) => true,
            Option::None => false,
        }
    }

    /// Opens `path` for session `id`. When the file is already in the table,
    /// `contents` is ignored and the session is attached with its cursor at
    /// 0; otherwise a fresh entry holding exactly `contents` is inserted and
    /// the session attached to it. Every other file is untouched.
    pub fn open(&mut self, path: String, id: u64, name: Option<String>, contents: Vec<u8>)
        requires
            old(self).wf(),
        ensures
            final(self).wf(),
            final(self).contains_path(path@),
            old(self).contains_path(path@) ==> {
                &&& final(self).num_files() == old(self).num_files()
                &&& final(self).state_of(path@).content() == old(self).state_of(path@).content()
                &&& final(self).state_of(path@).cursors() == if has_session(
                    old(self).state_of(path@).cursors(),
                    id,
                ) {
                    old(self).state_of(path@).cursors().update(
                        crate::file_state::session_index(old(self).state_of(path@).cursors(), id),
                        Cursor { id, offset: 0, name },
                    )
                } else {
                    old(self).state_of(path@).cursors().push(Cursor { id, offset: 0, name })
                }
            },
            !old(self).contains_path(path@) ==> {
                &&& final(self).num_files() == old(self).num_files() + 1
                &&& final(self).state_of(path@).content() == contents@
                &&& final(self).state_of(path@).cursors() == Seq::empty().push(
                    Cursor { id, offset: 0, name },
                )
            },
            has_session(final(self).state_of(path@).cursors(), id),
            forall|q: Seq<char>|
                q != path@ ==> #[trigger] final(self).contains_path(q) == old(self).contains_path(
                    q,
                ),
            forall|q: Seq<char>|
                q != path@ && old(self).contains_path(q) ==> #[trigger] final(self).state_of(q)
                    == old(self).state_of(q),
    {
        match self.find(&path) {
            Option::Some(i) => {
                let mut entry = FileEntry { path: String::new(), state: FileState::new(Rope::new()) };
                self.entries.set_and_swap(i, &mut entry);
                let ghost taken = entry;
                entry.state.add_client(id, name);
                let ghost placed = entry;
                self.entries.set_and_swap(i, &mut entry);
                proof {
                    assert(self.entries@ =~= old(self).entries@.update(i as int, placed));
                    lemma_update_entry(old(self).entries@, i as int, placed);
                }
            },
            Option::None => {
                let mut rope = Rope::new();
                let n = contents.len();
                assert(contents@.len() == n <= usize::MAX);
                let ok = rope.insert_at(0, contents.as_slice());
                proof {
                    assert(spliced_in(Seq::<u8>::empty(), 0, contents@) =~= contents@);
                }
                let mut state = FileState::new(rope);
                state.add_client(id, name);
                let entry = FileEntry { path, state };
                proof {
                    lemma_push_entry(self.entries@, entry);
                }
                self.entries.push(entry);
            },
        }
    }

    /// Closes `path` for session `id`: the session's cursor is removed, and
    /// when no session remains attached the entry itself is evicted from the
    /// table. `UnknownFile` when `path` is not open.
    pub fn close(&mut self, path: &String, id: u64) -> (r: Result<(), EditorError>)
        requires
            old(self).wf(),
        ensures
            final(self).wf(),
            !old(self).contains_path(path@) ==> r == Err::<(), EditorError>(
                EditorError::UnknownFile,
            ) && *final(self) == *old(self),
            old(self).contains_path(path@) ==> {
                let remaining = if has_session(old(self).state_of(path@).cursors(), id) {
                    old(self).state_of(path@).cursors().remove(
                        crate::file_state::session_index(old(self).state_of(path@).cursors(), id),
                    )
                } else {
                    old(self).state_of(path@).cursors()
                };
                &&& r == Ok::<(), EditorError>(())
                &&& (remaining.len() == 0 ==> !final(self).contains_path(path@)
                    && final(self).num_files() == old(self).num_files() - 1)
                &&& (remaining.len() > 0 ==> final(self).contains_path(path@)
                    && final(self).num_files() == old(self).num_files()
                    && final(self).state_of(path@).content()
                    == old(self).state_of(path@).content() && final(self).state_of(path@).cursors()
                    == remaining)
            },
            forall|q: Seq<char>|
                q != path@ ==> #[trigger] final(self).contains_path(q) == old(self).contains_path(
                    q,
                ),
            forall|q: Seq<char>|
                q != path@ && old(self).contains_path(q) ==> #[trigger] final(self).state_of(q)
                    == old(self).state_of(q),
    {
        let i = match self.find(path) {
            Option::Some(i) => i,
            Option::None => {
                return Err(EditorError::UnknownFile);
            },
        };
        let mut entry = FileEntry { path: String::new(), state: FileState::new(Rope::new()) };
        self.entries.set_and_swap(i, &mut entry);
        entry.state.remove_client(id);
        let ghost placed = entry;
        self.entries.set_and_swap(i, &mut entry);
        proof {
            assert(self.entries@ =~= old(self).entries@.update(i as int, placed));
            lemma_update_entry(old(self).entries@, i as int, placed);
        }
        if self.entries[i].state.no_clients() {
            let ghost before = self.entries@;
            self.entries.remove(i);
            proof {
                lemma_remove_entry(before, i as int);
            }
        }
        Ok(())
    }

    /// Reads `[from, to)` from the open file at `path`. `UnknownFile` when
    /// `path` is not open; otherwise exactly what `FileState::read` returns.
    pub fn read(&self, path: &String, from: usize, to: usize) -> (r: Result<Vec<u8>, EditorError>)
        requires
            self.wf(),
        ensures
            !self.contains_path(path@) ==> r == Err::<Vec<u8>, EditorError>(
                EditorError::UnknownFile,
            ),
            self.contains_path(path@) ==> {
                let content = self.state_of(path@).content();
                &&& (from <= to <= content.len() ==> (r matches Ok(bytes) && bytes@
                    == content.subrange(from as int, to as int)))
                &&& (!(from <= to <= content.len()) ==> r == Err::<Vec<u8>, EditorError>(
                    EditorError::OutOfRange,
                ))
            },
    {
        match self.find(path) {
            Option::Some(i) => self.entries[i].state.read(from, to),
            Option::None => Err(EditorError::UnknownFile),
        }
    }

    /// Writes `data` at `offset` into the open file at `path`, shifting the
    /// attached cursors. `UnknownFile` when `path` is not open.
    pub fn write(&mut self, path: &String, offset: usize, data: &[u8]) -> (r: Result<
        (),
        EditorError,
    >)
        requires
            old(self).wf(),
        ensures
            final(self).wf(),
            !old(self).contains_path(path@) ==> r == Err::<(), EditorError>(
                EditorError::UnknownFile,
            ) && *final(self) == *old(self),
            old(self).contains_path(path@) ==> {
                let st = old(self).state_of(path@);
                &&& final(self).contains_path(path@)
                &&& final(self).num_files() == old(self).num_files()
                &&& (offset <= st.content().len() && st.content().len() + data@.len()
                    <= usize::MAX ==> {
                    &&& r == Ok::<(), EditorError>(())
                    &&& final(self).state_of(path@).content() == spliced_in(
                        st.content(),
                        offset as int,
                        data@,
                    )
                    &&& final(self).state_of(path@).cursors().len() == st.cursors().len()
                    &&& forall|i: int|
                        0 <= i < st.cursors().len() ==> {
                            &&& final(self).state_of(path@).cursors()[i].id == st.cursors()[i].id
                            &&& final(self).state_of(path@).cursors()[i].name
                                == st.cursors()[i].name
                            &&& final(self).state_of(path@).cursors()[i].offset
                                == shifted_by_insert(
                                st.cursors()[i].offset as int,
                                offset as int,
                                data@.len() as int,
                            )
                        }
                })
                &&& (!(offset <= st.content().len() && st.content().len() + data@.len()
                    <= usize::MAX) ==> r == Err::<(), EditorError>(EditorError::OutOfRange)
                    && final(self).state_of(path@) == st)
            },
            forall|q: Seq<char>|
                q != path@ ==> #[trigger] final(self).contains_path(q) == old(self).contains_path(
                    q,
                ),
            forall|q: Seq<char>|
                q != path@ && old(self).contains_path(q) ==> #[trigger] final(self).state_of(q)
                    == old(self).state_of(q),
    {
        let i = match self.find(path) {
            Option::Some(i) => i,
            Option::None => {
                return Err(EditorError::UnknownFile);
            },
        };
        let mut entry = FileEntry { path: String::new(), state: FileState::new(Rope::new()) };
        self.entries.set_and_swap(i, &mut entry);
        let r = entry.state.write(offset, data);
        let ghost placed = entry;
        self.entries.set_and_swap(i, &mut entry);
        proof {
            assert(self.entries@ =~= old(self).entries@.update(i as int, placed));
            lemma_update_entry(old(self).entries@, i as int, placed);
        }
        r
    }

    /// Removes `[offset, offset + len)` from the open file at `path`,
    /// shifting the attached cursors. `UnknownFile` when `path` is not open.
    pub fn remove(&mut self, path: &String, offset: usize, len: usize) -> (r: Result<
        (),
        EditorError,
    >)
        requires
            old(self).wf(),
        ensures
            final(self).wf(),
            !old(self).contains_path(path@) ==> r == Err::<(), EditorError>(
                EditorError::UnknownFile,
            ) && *final(self) == *old(self),
            old(self).contains_path(path@) ==> {
                let st = old(self).state_of(path@);
                &&& final(self).contains_path(path@)
                &&& final(self).num_files() == old(self).num_files()
                &&& (offset + len <= st.content().len() ==> {
                    &&& r == Ok::<(), EditorError>(())
                    &&& final(self).state_of(path@).content() == spliced_out(
                        st.content(),
                        offset as int,
                        offset + len,
                    )
                    &&& final(self).state_of(path@).cursors().len() == st.cursors().len()
                    &&& forall|i: int|
                        0 <= i < st.cursors().len() ==> {
                            &&& final(self).state_of(path@).cursors()[i].id == st.cursors()[i].id
                            &&& final(self).state_of(path@).cursors()[i].name
                                == st.cursors()[i].name
                            &&& final(self).state_of(path@).cursors()[i].offset
                                == shifted_by_remove(
                                st.cursors()[i].offset as int,
                                offset as int,
                                len as int,
                            )
                        }
                })
                &&& (offset + len > st.content().len() ==> r == Err::<(), EditorError>(
                    EditorError::OutOfRange,
                ) && final(self).state_of(path@) == st)
            },
            forall|q: Seq<char>|
                q != path@ ==> #[trigger] final(self).contains_path(q) == old(self).contains_path(
                    q,
                ),
            forall|q: Seq<char>|
                q != path@ && old(self).contains_path(q) ==> #[trigger] final(self).state_of(q)
                    == old(self).state_of(q),
    {
        let i = match self.find(path) {
            Option::Some(i) => i,
            Option::None => {
                return Err(EditorError::UnknownFile);
            },
        };
        let mut entry = FileEntry { path: String::new(), state: FileState::new(Rope::new()) };
        self.entries.set_and_swap(i, &mut entry);
        let r = entry.state.remove(offset, len);
        let ghost placed = entry;
        self.entries.set_and_swap(i, &mut entry);
        proof {
            assert(self.entries@ =~= old(self).entries@.update(i as int, placed));
            lemma_update_entry(old(self).entries@, i as int, placed);
        }
        r
    }

    /// Flattens the open file at `path` and returns its full byte sequence,
    /// ready to be persisted. The bytes and cursors are unchanged.
    /// `UnknownFile` when `path` is not open.
    pub fn flush(&mut self, path: &String) -> (r: Result<Vec<u8>, EditorError>)
        requires
            old(self).wf(),
        ensures
            final(self).wf(),
            !old(self).contains_path(path@) ==> r == Err::<Vec<u8>, EditorError>(
                EditorError::UnknownFile,
            ) && *final(self) == *old(self),
            old(self).contains_path(path@) ==> {
                &&& (r matches Ok(bytes) && bytes@ == old(self).state_of(path@).content())
                &&& final(self).contains_path(path@)
                &&& final(self).num_files() == old(self).num_files()
                &&& final(self).state_of(path@).content() == old(self).state_of(path@).content()
                &&& final(self).state_of(path@).cursors() == old(self).state_of(path@).cursors()
            },
            forall|q: Seq<char>|
                q != path@ ==> #[trigger] final(self).contains_path(q) == old(self).contains_path(
                    q,
                ),
            forall|q: Seq<char>|
                q != path@ && old(self).contains_path(q) ==> #[trigger] final(self).state_of(q)
                    == old(self).state_of(q),
    {
        let i = match self.find(path) {
            Option::Some(i) => i,
            Option::None => {
                return Err(EditorError::UnknownFile);
            },
        };
        let mut entry = FileEntry { path: String::new(), state: FileState::new(Rope::new()) };
        self.entries.set_and_swap(i, &mut entry);
        entry.state.flatten();
        let n = entry.state.len();
        let bytes = match entry.state.read(0, n) {
            Ok(b) => b,
            Err(_) => {
                proof {
                    assert(false);
                }
                Vec::new()
            },
        };
        proof {
            assert(entry.state.content().subrange(0, entry.state.content().len() as int)
                =~= entry.state.content());
        }
        let ghost placed = entry;
        self.entries.set_and_swap(i, &mut entry);
        proof {
            assert(self.entries@ =~= old(self).entries@.update(i as int, placed));
            lemma_update_entry(old(self).entries@, i as int, placed);
        }
        Ok(bytes)
    }

    /// The ids of every session attached to the open file at `path`, in
    /// attachment order. `UnknownFile` when `path` is not open.
    pub fn get_clients(&self, path: &String) -> (r: Result<Vec<u64>, EditorError>)
        requires
            self.wf(),
        ensures
            !self.contains_path(path@) ==> r == Err::<Vec<u64>, EditorError>(
                EditorError::UnknownFile,
            ),
            self.contains_path(path@) ==> (r matches Ok(ids) && ids@.len() == self.state_of(
                path@,
            ).cursors().len() && forall|i: int|
                0 <= i < ids@.len() ==> ids@[i] == self.state_of(path@).cursors()[i].id),
    {
        match self.find(path) {
            Option::Some(i) => Ok(self.entries[i].state.get_clients()),
            Option::None => Err(EditorError::UnknownFile),
        }
    }

    /// Moves session `id`'s cursor in the open file at `path` by `delta`,
    /// clamped to `[0, len]`; an unattached `id` is a no-op. `UnknownFile`
    /// when `path` is not open.
    pub fn move_cursor(&mut self, path: &String, id: u64, delta: isize) -> (r: Result<
        (),
        EditorError,
    >)
        requires
            old(self).wf(),
        ensures
            final(self).wf(),
            !old(self).contains_path(path@) ==> r == Err::<(), EditorError>(
                EditorError::UnknownFile,
            ) && *final(self) == *old(self),
            old(self).contains_path(path@) ==> {
                let st = old(self).state_of(path@);
                &&& r == Ok::<(), EditorError>(())
                &&& final(self).contains_path(path@)
                &&& final(self).num_files() == old(self).num_files()
                &&& final(self).state_of(path@).content() == st.content()
                &&& final(self).state_of(path@).cursors().len() == st.cursors().len()
                &&& forall|i: int|
                    0 <= i < st.cursors().len() ==> {
                        &&& final(self).state_of(path@).cursors()[i].id == st.cursors()[i].id
                        &&& final(self).state_of(path@).cursors()[i].name == st.cursors()[i].name
                        &&& final(self).state_of(path@).cursors()[i].offset == if st.cursors()[i].id
                            == id {
                            moved_cursor(
                                st.cursors()[i].offset as int,
                                delta as int,
                                st.content().len() as int,
                            )
                        } else {
                            st.cursors()[i].offset as int
                        }
                    }
            },
            forall|q: Seq<char>|
                q != path@ ==> #[trigger] final(self).contains_path(q) == old(self).contains_path(
                    q,
                ),
            forall|q: Seq<char>|
                q != path@ && old(self).contains_path(q) ==> #[trigger] final(self).state_of(q)
                    == old(self).state_of(q),
    {
        let i = match self.find(path) {
            Option::Some(i) => i,
            Option::None => {
                return Err(EditorError::UnknownFile);
            },
        };
        let mut entry = FileEntry { path: String::new(), state: FileState::new(Rope::new()) };
        self.entries.set_and_swap(i, &mut entry);
        entry.state.move_cursor(id, delta);
        let ghost placed = entry;
        self.entries.set_and_swap(i, &mut entry);
        proof {
            assert(self.entries@ =~= old(self).entries@.update(i as int, placed));
            lemma_update_entry(old(self).entries@, i as int, placed);
        }
        Ok(())
    }

    /// Writes `data` at session `id`'s cursor in the open file at `path`,
    /// returning the offset written at. `UnknownFile` when `path` is not
    /// open; `UnknownSession` when `id` is not attached to it.
    pub fn file_write_cursor(&mut self, path: &String, id: u64, data: &[u8]) -> (r: Result<
        usize,
        EditorError,
    >)
        requires
            old(self).wf(),
        ensures
            final(self).wf(),
            !old(self).contains_path(path@) ==> r == Err::<usize, EditorError>(
                EditorError::UnknownFile,
            ) && *final(self) == *old(self),
            old(self).contains_path(path@) ==> {
                let st = old(self).state_of(path@);
                &&& final(self).contains_path(path@)
                &&& final(self).num_files() == old(self).num_files()
                &&& (!has_session(st.cursors(), id) ==> r == Err::<usize, EditorError>(
                    EditorError::UnknownSession,
                ) && final(self).state_of(path@) == st)
                &&& (has_session(st.cursors(), id) ==> {
                    let at = session_cursor(st.cursors(), id).offset;
                    if st.content().len() + data@.len() <= usize::MAX {
                        &&& r == Ok::<usize, EditorError>(at)
                        &&& final(self).state_of(path@).content() == spliced_in(
                            st.content(),
                            at as int,
                            data@,
                        )
                        &&& final(self).state_of(path@).cursors().len() == st.cursors().len()
                        &&& forall|i: int|
                            0 <= i < st.cursors().len() ==> {
                                &&& final(self).state_of(path@).cursors()[i].id
                                    == st.cursors()[i].id
                                &&& final(self).state_of(path@).cursors()[i].name
                                    == st.cursors()[i].name
                                &&& final(self).state_of(path@).cursors()[i].offset
                                    == shifted_by_insert(
                                    st.cursors()[i].offset as int,
                                    at as int,
                                    data@.len() as int,
                                )
                            }
                    } else {
                        r == Err::<usize, EditorError>(EditorError::OutOfRange)
                            && final(self).state_of(path@) == st
                    }
                })
            },
            forall|q: Seq<char>|
                q != path@ ==> #[trigger] final(self).contains_path(q) == old(self).contains_path(
                    q,
                ),
            forall|q: Seq<char>|
                q != path@ && old(self).contains_path(q) ==> #[trigger] final(self).state_of(q)
                    == old(self).state_of(q),
    {
        let i = match self.find(path) {
            Option::Some(i) => i,
            Option::None => {
                return Err(EditorError::UnknownFile);
            },
        };
        let mut entry = FileEntry { path: String::new(), state: FileState::new(Rope::new()) };
        self.entries.set_and_swap(i, &mut entry);
        let r = entry.state.write_at_cursor(id, data);
        let ghost placed = entry;
        self.entries.set_and_swap(i, &mut entry);
        proof {
            assert(self.entries@ =~= old(self).entries@.update(i as int, placed));
            lemma_update_entry(old(self).entries@, i as int, placed);
        }
        r
    }

    /// Removes `len` bytes at session `id`'s cursor in the open file at
    /// `path`, returning the offset removed at. `UnknownFile` when `path` is
    /// not open; `UnknownSession` when `id` is not attached; `OutOfRange`
    /// when fewer than `len` bytes follow the cursor.
    pub fn file_remove_cursor(&mut self, path: &String, id: u64, len: usize) -> (r: Result<
        usize,
        EditorError,
    >)
        requires
            old(self).wf(),
        ensures
            final(self).wf(),
            !old(self).contains_path(path@) ==> r == Err::<usize, EditorError>(
                EditorError::UnknownFile,
            ) && *final(self) == *old(self),
            old(self).contains_path(path@) ==> {
                let st = old(self).state_of(path@);
                &&& final(self).contains_path(path@)
                &&& final(self).num_files() == old(self).num_files()
                &&& (!has_session(st.cursors(), id) ==> r == Err::<usize, EditorError>(
                    EditorError::UnknownSession,
                ) && final(self).state_of(path@) == st)
                &&& (has_session(st.cursors(), id) ==> {
                    let at = session_cursor(st.cursors(), id).offset;
                    if at + len <= st.content().len() {
                        &&& r == Ok::<usize, EditorError>(at)
                        &&& final(self).state_of(path@).content() == spliced_out(
                            st.content(),
                            at as int,
                            at + len,
                        )
                        &&& final(self).state_of(path@).cursors().len() == st.cursors().len()
                        &&& forall|i: int|
                            0 <= i < st.cursors().len() ==> {
                                &&& final(self).state_of(path@).cursors()[i].id
                                    == st.cursors()[i].id
                                &&& final(self).state_of(path@).cursors()[i].name
                                    == st.cursors()[i].name
                                &&& final(self).state_of(path@).cursors()[i].offset
                                    == shifted_by_remove(
                                    st.cursors()[i].offset as int,
                                    at as int,
                                    len as int,
                                )
                            }
                    } else {
                        r == Err::<usize, EditorError>(EditorError::OutOfRange)
                            && final(self).state_of(path@) == st
                    }
                })
            },
            forall|q: Seq<char>|
                q != path@ ==> #[trigger] final(self).contains_path(q) == old(self).contains_path(
                    q,
                ),
            forall|q: Seq<char>|
                q != path@ && old(self).contains_path(q) ==> #[trigger] final(self).state_of(q)
                    == old(self).state_of(q),
    {
        let i = match self.find(path) {
            Option::Some(i) => i,
            Option::None => {
                return Err(EditorError::UnknownFile);
            },
        };
        let mut entry = FileEntry { path: String::new(), state: FileState::new(Rope::new()) };
        self.entries.set_and_swap(i, &mut entry);
        let r = entry.state.remove_at_cursor(id, len);
        let ghost placed = entry;
        self.entries.set_and_swap(i, &mut entry);
        proof {
            assert(self.entries@ =~= old(self).entries@.update(i as int, placed));
            lemma_update_entry(old(self).entries@, i as int, placed);
        }
        r
    }

    /// Session `id`'s own cursor offset plus every other session's
    /// `(offset, name)` pair for the open file at `path`. `UnknownFile` when
    /// `path` is not open; `UnknownSession` when `id` is not attached.
    pub fn get_cursors(&self, path: &String, id: u64) -> (r: Result<
        (usize, Vec<(usize, Option<String>)>),
        EditorError,
    >)
        requires
            self.wf(),
        ensures
            !self.contains_path(path@) ==> r == Err::<
                (usize, Vec<(usize, Option<String>)>),
                EditorError,
            >(EditorError::UnknownFile),
            self.contains_path(path@) ==> {
                let st = self.state_of(path@);
                &&& (!has_session(st.cursors(), id) ==> r == Err::<
                    (usize, Vec<(usize, Option<String>)>),
                    EditorError,
                >(EditorError::UnknownSession))
                &&& (has_session(st.cursors(), id) ==> (r matches Ok(pair) && pair.0
                    == session_cursor(st.cursors(), id).offset && pair.1@ == others_view(
                    st.cursors(),
                    id,
                )))
            },
    {
        match self.find(path) {
            Option::Some(i) => self.entries[i].state.get_cursors(id),
            Option::None => Err(EditorError::UnknownFile),
        }
    }
}

} // verus!
