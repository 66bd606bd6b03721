//! Per-session local state: the session id, its canonical home directory,
//! and the file it currently has open, together with the path sandbox and
//! the broadcast discipline.
//!
//! Every file-scoped operation goes through the session: it authorises the
//! path against the canonical home, delegates to the file table, and for the
//! mutating operations plans the broadcast — one update envelope for every
//! other session attached to the same file, none for the session itself.

use vstd::prelude::*;
use vstd::string::StrSliceExecFns;
use vstd::string::StringExecFns;

use crate::error::EditorError;
use crate::file_state::{
    clone_name, has_session, move_effect, others_view, remove_effect, session_cursor, write_effect,
    Cursor,
};
use crate::file_states::{close_effect, untouched_except, FileStates};
use crate::message::{Message, UpdateData};

verus! {

/// Whether `home` is a strict prefix of `path` at a path-component boundary:
/// the sole sandbox rule. Both are canonical, so no `..` or symlink can slip
/// past it.
pub open spec fn within_home(path: Seq<char>, home: Seq<char>) -> bool {
    &&& home.len() < path.len()
    &&& path.subrange(0, home.len() as int) == home
    &&& ((home.len() > 0 && home[home.len() - 1] == '/') || path[home.len() as int] == '/')
}

/// Decides the sandbox rule: true exactly when `path` lies strictly under
/// `home`.
pub fn path_within_home(path: &String, home: &String) -> (r: bool)
    ensures
        r == within_home(path@, home@),
{
    let hl = home.as_str().unicode_len();
    let pl = path.as_str().unicode_len();
    if hl >= pl {
        return false;
    }
    let mut i: usize = 0;
    while i < hl
        invariant
            i <= hl,
            hl == home@.len(),
            pl == path@.len(),
            hl < pl,
            forall|j: int| 0 <= j < i ==> path@[j] == home@[j],
        decreases hl - i,
    {
        if path.as_str().get_char(i) != home.as_str().get_char(i) {
            proof {
                assert(path@.subrange(0, hl as int)[i as int] == path@[i as int]);
            }
            return false;
        }
        i = i + 1;
    }
    proof {
        assert(path@.subrange(0, hl as int) =~= home@);
    }
    if hl > 0 && home.as_str().get_char(hl - 1) == '/' {
        true
    } else {
        path.as_str().get_char(hl) == '/'
    }
}

/// Resolves a user-supplied path against the home directory the way the
/// operating system would: an absolute path stands alone, anything else is
/// joined under `home` with a separator.
pub fn prepend_home(home: &String, path: &String) -> (r: String)
    ensures
        path@.len() > 0 && path@[0] == '/' ==> r@ == path@,
        !(path@.len() > 0 && path@[0] == '/') ==> r@ == home@ + seq!['/'] + path@,
{
    let pl = path.as_str().unicode_len();
    if pl > 0 && path.as_str().get_char(0) == '/' {
        return path.clone();
    }
    let mut out = home.clone();
    out.append("/");
    out.append(path.as_str());
    proof {
        reveal_strlit("/");
        assert(out@ =~= home@ + seq!['/'] + path@);
    }
    out
}

/// A planned broadcast: the update envelope and the sessions owed a copy.
pub struct Broadcast {
    pub update: Message,
    pub targets: Vec<u64>,
}

/// The broadcast discipline: `targets` lists, without repetition, exactly
/// the sessions attached through `cursors` other than `id` itself.
pub open spec fn valid_targets(targets: Seq<u64>, cursors: Seq<Cursor>, id: u64) -> bool {
    &&& forall|i: int, j: int| 0 <= i < j < targets.len() ==> targets[i] != targets[j]
    &&& forall|t: u64| #[trigger] targets.contains(t) <==> (has_session(cursors, t) && t != id)
}

/// Plans the fan-out of one mutation on the open file at `path` by session
/// `id`: every other attached session exactly once, never `id` itself.
fn broadcast_targets(files: &FileStates, path: &String, id: u64) -> (r: Vec<u64>)
    requires
        files.wf(),
        files.contains_path(path@),
    ensures
        valid_targets(r@, files.state_of(path@).cursors(), id),
{
    let ghost cursors = files.state_of(path@).cursors();
    proof {
        files.lemma_state_wf(path@);
        files.state_of(path@).lemma_wf_cursors();
    }
    let ids = match files.get_clients(path) {
        Ok(v) => v,
        Err(_) => {
            proof {
                assert(false);
            }
            Vec::new()
        },
    };
    let mut out: Vec<u64> = Vec::new();
    let mut i: usize = 0;
    while i < ids.len()
        invariant
            i <= ids@.len() == cursors.len(),
            forall|k: int| 0 <= k < ids@.len() ==> ids@[k] == cursors[k].id,
            crate::file_state::ids_unique(cursors),
            forall|a: int, b: int| 0 <= a < b < out@.len() ==> out@[a] != out@[b],
            forall|t: u64| #[trigger] out@.contains(t) <==> (exists|k: int|
                0 <= k < i && cursors[k].id == t && t != id),
        decreases ids@.len() - i,
    {
        let t = ids[i];
        if t != id {
            let ghost prev = out@;
            proof {
                if prev.contains(t) {
                    let k = choose|k: int| 0 <= k < i && cursors[k].id == t && t != id;
                    assert(cursors[k].id == cursors[i as int].id);
                    assert(false);
                }
            }
            out.push(t);
            proof {
                assert(out@[prev.len() as int] == t);
                assert(forall|a: int| 0 <= a < prev.len() ==> out@[a] == prev[a]);
                assert forall|u: u64| #[trigger] out@.contains(u) implies (exists|k: int|
                    0 <= k < i + 1 && cursors[k].id == u && u != id) by {
                    let a = choose|a: int| 0 <= a < out@.len() && out@[a] == u;
                    if a < prev.len() {
                        assert(prev.contains(u));
                    } else {
                        assert(u == t);
                        assert(cursors[i as int].id == u && u != id);
                    }
                }
                assert forall|u: u64| (exists|k: int|
                    0 <= k < i + 1 && cursors[k].id == u && u != id) implies #[trigger]
                    out@.contains(u) by {
                    let k = choose|k: int| 0 <= k < i + 1 && cursors[k].id == u && u != id;
                    if k < i {
                        assert(prev.contains(u));
                        let a = choose|a: int| 0 <= a < prev.len() && prev[a] == u;
                        assert(out@[a] == u);
                    } else {
                        assert(out@[prev.len() as int] == u);
                    }
                }
            }
        }
        i = i + 1;
    }
    out
}

/// One connected client: its id, its canonical home, an optional display
/// name, and the file it currently has open.
pub struct Session {
    id: u64,
    canonical_home: String,
    name: Option<String>,
    opened_file: Option<String>,
}

impl Session {
    /// The session id.
    pub closed spec fn sid(&self) -> u64 {
        self.id
    }

    /// The session id.
    pub fn session_id(&self) -> (r: u64)
        ensures
            r == self.sid(),
    {
        self.id
    }

    /// The canonical home directory, as characters.
    pub closed spec fn home(&self) -> Seq<char> {
        self.canonical_home@
    }

    /// The display name handed to files this session opens.
    pub closed spec fn display_name(&self) -> Option<String> {
        self.name
    }

    /// The canonical path of the currently open file, if any.
    pub closed spec fn opened(&self) -> Option<Seq<char>> {
        match self.opened_file {
            Option::None => Option::None,
            Option::Some(p) => Option::Some(p@),
        }
    }

    /// The session's view of the table is consistent: whatever file it has
    /// open is present there. Holds on creation and is preserved by every
    /// operation, provided the same table is passed back in.
    pub open spec fn consistent_with(&self, files: FileStates) -> bool {
        match self.opened() {
            Option::None => true,
            Option::Some(p) => files.contains_path(p),
        }
    }

    /// A fresh session with no file open.
    pub fn new(id: u64, canonical_home: String, name: Option<String>) -> (r: Session)
        ensures
            r.sid() == id,
            r.home() == canonical_home@,
            r.display_name() == name,
            r.opened() is None,
    {
        Session { id, canonical_home, name, opened_file: Option::None }
    }

    /// The session's canonical home directory.
    pub fn canonical_home(&self) -> (r: &String)
        ensures
            r@ == self.home(),
    {
        &self.canonical_home
    }

    /// Whether some session has the file at `path` open.
    pub fn contains_file(&self, files: &FileStates, path: &String) -> (r: bool)
        requires
            files.wf(),
        ensures
            r == files.contains_path(path@),
    {
        files.contains(path)
    }

    /// Resolves a user-supplied path against this session's home.
    pub fn prepend_home(&self, path: &String) -> (r: String)
        ensures
            path@.len() > 0 && path@[0] == '/' ==> r@ == path@,
            !(path@.len() > 0 && path@[0] == '/') ==> r@ == self.home() + seq!['/'] + path@,
    {
        prepend_home(&self.canonical_home, path)
    }

    /// Authorises creating a file at the already-resolved `canonical` path:
    /// `PathEscape` exactly when it does not lie strictly under this
    /// session's home.
    pub fn check_create(&self, canonical: &String) -> (r: Result<(), EditorError>)
        ensures
            within_home(canonical@, self.home()) ==> r == Ok::<(), EditorError>(()),
            !within_home(canonical@, self.home()) ==> r == Err::<(), EditorError>(
                EditorError::PathEscape,
            ),
    {
        if path_within_home(canonical, &self.canonical_home) {
            Ok(())
        } else {
            Err(EditorError::PathEscape)
        }
    }

    /// Authorises deleting the file at the already-resolved `canonical`
    /// path: `PathEscape` when it escapes this session's home, `Busy` when
    /// any session has it open, `Ok` otherwise — only then may the file
    /// actually be removed.
    pub fn check_delete(&self, files: &FileStates, canonical: &String) -> (r: Result<
        (),
        EditorError,
    >)
        requires
            files.wf(),
        ensures
            !within_home(canonical@, self.home()) ==> r == Err::<(), EditorError>(
                EditorError::PathEscape,
            ),
            within_home(canonical@, self.home()) && files.contains_path(canonical@) ==> r == Err::<
                (),
                EditorError,
            >(EditorError::Busy),
            within_home(canonical@, self.home()) && !files.contains_path(canonical@) ==> r
                == Ok::<(), EditorError>(()),
    {
        if !path_within_home(canonical, &self.canonical_home) {
            return Err(EditorError::PathEscape);
        }
        if files.contains(canonical) {
            return Err(EditorError::Busy);
        }
        Ok(())
    }

    /// Authorises renaming the file at the already-resolved `from` path to
    /// the resolved `to` path, which the caller has checked on disk
    /// (`to_exists`): `PathEscape` when either endpoint escapes this
    /// session's home, `AlreadyExists` when the target is taken, `Busy` when
    /// any session has the source open, `Ok` otherwise — only then may the
    /// file actually be renamed.
    pub fn check_rename(
        &self,
        files: &FileStates,
        from: &String,
        to: &String,
        to_exists: bool,
    ) -> (r: Result<(), EditorError>)
        requires
            files.wf(),
        ensures
            !(within_home(from@, self.home()) && within_home(to@, self.home())) ==> r == Err::<
                (),
                EditorError,
            >(EditorError::PathEscape),
            within_home(from@, self.home()) && within_home(to@, self.home()) ==> {
                if to_exists {
                    r == Err::<(), EditorError>(EditorError::AlreadyExists)
                } else if files.contains_path(from@) {
                    r == Err::<(), EditorError>(EditorError::Busy)
                } else {
                    r == Ok::<(), EditorError>(())
                }
            },
    {
        if !path_within_home(from, &self.canonical_home) || !path_within_home(
            to,
            &self.canonical_home,
        ) {
            return Err(EditorError::PathEscape);
        }
        if to_exists {
            return Err(EditorError::AlreadyExists);
        }
        if files.contains(from) {
            return Err(EditorError::Busy);
        }
        Ok(())
    }

    /// Detaches from the currently open file, if any: the session's cursor
    /// leaves the file's state, and the file leaves the table when that
    /// cursor was the last one. Closing with no file open does nothing; the
    /// call always succeeds.
    pub fn file_close(&mut self, files: &mut FileStates) -> (r: Result<(), EditorError>)
        requires
            old(files).wf(),
            old(self).consistent_with(*old(files)),
        ensures
            final(files).wf(),
            r == Ok::<(), EditorError>(()),
            final(self).sid() == old(self).sid(),
            final(self).home() == old(self).home(),
            final(self).display_name() == old(self).display_name(),
            final(self).opened() is None,
            match old(self).opened() {
                Option::None => *final(files) == *old(files),
                Option::Some(p) => close_effect(*old(files), *final(files), p, old(self).sid())
                    && untouched_except(*old(files), *final(files), p),
            },
    {
        match self.opened_file.take() {
            Option::None => Ok(()),
            Option::Some(p) => {
                match files.close(&p, self.id) {
                    Ok(()) => Ok(()),
                    Err(e) => {
                        proof {
                            assert(false);
                        }
                        Err(e)
                    },
                }
            },
        }
    }

    /// First half of opening a file: closes whatever was open, enforces the
    /// sandbox, and reports whether the file still has to be loaded — `true`
    /// exactly when no session has it open yet, so its bytes must come from
    /// disk before `open_finish`.
    pub fn open_begin(&mut self, files: &mut FileStates, canonical_path: &String) -> (r: Result<
        bool,
        EditorError,
    >)
        requires
            old(files).wf(),
            old(self).consistent_with(*old(files)),
        ensures
            final(files).wf(),
            final(self).sid() == old(self).sid(),
            final(self).home() == old(self).home(),
            final(self).display_name() == old(self).display_name(),
            final(self).opened() is None,
            match old(self).opened() {
                Option::None => *final(files) == *old(files),
                Option::Some(p) => close_effect(*old(files), *final(files), p, old(self).sid())
                    && untouched_except(*old(files), *final(files), p),
            },
            !within_home(canonical_path@, old(self).home()) ==> r == Err::<bool, EditorError>(
                EditorError::PathEscape,
            ),
            within_home(canonical_path@, old(self).home()) ==> (r matches Ok(b) && b
                == !final(files).contains_path(canonical_path@)),
    {
        let _ = self.file_close(files);
        if !path_within_home(canonical_path, &self.canonical_home) {
            return Err(EditorError::PathEscape);
        }
        Ok(!files.contains(canonical_path))
    }

    /// Second half of opening a file: attaches this session to
    /// `canonical_path`, inserting a fresh entry holding `contents` when the
    /// file is not yet in the table (`contents` is ignored otherwise). The
    /// sandbox is enforced again, so an escaping path never reaches the
    /// table. Returns the canonical path on success.
    pub fn open_finish(
        &mut self,
        files: &mut FileStates,
        canonical_path: String,
        contents: Vec<u8>,
    ) -> (r: Result<String, EditorError>)
        requires
            old(files).wf(),
            old(self).opened() is None,
        ensures
            final(files).wf(),
            final(self).sid() == old(self).sid(),
            final(self).home() == old(self).home(),
            final(self).display_name() == old(self).display_name(),
            final(self).consistent_with(*final(files)),
            !within_home(canonical_path@, old(self).home()) ==> r == Err::<String, EditorError>(
                EditorError::PathEscape,
            ) && *final(files) == *old(files) && final(self).opened() is None,
            within_home(canonical_path@, old(self).home()) ==> {
                &&& (r matches Ok(p) && p@ == canonical_path@)
                &&& final(self).opened() == Option::Some(canonical_path@)
                &&& final(files).contains_path(canonical_path@)
                &&& has_session(final(files).state_of(canonical_path@).cursors(), old(self).sid())
                &&& untouched_except(*old(files), *final(files), canonical_path@)
                &&& (old(files).contains_path(canonical_path@) ==> {
                    &&& final(files).num_files() == old(files).num_files()
                    &&& final(files).state_of(canonical_path@).content() == old(files).state_of(
                        canonical_path@,
                    ).content()
                })
                &&& (!old(files).contains_path(canonical_path@) ==> {
                    &&& final(files).num_files() == old(files).num_files() + 1
                    &&& final(files).state_of(canonical_path@).content() == contents@
                    &&& final(files).state_of(canonical_path@).cursors() == Seq::empty().push(
                        Cursor { id: old(self).sid(), offset: 0, name: old(self).display_name() },
                    )
                })
            },
    {
        if !path_within_home(&canonical_path, &self.canonical_home) {
            return Err(EditorError::PathEscape);
        }
        let name = clone_name(&self.name);
        files.open(canonical_path.clone(), self.id, name, contents);
        let ret = canonical_path.clone();
        self.opened_file = Option::Some(canonical_path);
        Ok(ret)
    }

    /// Reads `[from, to)` from the open file. `NotOpen` without one;
    /// otherwise exactly what the table returns for it.
    pub fn file_read(&self, files: &FileStates, from: usize, to: usize) -> (r: Result<
        Vec<u8>,
        EditorError,
    >)
        requires
            files.wf(),
            self.consistent_with(*files),
        ensures
            self.opened() is None ==> r == Err::<Vec<u8>, EditorError>(EditorError::NotOpen),
            self.opened() matches Some(p) ==> {
                let content = files.state_of(p).content();
                &&& (from <= to <= content.len() ==> (r matches Ok(bytes) && bytes@
                    == content.subrange(from as int, to as int)))
                &&& (!(from <= to <= content.len()) ==> r == Err::<Vec<u8>, EditorError>(
                    EditorError::OutOfRange,
                ))
            },
    {
        match &self.opened_file {
            Option::None => Err(EditorError::NotOpen),
            Option::Some(p) => files.read(p, from, to),
        }
    }

    /// Inserts `data` at `offset` in the open file and plans the broadcast:
    /// an add-update for every other attached session. `NotOpen` without an
    /// open file, `OutOfRange` when the offset is past the end or the file
    /// would outgrow `usize`; the table is untouched on every error.
    pub fn file_write(&self, files: &mut FileStates, offset: usize, data: &[u8]) -> (r: Result<
        Broadcast,
        EditorError,
    >)
        requires
            old(files).wf(),
            self.consistent_with(*old(files)),
        ensures
            final(files).wf(),
            self.consistent_with(*final(files)),
            self.opened() is None ==> r == Err::<Broadcast, EditorError>(EditorError::NotOpen)
                && *final(files) == *old(files),
            self.opened() matches Some(p) ==> {
                let st = old(files).state_of(p);
                &&& untouched_except(*old(files), *final(files), p)
                &&& final(files).contains_path(p)
                &&& final(files).num_files() == old(files).num_files()
                &&& (offset <= st.content().len() && st.content().len() + data@.len()
                    <= usize::MAX ==> {
                    &&& (r matches Ok(b) && (b.update matches Message::UpdateMessage(
                        UpdateData::Add(u),
                    ) && u.offset == offset && u.data@ == data@) && valid_targets(
                        b.targets@,
                        st.cursors(),
                        self.sid(),
                    ))
                    &&& write_effect(st, final(files).state_of(p), offset as int, data@)
                })
                &&& (!(offset <= st.content().len() && st.content().len() + data@.len()
                    <= usize::MAX) ==> r == Err::<Broadcast, EditorError>(EditorError::OutOfRange)
                    && final(files).state_of(p) == st)
            },
    {
        let p = match &self.opened_file {
            Option::None => {
                return Err(EditorError::NotOpen);
            },
            Option::Some(p) => p,
        };
        match files.write(p, offset, data) {
            Ok(()) => {
                let targets = broadcast_targets(files, p, self.id);
                proof {
                    crate::file_state::lemma_same_ids_same_sessions(
                        files.state_of(p@).cursors(),
                        old(files).state_of(p@).cursors(),
                    );
                }
                Ok(Broadcast { update: Message::make_add_broadcast(offset, data), targets })
            },
            Err(e) => Err(e),
        }
    }

    /// Removes `[offset, offset + len)` from the open file and plans the
    /// broadcast: a remove-update for every other attached session.
    /// `NotOpen` without an open file, `OutOfRange` when the range does not
    /// fit; the table is untouched on every error.
    pub fn file_remove(&self, files: &mut FileStates, offset: usize, len: usize) -> (r: Result<
        Broadcast,
        EditorError,
    >)
        requires
            old(files).wf(),
            self.consistent_with(*old(files)),
        ensures
            final(files).wf(),
            self.consistent_with(*final(files)),
            self.opened() is None ==> r == Err::<Broadcast, EditorError>(EditorError::NotOpen)
                && *final(files) == *old(files),
            self.opened() matches Some(p) ==> {
                let st = old(files).state_of(p);
                &&& untouched_except(*old(files), *final(files), p)
                &&& final(files).contains_path(p)
                &&& final(files).num_files() == old(files).num_files()
                &&& (offset + len <= st.content().len() ==> {
                    &&& (r matches Ok(b) && (b.update matches Message::UpdateMessage(
                        UpdateData::Remove(u),
                    ) && u.offset == offset && u.len == len) && valid_targets(
                        b.targets@,
                        st.cursors(),
                        self.sid(),
                    ))
                    &&& remove_effect(st, final(files).state_of(p), offset as int, len as int)
                })
                &&& (offset + len > st.content().len() ==> r == Err::<Broadcast, EditorError>(
                    EditorError::OutOfRange,
                ) && final(files).state_of(p) == st)
            },
    {
        let p = match &self.opened_file {
            Option::None => {
                return Err(EditorError::NotOpen);
            },
            Option::Some(p) => p,
        };
        match files.remove(p, offset, len) {
            Ok(()) => {
                let targets = broadcast_targets(files, p, self.id);
                proof {
                    crate::file_state::lemma_same_ids_same_sessions(
                        files.state_of(p@).cursors(),
                        old(files).state_of(p@).cursors(),
                    );
                }
                Ok(Broadcast { update: Message::make_del_broadcast(offset, len), targets })
            },
            Err(e) => Err(e),
        }
    }

    /// Flattens the open file and hands back its canonical path together
    /// with its exact byte sequence, ready to be persisted: what lands on
    /// disk is what `read(0, len)` returns. `NotOpen` without an open file.
    pub fn file_save(&self, files: &mut FileStates) -> (r: Result<(String, Vec<u8>), EditorError>)
        requires
            old(files).wf(),
            self.consistent_with(*old(files)),
        ensures
            final(files).wf(),
            self.consistent_with(*final(files)),
            self.opened() is None ==> r == Err::<(String, Vec<u8>), EditorError>(
                EditorError::NotOpen,
            ) && *final(files) == *old(files),
            self.opened() matches Some(p) ==> {
                &&& (r matches Ok(pair) && pair.0@ == p && pair.1@ == old(files).state_of(
                    p,
                ).content())
                &&& untouched_except(*old(files), *final(files), p)
                &&& final(files).contains_path(p)
                &&& final(files).num_files() == old(files).num_files()
                &&& final(files).state_of(p).content() == old(files).state_of(p).content()
                &&& final(files).state_of(p).cursors() == old(files).state_of(p).cursors()
            },
    {
        let p = match &self.opened_file {
            Option::None => {
                return Err(EditorError::NotOpen);
            },
            Option::Some(p) => p,
        };
        match files.flush(p) {
            Ok(bytes) => Ok((p.clone(), bytes)),
            Err(e) => {
                proof {
                    assert(false);
                }
                Err(e)
            },
        }
    }

    /// Moves this session's cursor in the open file by the signed `delta`,
    /// clamped to `[0, len]`. `NotOpen` without an open file.
    pub fn move_cursor(&self, files: &mut FileStates, delta: isize) -> (r: Result<(), EditorError>)
        requires
            old(files).wf(),
            self.consistent_with(*old(files)),
        ensures
            final(files).wf(),
            self.consistent_with(*final(files)),
            self.opened() is None ==> r == Err::<(), EditorError>(EditorError::NotOpen)
                && *final(files) == *old(files),
            self.opened() matches Some(p) ==> {
                &&& r == Ok::<(), EditorError>(())
                &&& untouched_except(*old(files), *final(files), p)
                &&& final(files).contains_path(p)
                &&& final(files).num_files() == old(files).num_files()
                &&& move_effect(
                    old(files).state_of(p),
                    final(files).state_of(p),
                    self.sid(),
                    delta as int,
                )
            },
    {
        let p = match &self.opened_file {
            Option::None => {
                return Err(EditorError::NotOpen);
            },
            Option::Some(p) => p,
        };
        match files.move_cursor(p, self.id, delta) {
            Ok(()) => Ok(()),
            Err(e) => {
                proof {
                    assert(false);
                }
                Err(e)
            },
        }
    }

    /// Inserts `data` at this session's own cursor in the open file,
    /// returning the broadcast plan; the update envelope carries the offset
    /// actually written at. `NotOpen` without an open file, `UnknownSession`
    /// when the session is not attached to its own file, `OutOfRange` when
    /// the file would outgrow `usize`.
    pub fn file_write_cursor(&self, files: &mut FileStates, data: &[u8]) -> (r: Result<
        Broadcast,
        EditorError,
    >)
        requires
            old(files).wf(),
            self.consistent_with(*old(files)),
        ensures
            final(files).wf(),
            self.consistent_with(*final(files)),
            self.opened() is None ==> r == Err::<Broadcast, EditorError>(EditorError::NotOpen)
                && *final(files) == *old(files),
            self.opened() matches Some(p) ==> {
                let st = old(files).state_of(p);
                &&& untouched_except(*old(files), *final(files), p)
                &&& final(files).contains_path(p)
                &&& final(files).num_files() == old(files).num_files()
                &&& (!has_session(st.cursors(), self.sid()) ==> r == Err::<Broadcast, EditorError>(
                    EditorError::UnknownSession,
                ) && final(files).state_of(p) == st)
                &&& (has_session(st.cursors(), self.sid()) ==> {
                    let at = session_cursor(st.cursors(), self.sid()).offset;
                    if st.content().len() + data@.len() <= usize::MAX {
                        &&& (r matches Ok(b) && (b.update matches Message::UpdateMessage(
                            UpdateData::Add(u),
                        ) && u.offset == at && u.data@ == data@) && valid_targets(
                            b.targets@,
                            st.cursors(),
                            self.sid(),
                        ))
                        &&& write_effect(st, final(files).state_of(p), at as int, data@)
                    } else {
                        r == Err::<Broadcast, EditorError>(EditorError::OutOfRange)
                            && final(files).state_of(p) == st
                    }
                })
            },
    {
        let p = match &self.opened_file {
            Option::None => {
                return Err(EditorError::NotOpen);
            },
            Option::Some(p) => p,
        };
        match files.file_write_cursor(p, self.id, data) {
            Ok(at) => {
                let targets = broadcast_targets(files, p, self.id);
                proof {
                    crate::file_state::lemma_same_ids_same_sessions(
                        files.state_of(p@).cursors(),
                        old(files).state_of(p@).cursors(),
                    );
                }
                Ok(Broadcast { update: Message::make_add_broadcast(at, data), targets })
            },
            Err(e) => Err(e),
        }
    }

    /// Removes `len` bytes at this session's own cursor in the open file,
    /// returning the broadcast plan; the update envelope carries the offset
    /// actually removed at. `NotOpen` without an open file, `UnknownSession`
    /// when the session is not attached to its own file, `OutOfRange` when
    /// fewer than `len` bytes follow the cursor.
    pub fn file_remove_cursor(&self, files: &mut FileStates, len: usize) -> (r: Result<
        Broadcast,
        EditorError,
    >)
        requires
            old(files).wf(),
            self.consistent_with(*old(files)),
        ensures
            final(files).wf(),
            self.consistent_with(*final(files)),
            self.opened() is None ==> r == Err::<Broadcast, EditorError>(EditorError::NotOpen)
                && *final(files) == *old(files),
            self.opened() matches Some(p) ==> {
                let st = old(files).state_of(p);
                &&& untouched_except(*old(files), *final(files), p)
                &&& final(files).contains_path(p)
                &&& final(files).num_files() == old(files).num_files()
                &&& (!has_session(st.cursors(), self.sid()) ==> r == Err::<Broadcast, EditorError>(
                    EditorError::UnknownSession,
                ) && final(files).state_of(p) == st)
                &&& (has_session(st.cursors(), self.sid()) ==> {
                    let at = session_cursor(st.cursors(), self.sid()).offset;
                    if at + len <= st.content().len() {
                        &&& (r matches Ok(b) && (b.update matches Message::UpdateMessage(
                            UpdateData::Remove(u),
                        ) && u.offset == at && u.len == len) && valid_targets(
                            b.targets@,
                            st.cursors(),
                            self.sid(),
                        ))
                        &&& remove_effect(st, final(files).state_of(p), at as int, len as int)
                    } else {
                        r == Err::<Broadcast, EditorError>(EditorError::OutOfRange)
                            && final(files).state_of(p) == st
                    }
                })
            },
    {
        let p = match &self.opened_file {
            Option::None => {
                return Err(EditorError::NotOpen);
            },
            Option::Some(p) => p,
        };
        match files.file_remove_cursor(p, self.id, len) {
            Ok(at) => {
                let targets = broadcast_targets(files, p, self.id);
                proof {
                    crate::file_state::lemma_same_ids_same_sessions(
                        files.state_of(p@).cursors(),
                        old(files).state_of(p@).cursors(),
                    );
                }
                Ok(Broadcast { update: Message::make_del_broadcast(at, len), targets })
            },
            Err(e) => Err(e),
        }
    }

    /// This session's own cursor offset plus every other attached session's
    /// `(offset, name)` pair. `NotOpen` without an open file,
    /// `UnknownSession` when the session is not attached to its own file.
    pub fn get_cursors(&self, files: &FileStates) -> (r: Result<
        (usize, Vec<(usize, Option<String>)>),
        EditorError,
    >)
        requires
            files.wf(),
            self.consistent_with(*files),
        ensures
            self.opened() is None ==> r == Err::<
                (usize, Vec<(usize, Option<String>)>),
                EditorError,
            >(EditorError::NotOpen),
            self.opened() matches Some(p) ==> {
                let st = files.state_of(p);
                &&& (!has_session(st.cursors(), self.sid()) ==> r == Err::<
                    (usize, Vec<(usize, Option<String>)>),
                    EditorError,
                >(EditorError::UnknownSession))
                &&& (has_session(st.cursors(), self.sid()) ==> (r matches Ok(pair) && pair.0
                    == session_cursor(st.cursors(), self.sid()).offset && pair.1@ == others_view(
                    st.cursors(),
                    self.sid(),
                )))
            },
    {
        match &self.opened_file {
            Option::None => Err(EditorError::NotOpen),
            Option::Some(p) => files.get_cursors(p, self.id),
        }
    }
}

} // verus!
