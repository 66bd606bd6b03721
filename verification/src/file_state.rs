//! Per-file state: one rope plus the cursors of the sessions editing it.
//!
//! Every cursor offset stays within `[0, len]` of the rope, and a mutation
//! shifts the other cursors in the same step, so no session can observe a
//! stale offset: after an insert at `o`, a cursor at `c >= o` moves to
//! `c + |data|`; after a remove of `k` bytes at `o`, a cursor at `c >= o`
//! moves to `max(o, c - k)`.

use vstd::pervasive::VecAdditionalExecFns;
use vstd::prelude::*;

use crate::error::EditorError;
use crate::rope::{spliced_in, spliced_out, Rope};

verus! {

/// One attached session: its id, its byte offset into the file, and an
/// optional display name.
pub struct Cursor {
    pub id: u64,
    pub offset: usize,
    pub name: Option<String>,
}

/// Where a cursor at `c` stands after `d` bytes were inserted at `o`.
pub open spec fn shifted_by_insert(c: int, o: int, d: int) -> int {
    if c < o {
        c
    } else {
        c + d
    }
}

/// Where a cursor at `c` stands after `k` bytes were removed at `o`: it never
/// crosses into the deleted range, collapsing to the cut point instead.
pub open spec fn shifted_by_remove(c: int, o: int, k: int) -> int {
    if c < o {
        c
    } else if c - k < o {
        o
    } else {
        c - k
    }
}

/// Where a cursor at `c` stands after moving by `delta`, clamped to
/// `[0, len]`.
pub open spec fn moved_cursor(c: int, delta: int, len: int) -> int {
    if c + delta < 0 {
        0
    } else if c + delta > len {
        len
    } else {
        c + delta
    }
}

/// No two cursors belong to the same session.
pub open spec fn ids_unique(cs: Seq<Cursor>) -> bool {
    forall|i: int, j: int| 0 <= i < j < cs.len() ==> cs[i].id != cs[j].id
}

/// Whether some cursor belongs to session `id`.
pub open spec fn has_session(cs: Seq<Cursor>, id: u64) -> bool {
    exists|i: int| 0 <= i < cs.len() && cs[i].id == id
}

/// The position of session `id`'s cursor in the list.
pub open spec fn session_index(cs: Seq<Cursor>, id: u64) -> int {
    choose|i: int| 0 <= i < cs.len() && cs[i].id == id
}

/// Session `id`'s cursor.
pub open spec fn session_cursor(cs: Seq<Cursor>, id: u64) -> Cursor {
    cs[session_index(cs, id)]
}

/// The cursors of every session other than `id`, in list order, as
/// `(offset, name)` pairs.
pub open spec fn others_view(cs: Seq<Cursor>, id: u64) -> Seq<(usize, Option<String>)>
    decreases cs.len(),
{
    if cs.len() == 0 {
        Seq::empty()
    } else if cs[0].id == id {
        others_view(cs.drop_first(), id)
    } else {
        seq![(cs[0].offset, cs[0].name)] + others_view(cs.drop_first(), id)
    }
}

/// Under unique ids, any position holding `id` is the `session_index`.
proof fn lemma_session_index_unique(cs: Seq<Cursor>, id: u64, i: int)
    requires
        ids_unique(cs),
        0 <= i < cs.len(),
        cs[i].id == id,
    ensures
        session_index(cs, id) == i,
{
    assert(has_session(cs, id));
    let j = session_index(cs, id);
    if i != j {
        if i < j {
            assert(cs[i].id != cs[j].id);
        } else {
            assert(cs[j].id != cs[i].id);
        }
    }
}

/// A copy of an optional display name.
pub fn clone_name(name: &Option<String>) -> (r: Option<String>)
    ensures
        r == *name,
{
    match name {
        Option::None => Option::None,
        Option::Some(s) => Option::Some(s.clone()),
    }
}

/// How a per-file state changes when `data` is inserted at offset `at`: the
/// bytes are spliced in and every cursor is shifted by the insert rule, with
/// ids and names untouched.
pub open spec fn write_effect(st_old: FileState, st_new: FileState, at: int, data: Seq<u8>) -> bool {
    &&& st_new.content() == spliced_in(st_old.content(), at, data)
    &&& st_new.cursors().len() == st_old.cursors().len()
    &&& forall|i: int|
        0 <= i < st_old.cursors().len() ==> {
            &&& st_new.cursors()[i].id == st_old.cursors()[i].id
            &&& st_new.cursors()[i].name == st_old.cursors()[i].name
            &&& st_new.cursors()[i].offset == shifted_by_insert(
                st_old.cursors()[i].offset as int,
                at,
                data.len() as int,
            )
        }
}

/// How a per-file state changes when `k` bytes are removed at offset `at`:
/// the range is spliced out and every cursor is shifted by the remove rule,
/// with ids and names untouched.
pub open spec fn remove_effect(st_old: FileState, st_new: FileState, at: int, k: int) -> bool {
    &&& st_new.content() == spliced_out(st_old.content(), at, at + k)
    &&& st_new.cursors().len() == st_old.cursors().len()
    &&& forall|i: int|
        0 <= i < st_old.cursors().len() ==> {
            &&& st_new.cursors()[i].id == st_old.cursors()[i].id
            &&& st_new.cursors()[i].name == st_old.cursors()[i].name
            &&& st_new.cursors()[i].offset == shifted_by_remove(
                st_old.cursors()[i].offset as int,
                at,
                k,
            )
        }
}

/// How a per-file state changes when session `id` moves its cursor by
/// `delta`: the bytes stay, the cursor is clamped to `[0, len]`, every other
/// cursor stays put.
pub open spec fn move_effect(st_old: FileState, st_new: FileState, id: u64, delta: int) -> bool {
    &&& st_new.content() == st_old.content()
    &&& st_new.cursors().len() == st_old.cursors().len()
    &&& forall|i: int|
        0 <= i < st_old.cursors().len() ==> {
            &&& st_new.cursors()[i].id == st_old.cursors()[i].id
            &&& st_new.cursors()[i].name == st_old.cursors()[i].name
            &&& st_new.cursors()[i].offset == if st_old.cursors()[i].id == id {
                moved_cursor(st_old.cursors()[i].offset as int, delta, st_old.content().len() as int)
            } else {
                st_old.cursors()[i].offset as int
            }
        }
}

/// Cursor lists that agree on their ids serve the same sessions.
pub proof fn lemma_same_ids_same_sessions(cs1: Seq<Cursor>, cs2: Seq<Cursor>)
    requires
        cs1.len() == cs2.len(),
        forall|i: int| 0 <= i < cs1.len() ==> cs1[i].id == cs2[i].id,
    ensures
        forall|t: u64| #[trigger] has_session(cs1, t) == has_session(cs2, t),
{
    assert forall|t: u64| #[trigger] has_session(cs1, t) == has_session(cs2, t) by {
        if has_session(cs1, t) {
            let i = choose|i: int| 0 <= i < cs1.len() && cs1[i].id == t;
            assert(cs2[i].id == t);
        }
        if has_session(cs2, t) {
            let i = choose|i: int| 0 <= i < cs2.len() && cs2[i].id == t;
            assert(cs1[i].id == t);
        }
    }
}

/// One open file: its rope and the cursor of every attached session.
pub struct FileState {
    rope: Rope,
    cursors: Vec<Cursor>,
}

impl FileState {
    /// The file's bytes.
    pub closed spec fn content(&self) -> Seq<u8> {
        self.rope@
    }

    /// The attached sessions' cursors, in attachment order.
    pub closed spec fn cursors(&self) -> Seq<Cursor> {
        self.cursors@
    }

    /// Well-formedness: the rope is well formed, no session appears twice,
    /// and every cursor offset is within `[0, len]`.
    pub closed spec fn wf(&self) -> bool {
        &&& self.rope.wf()
        &&& ids_unique(self.cursors@)
        &&& forall|i: int|
            0 <= i < self.cursors@.len() ==> self.cursors@[i].offset <= self.rope@.len()
    }

    /// What well-formedness guarantees about the cursors: no session appears
    /// twice and every offset is within the file.
    pub proof fn lemma_wf_cursors(&self)
        requires
            self.wf(),
        ensures
            ids_unique(self.cursors()),
            forall|i: int|
                0 <= i < self.cursors().len() ==> self.cursors()[i].offset <= self.content().len(),
    {
    }

    /// Wraps a rope with no sessions attached yet.
    pub fn new(rope: Rope) -> (r: FileState)
        requires
            rope.wf(),
        ensures
            r.wf(),
            r.content() == rope@,
            r.cursors() == Seq::<Cursor>::empty(),
    {
        FileState { rope, cursors: Vec::new() }
    }

    /// The file length in bytes.
    pub fn len(&self) -> (r: usize)
        requires
            self.wf(),
        ensures
            r == self.content().len(),
    {
        self.rope.len()
    }

    /// Finds the list position of session `id`'s cursor.
    fn find(&self, id: u64) -> (r: Option<usize>)
        requires
            self.wf(),
        ensures
            match r {
                Option::Some(i) => has_session(self.cursors(), id) && i == session_index(
                    self.cursors(),
                    id,
                ) && i < self.cursors().len(),
                Option::None => !has_session(self.cursors(), id),
            },
    {
        let mut i: usize = 0;
        while i < self.cursors.len()
            invariant
                self.wf(),
                i <= self.cursors@.len(),
                forall|j: int| 0 <= j < i ==> self.cursors@[j].id != id,
            decreases self.cursors@.len() - i,
        {
            if self.cursors[i].id == id {
                proof {
                    lemma_session_index_unique(self.cursors@, id, i as int);
                }
                return Option::Some(i);
            }
            i = i + 1;
        }
        Option::None
    }

    /// Attaches session `id` with its cursor at offset 0. If the session was
    /// already attached, its cursor is reset to 0 and its name replaced.
    pub fn add_client(&mut self, id: u64, name: Option<String>)
        requires
            old(self).wf(),
        ensures
            final(self).wf(),
            final(self).content() == old(self).content(),
            has_session(final(self).cursors(), id),
            final(self).cursors() == if has_session(old(self).cursors(), id) {
                old(self).cursors().update(
                    session_index(old(self).cursors(), id),
                    Cursor { id, offset: 0, name },
                )
            } else {
                old(self).cursors().push(Cursor { id, offset: 0, name })
            },
    {
        let fresh = Cursor { id, offset: 0, name };
        match self.find(id) {
            Option::Some(i) => {
                self.cursors.set(i, fresh);
                proof {
                    assert(has_session(self.cursors@, id)) by {
                        assert(self.cursors@[i as int].id == id);
                    }
                }
            },
            Option::None => {
                self.cursors.push(fresh);
                proof {
                    assert(has_session(self.cursors@, id)) by {
                        assert(self.cursors@[self.cursors@.len() - 1].id == id);
                    }
                }
            },
        }
    }

    /// Detaches session `id`; doing nothing if it is not attached.
    pub fn remove_client(&mut self, id: u64)
        requires
            old(self).wf(),
        ensures
            final(self).wf(),
            final(self).content() == old(self).content(),
            !has_session(final(self).cursors(), id),
            final(self).cursors() == if has_session(old(self).cursors(), id) {
                old(self).cursors().remove(session_index(old(self).cursors(), id))
            } else {
                old(self).cursors()
            },
    {
        match self.find(id) {
            Option::Some(i) => {
                let ghost prev = self.cursors@;
                self.cursors.remove(i);
                proof {
                    assert(forall|j: int|
                        0 <= j < self.cursors@.len() ==> self.cursors@[j] == if j < i as int {
                            prev[j]
                        } else {
                            prev[j + 1]
                        });
                }
            },
            Option::None => {},
        }
    }

    /// Whether no session is attached.
    pub fn no_clients(&self) -> (r: bool)
        ensures
            r == (self.cursors().len() == 0),
    {
        self.cursors.len() == 0
    }

    /// The ids of every attached session, in attachment order.
    pub fn get_clients(&self) -> (r: Vec<u64>)
        ensures
            r@.len() == self.cursors().len(),
            forall|i: int| 0 <= i < r@.len() ==> r@[i] == self.cursors()[i].id,
    {
        let mut out: Vec<u64> = Vec::new();
        let mut i: usize = 0;
        while i < self.cursors.len()
            invariant
                i <= self.cursors@.len(),
                out@.len() == i,
                forall|j: int| 0 <= j < i ==> out@[j] == self.cursors@[j].id,
            decreases self.cursors@.len() - i,
        {
            out.push(self.cursors[i].id);
            i = i + 1;
        }
        out
    }

    /// Reads the byte range `[from, to)`; `OutOfRange` exactly when the range
    /// is reversed or reaches past the end.
    pub fn read(&self, from: usize, to: usize) -> (r: Result<Vec<u8>, EditorError>)
        requires
            self.wf(),
        ensures
            from <= to <= self.content().len() ==> (r matches Ok(bytes) && bytes@
                == self.content().subrange(from as int, to as int)),
            !(from <= to <= self.content().len()) ==> r == Err::<Vec<u8>, EditorError>(
                EditorError::OutOfRange,
            ),
    {
        self.rope.collect(from, to)
    }

    /// Shifts every cursor at or after `at` right by `d`; `new_len` is the
    /// rope length after the insert, which every shifted offset stays within.
    fn shift_for_insert(&mut self, at: usize, d: usize, new_len: usize)
        requires
            ids_unique(old(self).cursors@),
            forall|i: int|
                0 <= i < old(self).cursors@.len() ==> old(self).cursors@[i].offset + d <= new_len,
        ensures
            final(self).rope == old(self).rope,
            final(self).cursors@.len() == old(self).cursors@.len(),
            forall|i: int|
                0 <= i < final(self).cursors@.len() ==> {
                    &&& final(self).cursors@[i].id == old(self).cursors@[i].id
                    &&& final(self).cursors@[i].name == old(self).cursors@[i].name
                    &&& final(self).cursors@[i].offset == shifted_by_insert(
                        old(self).cursors@[i].offset as int,
                        at as int,
                        d as int,
                    )
                },
    {
        let mut i: usize = 0;
        while i < self.cursors.len()
            invariant
                self.rope == old(self).rope,
                i <= self.cursors@.len() == old(self).cursors@.len(),
                forall|j: int|
                    0 <= j < old(self).cursors@.len() ==> old(self).cursors@[j].offset + d
                        <= new_len,
                forall|j: int| i <= j < self.cursors@.len() ==> self.cursors@[j] == old(
                    self,
                ).cursors@[j],
                forall|j: int|
                    0 <= j < i ==> {
                        &&& self.cursors@[j].id == old(self).cursors@[j].id
                        &&& self.cursors@[j].name == old(self).cursors@[j].name
                        &&& self.cursors@[j].offset == shifted_by_insert(
                            old(self).cursors@[j].offset as int,
                            at as int,
                            d as int,
                        )
                    },
            decreases self.cursors@.len() - i,
        {
            let off = self.cursors[i].offset;
            if off >= at {
                let id = self.cursors[i].id;
                let name = clone_name(&self.cursors[i].name);
                self.cursors.set(i, Cursor { id, offset: off + d, name });
            }
            i = i + 1;
        }
    }

    /// Shifts every cursor at or after `at` left by up to `k`, collapsing to
    /// the cut point `at`.
    fn shift_for_remove(&mut self, at: usize, k: usize)
        requires
            ids_unique(old(self).cursors@),
        ensures
            final(self).rope == old(self).rope,
            final(self).cursors@.len() == old(self).cursors@.len(),
            forall|i: int|
                0 <= i < final(self).cursors@.len() ==> {
                    &&& final(self).cursors@[i].id == old(self).cursors@[i].id
                    &&& final(self).cursors@[i].name == old(self).cursors@[i].name
                    &&& final(self).cursors@[i].offset == shifted_by_remove(
                        old(self).cursors@[i].offset as int,
                        at as int,
                        k as int,
                    )
                },
    {
        let mut i: usize = 0;
        while i < self.cursors.len()
            invariant
                self.rope == old(self).rope,
                i <= self.cursors@.len() == old(self).cursors@.len(),
                forall|j: int| i <= j < self.cursors@.len() ==> self.cursors@[j] == old(
                    self,
                ).cursors@[j],
                forall|j: int|
                    0 <= j < i ==> {
                        &&& self.cursors@[j].id == old(self).cursors@[j].id
                        &&& self.cursors@[j].name == old(self).cursors@[j].name
                        &&& self.cursors@[j].offset == shifted_by_remove(
                            old(self).cursors@[j].offset as int,
                            at as int,
                            k as int,
                        )
                    },
            decreases self.cursors@.len() - i,
        {
            let off = self.cursors[i].offset;
            if off >= at {
                let id = self.cursors[i].id;
                let name = clone_name(&self.cursors[i].name);
                let shifted = if off >= k && off - k >= at {
                    off - k
                } else {
                    at
                };
                self.cursors.set(i, Cursor { id, offset: shifted, name });
            }
            i = i + 1;
        }
    }

    /// Inserts `data` at byte `offset` and shifts every cursor at or after
    /// `offset` right by `|data|`. `OutOfRange` exactly when
    /// `offset > len()` or the grown length would not fit in `usize`; nothing
    /// changes then.
    pub fn write(&mut self, offset: usize, data: &[u8]) -> (r: Result<(), EditorError>)
        requires
            old(self).wf(),
        ensures
            final(self).wf(),
            offset <= old(self).content().len() && old(self).content().len() + data@.len()
                <= usize::MAX ==> {
                &&& r == Ok::<(), EditorError>(())
                &&& final(self).content() == spliced_in(old(self).content(), offset as int, data@)
                &&& final(self).cursors().len() == old(self).cursors().len()
                &&& forall|i: int|
                    0 <= i < final(self).cursors().len() ==> {
                        &&& final(self).cursors()[i].id == old(self).cursors()[i].id
                        &&& final(self).cursors()[i].name == old(self).cursors()[i].name
                        &&& final(self).cursors()[i].offset == shifted_by_insert(
                            old(self).cursors()[i].offset as int,
                            offset as int,
                            data@.len() as int,
                        )
                    }
            },
            !(offset <= old(self).content().len() && old(self).content().len() + data@.len()
                <= usize::MAX) ==> r == Err::<(), EditorError>(EditorError::OutOfRange)
                && *final(self) == *old(self),
    {
        let new_len = match self.rope.insert_at(offset, data) {
            Ok(()) => self.rope.len(),
            Err(e) => {
                return Err(e);
            },
        };
        self.shift_for_insert(offset, data.len(), new_len);
        Ok(())
    }

    /// Removes the byte range `[offset, offset + len)` and shifts every
    /// cursor at or after `offset` left, collapsing to the cut point.
    /// `OutOfRange` exactly when the range does not fit, in which case
    /// nothing changes.
    pub fn remove(&mut self, offset: usize, len: usize) -> (r: Result<(), EditorError>)
        requires
            old(self).wf(),
        ensures
            final(self).wf(),
            offset + len <= old(self).content().len() ==> {
                &&& r == Ok::<(), EditorError>(())
                &&& final(self).content() == spliced_out(
                    old(self).content(),
                    offset as int,
                    offset + len,
                )
                &&& final(self).cursors().len() == old(self).cursors().len()
                &&& forall|i: int|
                    0 <= i < final(self).cursors().len() ==> {
                        &&& final(self).cursors()[i].id == old(self).cursors()[i].id
                        &&& final(self).cursors()[i].name == old(self).cursors()[i].name
                        &&& final(self).cursors()[i].offset == shifted_by_remove(
                            old(self).cursors()[i].offset as int,
                            offset as int,
                            len as int,
                        )
                    }
            },
            offset + len > old(self).content().len() ==> r == Err::<(), EditorError>(
                EditorError::OutOfRange,
            ) && *final(self) == *old(self),
    {
        match self.rope.remove(offset, len) {
            Ok(()) => {},
            Err(e) => {
                return Err(e);
            },
        }
        self.shift_for_remove(offset, len);
        Ok(())
    }

    /// Moves session `id`'s cursor by the signed `delta`, clamped to
    /// `[0, len]`. An unknown `id` is a no-op, not an error.
    pub fn move_cursor(&mut self, id: u64, delta: isize)
        requires
            old(self).wf(),
        ensures
            final(self).wf(),
            final(self).content() == old(self).content(),
            final(self).cursors().len() == old(self).cursors().len(),
            forall|i: int|
                0 <= i < final(self).cursors().len() ==> {
                    &&& final(self).cursors()[i].id == old(self).cursors()[i].id
                    &&& final(self).cursors()[i].name == old(self).cursors()[i].name
                    &&& final(self).cursors()[i].offset == if old(self).cursors()[i].id == id {
                        moved_cursor(
                            old(self).cursors()[i].offset as int,
                            delta as int,
                            old(self).content().len() as int,
                        )
                    } else {
                        old(self).cursors()[i].offset as int
                    }
                },
    {
        let len = self.rope.len();
        match self.find(id) {
            Option::None => {},
            Option::Some(i) => {
                let off = self.cursors[i].offset;
                let target = match off.checked_add_signed(delta) {
                    Option::Some(t) => if t > len {
                        len
                    } else {
                        t
                    },
                    Option::None => if delta < 0 {
                        0
                    } else {
                        len
                    },
                };
                let cid = self.cursors[i].id;
                let name = clone_name(&self.cursors[i].name);
                self.cursors.set(i, Cursor { id: cid, offset: target, name });
                proof {
                    assert(forall|j: int|
                        0 <= j < self.cursors@.len() && j != i as int ==> self.cursors@[j] == old(
                            self,
                        ).cursors@[j]);
                    assert(forall|j: int|
                        0 <= j < self.cursors@.len() && j != i as int ==> old(
                            self,
                        ).cursors@[j].id != id) by {
                        assert(ids_unique(old(self).cursors@));
                    }
                }
            },
        }
    }

    /// Inserts `data` at session `id`'s cursor and shifts the cursors as a
    /// plain write does (the writer's own cursor ends up after the new
    /// bytes). Returns the offset written at; `UnknownSession` when `id` is
    /// not attached, `OutOfRange` when the grown length would not fit in
    /// `usize`; nothing changes on either error.
    pub fn write_at_cursor(&mut self, id: u64, data: &[u8]) -> (r: Result<usize, EditorError>)
        requires
            old(self).wf(),
        ensures
            final(self).wf(),
            !has_session(old(self).cursors(), id) ==> r == Err::<usize, EditorError>(
                EditorError::UnknownSession,
            ) && *final(self) == *old(self),
            has_session(old(self).cursors(), id) ==> {
                let at = session_cursor(old(self).cursors(), id).offset;
                if old(self).content().len() + data@.len() <= usize::MAX {
                    &&& r == Ok::<usize, EditorError>(at)
                    &&& final(self).content() == spliced_in(old(self).content(), at as int, data@)
                    &&& final(self).cursors().len() == old(self).cursors().len()
                    &&& forall|i: int|
                        0 <= i < final(self).cursors().len() ==> {
                            &&& final(self).cursors()[i].id == old(self).cursors()[i].id
                            &&& final(self).cursors()[i].name == old(self).cursors()[i].name
                            &&& final(self).cursors()[i].offset == shifted_by_insert(
                                old(self).cursors()[i].offset as int,
                                at as int,
                                data@.len() as int,
                            )
                        }
                } else {
                    r == Err::<usize, EditorError>(EditorError::OutOfRange)
                        && *final(self) == *old(self)
                }
            },
    {
        let at = match self.find(id) {
            Option::Some(i) => self.cursors[i].offset,
            Option::None => {
                return Err(EditorError::UnknownSession);
            },
        };
        match self.write(at, data) {
            Ok(()) => Ok(at),
            Err(e) => Err(e),
        }
    }

    /// Removes `len` bytes starting at session `id`'s cursor and shifts the
    /// cursors as a plain remove does (the owner's cursor stays at the cut
    /// point). Returns the offset removed at; `UnknownSession` when `id` is
    /// not attached, `OutOfRange` when fewer than `len` bytes follow the
    /// cursor; nothing changes on either error.
    pub fn remove_at_cursor(&mut self, id: u64, len: usize) -> (r: Result<usize, EditorError>)
        requires
            old(self).wf(),
        ensures
            final(self).wf(),
            !has_session(old(self).cursors(), id) ==> r == Err::<usize, EditorError>(
                EditorError::UnknownSession,
            ) && *final(self) == *old(self),
            has_session(old(self).cursors(), id) ==> {
                let at = session_cursor(old(self).cursors(), id).offset;
                if at + len <= old(self).content().len() {
                    &&& r == Ok::<usize, EditorError>(at)
                    &&& final(self).content() == spliced_out(
                        old(self).content(),
                        at as int,
                        at + len,
                    )
                    &&& final(self).cursors().len() == old(self).cursors().len()
                    &&& forall|i: int|
                        0 <= i < final(self).cursors().len() ==> {
                            &&& final(self).cursors()[i].id == old(self).cursors()[i].id
                            &&& final(self).cursors()[i].name == old(self).cursors()[i].name
                            &&& final(self).cursors()[i].offset == shifted_by_remove(
                                old(self).cursors()[i].offset as int,
                                at as int,
                                len as int,
                            )
                        }
                } else {
                    r == Err::<usize, EditorError>(EditorError::OutOfRange) && *final(self) == *old(
                        self,
                    )
                }
            },
    {
        let at = match self.find(id) {
            Option::Some(i) => self.cursors[i].offset,
            Option::None => {
                return Err(EditorError::UnknownSession);
            },
        };
        match self.remove(at, len) {
            Ok(()) => Ok(at),
            Err(e) => Err(e),
        }
    }

    /// Session `id`'s own offset together with every other session's
    /// `(offset, name)` pair, in attachment order. `UnknownSession` when `id`
    /// is not attached.
    pub fn get_cursors(&self, id: u64) -> (r: Result<
        (usize, Vec<(usize, Option<String>)>),
        EditorError,
    >)
        requires
            self.wf(),
        ensures
            !has_session(self.cursors(), id) ==> r == Err::<
                (usize, Vec<(usize, Option<String>)>),
                EditorError,
            >(EditorError::UnknownSession),
            has_session(self.cursors(), id) ==> (r matches Ok(pair) && pair.0 == session_cursor(
                self.cursors(),
                id,
            ).offset && pair.1@ == others_view(self.cursors(), id)),
    {
        let own = match self.find(id) {
            Option::Some(i) => self.cursors[i].offset,
            Option::None => {
                return Err(EditorError::UnknownSession);
            },
        };
        let mut others: Vec<(usize, Option<String>)> = Vec::new();
        let mut i: usize = 0;
        proof {
            assert(self.cursors@.subrange(0, self.cursors@.len() as int) =~= self.cursors@);
        }
        while i < self.cursors.len()
            invariant
                self.wf(),
                i <= self.cursors@.len(),
                others_view(self.cursors@, id) == others@ + others_view(
                    self.cursors@.subrange(i as int, self.cursors@.len() as int),
                    id,
                ),
            decreases self.cursors@.len() - i,
        {
            let ghost tail = self.cursors@.subrange(i as int, self.cursors@.len() as int);
            proof {
                assert(tail[0] == self.cursors@[i as int]);
                assert(tail.drop_first() =~= self.cursors@.subrange(
                    i as int + 1,
                    self.cursors@.len() as int,
                ));
            }
            if self.cursors[i].id != id {
                let entry = (self.cursors[i].offset, clone_name(&self.cursors[i].name));
                others.push(entry);
                proof {
                    assert(others_view(tail, id) == seq![
                        (self.cursors@[i as int].offset, self.cursors@[i as int].name),
                    ] + others_view(tail.drop_first(), id));
                    assert(others@ == (others@.drop_last()).push(entry));
                    assert((others@.drop_last()).push(entry) + others_view(
                        tail.drop_first(),
                        id,
                    ) =~= others@.drop_last() + others_view(tail, id));
                }
            }
            i = i + 1;
        }
        proof {
            assert(self.cursors@.subrange(
                self.cursors@.len() as int,
                self.cursors@.len() as int,
            ) =~= Seq::<Cursor>::empty());
            assert(others@ + Seq::<(usize, Option<String>)>::empty() =~= others@);
        }
        Ok((own, others))
    }

    /// Collapses the rope into a single leaf; bytes and cursors are
    /// unchanged.
    pub fn flatten(&mut self)
        requires
            old(self).wf(),
        ensures
            final(self).wf(),
            final(self).content() == old(self).content(),
            final(self).cursors() == old(self).cursors(),
    {
        self.rope.flatten();
    }
}

/// Cursor shift, spelled out: after another session writes `d` bytes at
/// offset `o`, a cursor at `c` stays at `c` when `c < o` and moves to
/// `c + d` otherwise; after a removal of `k` bytes at `o`, it stays at `c`
/// when `c < o` and moves to `max(o, c - k)` otherwise.
pub proof fn lemma_cursor_shift(c: int, o: int, d: int, k: int)
    requires
        0 <= c,
        0 <= o,
        0 <= d,
        0 <= k,
    ensures
        c < o ==> shifted_by_insert(c, o, d) == c,
        c >= o ==> shifted_by_insert(c, o, d) == c + d,
        c < o ==> shifted_by_remove(c, o, k) == c,
        c >= o ==> shifted_by_remove(c, o, k) == if c - k > o {
            c - k
        } else {
            o
        },
{
}

} // verus!
