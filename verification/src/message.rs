//! The message taxonomy: one tagged request or response per frame.
//!
//! The framing and the serialisation envelope are the caller's business; only
//! the taxonomy and the dispatch semantics live here.

use vstd::prelude::*;

use crate::error::EditorError;
use crate::file_state::{has_session, move_effect, others_view, remove_effect, session_cursor,
    write_effect};
use crate::file_states::{close_effect, untouched_except, FileStates};
use crate::session::{valid_targets, Broadcast, Session};

verus! {

#[derive(Debug, PartialEq, Eq)]
pub enum CreateResult {
    Okay,
    Error(String),
}

#[derive(Debug, PartialEq, Eq)]
pub enum DeleteResult {
    Okay,
    Error(String),
}

#[derive(Debug, PartialEq, Eq)]
pub struct RenameReqData {
    pub from: String,
    pub to: String,
}

#[derive(Debug, PartialEq, Eq)]
pub enum RenameResult {
    Okay,
    Error(String),
}

#[derive(Debug, PartialEq, Eq)]
pub enum OpenResult {
    Okay(String),
    Error(String),
}

#[derive(Debug, PartialEq, Eq)]
pub enum CloseResult {
    Okay,
    Error(String),
}

#[derive(Debug, PartialEq, Eq)]
pub struct WriteReqData {
    pub offset: usize,
    pub data: Vec<u8>,
}

#[derive(Debug, PartialEq, Eq)]
pub enum WriteResult {
    Okay,
    Error(String),
}

#[derive(Debug, PartialEq, Eq)]
pub struct UpdateAdd {
    pub offset: usize,
    pub data: Vec<u8>,
}

#[derive(Debug, PartialEq, Eq)]
pub struct UpdateRemove {
    pub offset: usize,
    pub len: usize,
}

#[derive(Debug, PartialEq, Eq)]
pub enum UpdateData {
    Add(UpdateAdd),
    Remove(UpdateRemove),
}

#[derive(Debug, PartialEq, Eq)]
pub struct ReadReqData {
    pub offset: usize,
    pub len: usize,
}

#[derive(Debug, PartialEq, Eq)]
pub enum ReadResult {
    Okay(Vec<u8>),
    Error(String),
}

#[derive(Debug, PartialEq, Eq)]
pub struct RemoveReqData {
    pub offset: usize,
    pub len: usize,
}

#[derive(Debug, PartialEq, Eq)]
pub enum RemoveResult {
    Okay,
    Error(String),
}

#[derive(Debug, PartialEq, Eq)]
pub enum SaveResult {
    Okay,
    Error(String),
}

#[derive(Debug, PartialEq, Eq)]
pub enum FilesListResult {
    Okay(Vec<String>),
    Error(String),
}

#[derive(Debug, PartialEq, Eq)]
pub enum MoveCursorResult {
    Okay,
    Error(String),
}

#[derive(Debug, PartialEq, Eq)]
pub struct WriteAtCursorReqData {
    pub data: Vec<u8>,
}

#[derive(Debug, PartialEq, Eq)]
pub enum WriteAtCursorResult {
    Okay,
    Error(String),
}

#[derive(Debug, PartialEq, Eq)]
pub struct RemoveAtCursorReqData {
    pub len: usize,
}

#[derive(Debug, PartialEq, Eq)]
pub enum RemoveAtCursorResult {
    Okay,
    Error(String),
}

#[derive(Debug, PartialEq, Eq)]
pub enum GetCursorsResult {
    Okay((usize, Vec<(usize, Option<String>)>)),
    Error(String),
}

/// One frame on the wire: a request from the client, the matching response,
/// or an unsolicited update broadcast to a peer.
#[derive(Debug, PartialEq, Eq)]
pub enum Message {
    Invalid,
    Echo(Vec<u8>),
    CreateReq(String),
    CreateResp(CreateResult),
    DeleteReq(String),
    DeleteResp(DeleteResult),
    RenameReq(RenameReqData),
    RenameResp(RenameResult),
    OpenReq(String),
    OpenResp(OpenResult),
    CloseReq,
    CloseResp(CloseResult),
    WriteReq(WriteReqData),
    WriteResp(WriteResult),
    UpdateMessage(UpdateData),
    ReadReq(ReadReqData),
    ReadResp(ReadResult),
    RemoveReq(RemoveReqData),
    RemoveResp(RemoveResult),
    SaveReq,
    SaveResp(SaveResult),
    FilesListReq,
    FilesListResp(FilesListResult),
    MoveCursor(isize),
    MoveCursorResp(MoveCursorResult),
    WriteAtCursorReq(WriteAtCursorReqData),
    WriteAtCursorResp(WriteAtCursorResult),
    RemoveAtCursorReq(RemoveAtCursorReqData),
    RemoveAtCursorResp(RemoveAtCursorResult),
    GetCursorsReq,
    GetCursorsResp(GetCursorsResult),
}

impl Message {
    /// The update envelope telling a peer that `data` was inserted at
    /// `offset` in the file it has open.
    pub fn make_add_broadcast(offset: usize, data: &[u8]) -> (r: Message)
        ensures
            r matches Message::UpdateMessage(UpdateData::Add(u)) && u.offset == offset && u.data@
                == data@,
    {
        Message::UpdateMessage(
            UpdateData::Add(UpdateAdd { offset, data: vstd::slice::slice_to_vec(data) }),
        )
    }

    /// The update envelope telling a peer that `len` bytes were deleted at
    /// `offset` in the file it has open.
    pub fn make_del_broadcast(offset: usize, len: usize) -> (r: Message)
        ensures
            r == Message::UpdateMessage(UpdateData::Remove(UpdateRemove { offset, len })),
    {
        Message::UpdateMessage(UpdateData::Remove(UpdateRemove { offset, len }))
    }
}

/// Filesystem work that the dispatcher leaves to its caller: everything else
/// about the request was decided in memory, but this part touches the disk
/// or the directory listing. The caller performs it (consulting the
/// session's `check_create` / `check_delete` / `check_rename` and
/// `open_begin` / `open_finish` for the path-level decisions) and wraps the
/// outcome in the matching response.
pub enum IoRequest {
    /// Create a brand-new file under the raw, user-supplied name.
    Create(String),
    /// Delete the file under the raw, user-supplied name.
    Delete(String),
    /// Rename the first raw name to the second.
    Rename(String, String),
    /// Open the file under the raw, user-supplied name.
    Open(String),
    /// Persist exactly these bytes at this canonical path.
    Store(String, Vec<u8>),
    /// List the file names in the session's home directory.
    ListDir,
}

/// What one dispatched request amounts to: a reply alone, a reply plus a
/// broadcast owed to the other sessions on the same file, or filesystem work
/// for the caller.
pub enum ProcessOutcome {
    /// Send this reply; the flag asks the session worker to exit afterwards.
    Reply(Message, bool),
    /// Send the reply, then the broadcast's update to each of its targets.
    ReplyBroadcast(Message, Broadcast),
    /// Perform the filesystem work, then reply with its outcome.
    Io(IoRequest),
}

/// The messages a client may send as requests; anything else dispatches to
/// an `Invalid` reply that ends the session.
pub open spec fn is_request(m: Message) -> bool {
    ||| m is Echo
    ||| m is CreateReq
    ||| m is DeleteReq
    ||| m is RenameReq
    ||| m is OpenReq
    ||| m is CloseReq
    ||| m is WriteReq
    ||| m is ReadReq
    ||| m is RemoveReq
    ||| m is SaveReq
    ||| m is FilesListReq
    ||| m is MoveCursor
    ||| m is WriteAtCursorReq
    ||| m is RemoveAtCursorReq
    ||| m is GetCursorsReq
}

impl Message {
    /// Dispatches one inbound request against the session's state and the
    /// shared file table: every in-memory decision — bounds, sandbox
    /// readiness, cursor arithmetic, broadcast fan-out — happens here, and
    /// only genuine filesystem work is handed back as an `IoRequest`.
    pub fn process(self, session: &mut Session, files: &mut FileStates) -> (r: ProcessOutcome)
        requires
            old(files).wf(),
            old(session).consistent_with(*old(files)),
        ensures
            final(files).wf(),
            final(session).consistent_with(*final(files)),
            final(session).sid() == old(session).sid(),
            final(session).home() == old(session).home(),
            final(session).display_name() == old(session).display_name(),
            !(self is CloseReq) ==> *final(session) == *old(session),
            self matches Message::Echo(bytes) ==> r == ProcessOutcome::Reply(
                Message::Echo(bytes),
                false,
            ) && *final(files) == *old(files),
            self matches Message::CreateReq(name) ==> r == ProcessOutcome::Io(
                IoRequest::Create(name),
            ) && *final(files) == *old(files),
            self matches Message::DeleteReq(name) ==> r == ProcessOutcome::Io(
                IoRequest::Delete(name),
            ) && *final(files) == *old(files),
            self matches Message::RenameReq(d) ==> r == ProcessOutcome::Io(
                IoRequest::Rename(d.from, d.to),
            ) && *final(files) == *old(files),
            self matches Message::OpenReq(name) ==> r == ProcessOutcome::Io(IoRequest::Open(name))
                && *final(files) == *old(files),
            self is CloseReq ==> {
                &&& r == ProcessOutcome::Reply(Message::CloseResp(CloseResult::Okay), false)
                &&& final(session).opened() is None
                &&& match old(session).opened() {
                    Option::None => *final(files) == *old(files),
                    Option::Some(p) => close_effect(
                        *old(files),
                        *final(files),
                        p,
                        old(session).sid(),
                    ) && untouched_except(*old(files), *final(files), p),
                }
            },
            self matches Message::WriteReq(d) ==> {
                &&& old(session).opened() is None ==> (r matches ProcessOutcome::Reply(m, false)
                    && (m matches Message::WriteResp(WriteResult::Error(s)) && s@
                    == EditorError::NotOpen.spec_message()) && *final(files) == *old(files))
                &&& old(session).opened() matches Some(p) ==> {
                    let st = old(files).state_of(p);
                    &&& untouched_except(*old(files), *final(files), p)
                    &&& final(files).contains_path(p)
                    &&& (d.offset <= st.content().len() && st.content().len() + d.data@.len()
                        <= usize::MAX ==> (r matches ProcessOutcome::ReplyBroadcast(m, b) && m
                        == Message::WriteResp(WriteResult::Okay) && (b.update
                        matches Message::UpdateMessage(UpdateData::Add(u)) && u.offset == d.offset
                        && u.data@ == d.data@) && valid_targets(
                        b.targets@,
                        st.cursors(),
                        old(session).sid(),
                    ) && write_effect(st, final(files).state_of(p), d.offset as int, d.data@)))
                    &&& (!(d.offset <= st.content().len() && st.content().len() + d.data@.len()
                        <= usize::MAX) ==> (r matches ProcessOutcome::Reply(m, false) && (m
                        matches Message::WriteResp(WriteResult::Error(s)) && s@
                        == EditorError::OutOfRange.spec_message()) && final(files).state_of(p)
                        == st))
                }
            },
            self matches Message::ReadReq(d) ==> {
                &&& *final(files) == *old(files)
                &&& (d.offset + d.len > usize::MAX ==> (r matches ProcessOutcome::Reply(m, false)
                    && (m matches Message::ReadResp(ReadResult::Error(s)) && s@
                    == EditorError::OutOfRange.spec_message())))
                &&& (d.offset + d.len <= usize::MAX ==> {
                    &&& old(session).opened() is None ==> (r matches ProcessOutcome::Reply(
                        m,
                        false,
                    ) && (m matches Message::ReadResp(ReadResult::Error(s)) && s@
                        == EditorError::NotOpen.spec_message()))
                    &&& old(session).opened() matches Some(p) ==> {
                        let content = old(files).state_of(p).content();
                        &&& (d.offset + d.len <= content.len() ==> (r
                            matches ProcessOutcome::Reply(m, false) && (m
                            matches Message::ReadResp(ReadResult::Okay(bytes)) && bytes@
                            == content.subrange(d.offset as int, d.offset + d.len))))
                        &&& (d.offset + d.len > content.len() ==> (r
                            matches ProcessOutcome::Reply(m, false) && (m
                            matches Message::ReadResp(ReadResult::Error(s)) && s@
                            == EditorError::OutOfRange.spec_message())))
                    }
                })
            },
            self matches Message::RemoveReq(d) ==> {
                &&& old(session).opened() is None ==> (r matches ProcessOutcome::Reply(m, false)
                    && (m matches Message::RemoveResp(RemoveResult::Error(s)) && s@
                    == EditorError::NotOpen.spec_message()) && *final(files) == *old(files))
                &&& old(session).opened() matches Some(p) ==> {
                    let st = old(files).state_of(p);
                    &&& untouched_except(*old(files), *final(files), p)
                    &&& final(files).contains_path(p)
                    &&& (d.offset + d.len <= st.content().len() ==> (r
                        matches ProcessOutcome::ReplyBroadcast(m, b) && m == Message::RemoveResp(
                        RemoveResult::Okay,
                    ) && (b.update matches Message::UpdateMessage(UpdateData::Remove(u)) && u.offset
                        == d.offset && u.len == d.len) && valid_targets(
                        b.targets@,
                        st.cursors(),
                        old(session).sid(),
                    ) && remove_effect(st, final(files).state_of(p), d.offset as int, d.len as int)))
                    &&& (d.offset + d.len > st.content().len() ==> (r
                        matches ProcessOutcome::Reply(m, false) && (m matches Message::RemoveResp(
                        RemoveResult::Error(s),
                    ) && s@ == EditorError::OutOfRange.spec_message()) && final(files).state_of(p)
                        == st))
                }
            },
            self is SaveReq ==> {
                &&& old(session).opened() is None ==> (r matches ProcessOutcome::Reply(m, false)
                    && (m matches Message::SaveResp(SaveResult::Error(s)) && s@
                    == EditorError::NotOpen.spec_message()) && *final(files) == *old(files))
                &&& old(session).opened() matches Some(p) ==> {
                    &&& (r matches ProcessOutcome::Io(IoRequest::Store(sp, bytes)) && sp@ == p
                        && bytes@ == old(files).state_of(p).content())
                    &&& untouched_except(*old(files), *final(files), p)
                    &&& final(files).contains_path(p)
                    &&& final(files).state_of(p).content() == old(files).state_of(p).content()
                    &&& final(files).state_of(p).cursors() == old(files).state_of(p).cursors()
                }
            },
            self is FilesListReq ==> r == ProcessOutcome::Io(IoRequest::ListDir) && *final(files)
                == *old(files),
            self matches Message::MoveCursor(delta) ==> {
                &&& old(session).opened() is None ==> (r matches ProcessOutcome::Reply(m, false)
                    && (m matches Message::MoveCursorResp(MoveCursorResult::Error(s)) && s@
                    == EditorError::NotOpen.spec_message()) && *final(files) == *old(files))
                &&& old(session).opened() matches Some(p) ==> {
                    &&& r == ProcessOutcome::Reply(
                        Message::MoveCursorResp(MoveCursorResult::Okay),
                        false,
                    )
                    &&& untouched_except(*old(files), *final(files), p)
                    &&& final(files).contains_path(p)
                    &&& move_effect(
                        old(files).state_of(p),
                        final(files).state_of(p),
                        old(session).sid(),
                        delta as int,
                    )
                }
            },
            self matches Message::WriteAtCursorReq(d) ==> {
                &&& old(session).opened() is None ==> (r matches ProcessOutcome::Reply(m, false)
                    && (m matches Message::WriteAtCursorResp(WriteAtCursorResult::Error(s)) && s@
                    == EditorError::NotOpen.spec_message()) && *final(files) == *old(files))
                &&& old(session).opened() matches Some(p) ==> {
                    let st = old(files).state_of(p);
                    &&& untouched_except(*old(files), *final(files), p)
                    &&& final(files).contains_path(p)
                    &&& (!has_session(st.cursors(), old(session).sid()) ==> (r
                        matches ProcessOutcome::Reply(m, false) && (m
                        matches Message::WriteAtCursorResp(WriteAtCursorResult::Error(s)) && s@
                        == EditorError::UnknownSession.spec_message()) && final(files).state_of(p)
                        == st))
                    &&& (has_session(st.cursors(), old(session).sid()) ==> {
                        let at = session_cursor(st.cursors(), old(session).sid()).offset;
                        &&& (st.content().len() + d.data@.len() <= usize::MAX ==> (r
                            matches ProcessOutcome::ReplyBroadcast(m, b) && m
                            == Message::WriteAtCursorResp(WriteAtCursorResult::Okay) && (b.update
                            matches Message::UpdateMessage(UpdateData::Add(u)) && u.offset == at
                            && u.data@ == d.data@) && valid_targets(
                            b.targets@,
                            st.cursors(),
                            old(session).sid(),
                        ) && write_effect(st, final(files).state_of(p), at as int, d.data@)))
                        &&& (st.content().len() + d.data@.len() > usize::MAX ==> (r
                            matches ProcessOutcome::Reply(m, false) && (m
                            matches Message::WriteAtCursorResp(WriteAtCursorResult::Error(s)) && s@
                            == EditorError::OutOfRange.spec_message()) && final(files).state_of(p)
                            == st))
                    })
                }
            },
            self matches Message::RemoveAtCursorReq(d) ==> {
                &&& old(session).opened() is None ==> (r matches ProcessOutcome::Reply(m, false)
                    && (m matches Message::RemoveAtCursorResp(RemoveAtCursorResult::Error(s)) && s@
                    == EditorError::NotOpen.spec_message()) && *final(files) == *old(files))
                &&& old(session).opened() matches Some(p) ==> {
                    let st = old(files).state_of(p);
                    &&& untouched_except(*old(files), *final(files), p)
                    &&& final(files).contains_path(p)
                    &&& (!has_session(st.cursors(), old(session).sid()) ==> (r
                        matches ProcessOutcome::Reply(m, false) && (m
                        matches Message::RemoveAtCursorResp(RemoveAtCursorResult::Error(s)) && s@
                        == EditorError::UnknownSession.spec_message()) && final(files).state_of(p)
                        == st))
                    &&& (has_session(st.cursors(), old(session).sid()) ==> {
                        let at = session_cursor(st.cursors(), old(session).sid()).offset;
                        &&& (at + d.len <= st.content().len() ==> (r
                            matches ProcessOutcome::ReplyBroadcast(m, b) && m
                            == Message::RemoveAtCursorResp(RemoveAtCursorResult::Okay) && (b.update
                            matches Message::UpdateMessage(UpdateData::Remove(u)) && u.offset == at
                            && u.len == d.len) && valid_targets(
                            b.targets@,
                            st.cursors(),
                            old(session).sid(),
                        ) && remove_effect(st, final(files).state_of(p), at as int, d.len as int)))
                        &&& (at + d.len > st.content().len() ==> (r
                            matches ProcessOutcome::Reply(m, false) && (m
                            matches Message::RemoveAtCursorResp(RemoveAtCursorResult::Error(s))
                            && s@ == EditorError::OutOfRange.spec_message())
                            && final(files).state_of(p) == st))
                    })
                }
            },
            self is GetCursorsReq ==> {
                &&& *final(files) == *old(files)
                &&& (old(session).opened() is None ==> (r matches ProcessOutcome::Reply(m, false)
                    && (m matches Message::GetCursorsResp(GetCursorsResult::Error(s)) && s@
                    == EditorError::NotOpen.spec_message())))
                &&& (old(session).opened() matches Some(p) ==> {
                    let st = old(files).state_of(p);
                    &&& (!has_session(st.cursors(), old(session).sid()) ==> (r
                        matches ProcessOutcome::Reply(m, false) && (m
                        matches Message::GetCursorsResp(GetCursorsResult::Error(s)) && s@
                        == EditorError::UnknownSession.spec_message())))
                    &&& (has_session(st.cursors(), old(session).sid()) ==> (r
                        matches ProcessOutcome::Reply(m, false) && (m
                        matches Message::GetCursorsResp(GetCursorsResult::Okay(pair)) && pair.0
                        == session_cursor(st.cursors(), old(session).sid()).offset && pair.1@
                        == others_view(st.cursors(), old(session).sid()))))
                })
            },
            !is_request(self) ==> r == ProcessOutcome::Reply(Message::Invalid, true)
                && *final(files) == *old(files),
    {
        match self {
            Message::Echo(inner) => ProcessOutcome::Reply(Message::Echo(inner), false),
            Message::CreateReq(inner) => ProcessOutcome::Io(IoRequest::Create(inner)),
            Message::DeleteReq(inner) => ProcessOutcome::Io(IoRequest::Delete(inner)),
            Message::RenameReq(inner) => ProcessOutcome::Io(
                IoRequest::Rename(inner.from, inner.to),
            ),
            Message::OpenReq(inner) => ProcessOutcome::Io(IoRequest::Open(inner)),
            Message::CloseReq => {
                let _ = session.file_close(files);
                ProcessOutcome::Reply(Message::CloseResp(CloseResult::Okay), false)
            },
            Message::WriteReq(inner) => {
                match session.file_write(files, inner.offset, inner.data.as_slice()) {
                    Ok(b) => ProcessOutcome::ReplyBroadcast(
                        Message::WriteResp(WriteResult::Okay),
                        b,
                    ),
                    Err(e) => ProcessOutcome::Reply(
                        Message::WriteResp(WriteResult::Error(e.message())),
                        false,
                    ),
                }
            },
            Message::ReadReq(inner) => {
                let read_to = match inner.offset.checked_add(inner.len) {
                    Option::Some(t) => t,
                    Option::None => {
                        return ProcessOutcome::Reply(
                            Message::ReadResp(ReadResult::Error(EditorError::OutOfRange.message())),
                            false,
                        );
                    },
                };
                match session.file_read(files, inner.offset, read_to) {
                    Ok(data) => ProcessOutcome::Reply(
                        Message::ReadResp(ReadResult::Okay(data)),
                        false,
                    ),
                    Err(e) => ProcessOutcome::Reply(
                        Message::ReadResp(ReadResult::Error(e.message())),
                        false,
                    ),
                }
            },
            Message::RemoveReq(inner) => {
                match session.file_remove(files, inner.offset, inner.len) {
                    Ok(b) => ProcessOutcome::ReplyBroadcast(
                        Message::RemoveResp(RemoveResult::Okay),
                        b,
                    ),
                    Err(e) => ProcessOutcome::Reply(
                        Message::RemoveResp(RemoveResult::Error(e.message())),
                        false,
                    ),
                }
            },
            Message::SaveReq => {
                match session.file_save(files) {
                    Ok((path, bytes)) => ProcessOutcome::Io(IoRequest::Store(path, bytes)),
                    Err(e) => ProcessOutcome::Reply(
                        Message::SaveResp(SaveResult::Error(e.message())),
                        false,
                    ),
                }
            },
            Message::FilesListReq => ProcessOutcome::Io(IoRequest::ListDir),
            Message::MoveCursor(inner) => {
                match session.move_cursor(files, inner) {
                    Ok(()) => ProcessOutcome::Reply(
                        Message::MoveCursorResp(MoveCursorResult::Okay),
                        false,
                    ),
                    Err(e) => ProcessOutcome::Reply(
                        Message::MoveCursorResp(MoveCursorResult::Error(e.message())),
                        false,
                    ),
                }
            },
            Message::WriteAtCursorReq(inner) => {
                match session.file_write_cursor(files, inner.data.as_slice()) {
                    Ok(b) => ProcessOutcome::ReplyBroadcast(
                        Message::WriteAtCursorResp(WriteAtCursorResult::Okay),
                        b,
                    ),
                    Err(e) => ProcessOutcome::Reply(
                        Message::WriteAtCursorResp(WriteAtCursorResult::Error(e.message())),
                        false,
                    ),
                }
            },
            Message::RemoveAtCursorReq(inner) => {
                match session.file_remove_cursor(files, inner.len) {
                    Ok(b) => ProcessOutcome::ReplyBroadcast(
                        Message::RemoveAtCursorResp(RemoveAtCursorResult::Okay),
                        b,
                    ),
                    Err(e) => ProcessOutcome::Reply(
                        Message::RemoveAtCursorResp(RemoveAtCursorResult::Error(e.message())),
                        false,
                    ),
                }
            },
            Message::GetCursorsReq => {
                match session.get_cursors(files) {
                    Ok(cursors) => ProcessOutcome::Reply(
                        Message::GetCursorsResp(GetCursorsResult::Okay(cursors)),
                        false,
                    ),
                    Err(e) => ProcessOutcome::Reply(
                        Message::GetCursorsResp(GetCursorsResult::Error(e.message())),
                        false,
                    ),
                }
            },
            _ => ProcessOutcome::Reply(Message::Invalid, true),
        }
    }
}

} // verus!
