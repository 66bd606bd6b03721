//! Server core of a collaborative plaintext editor.
//!
//! Each open file lives in memory as a rope: a binary tree of byte runs that
//! supports splicing far from the edges. A file table maps canonical paths to
//! ropes together with the cursors of the sessions editing them, and each
//! session dispatches framed requests against that table, producing replies
//! and broadcast updates for its peers. All of the state manipulation is
//! verified; sockets, disk access and locking live with the caller.

pub mod error;
pub mod file_state;
pub mod file_states;
pub mod message;
pub mod rope;
pub mod session;

pub use error::EditorError;
pub use file_state::FileState;
pub use file_states::FileStates;
pub use message::Message;
pub use rope::Rope;
pub use session::Session;
