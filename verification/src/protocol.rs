//! The server's replies as the client reads them: a delivered message, a
//! long-poll result, and a room transcript. Plain data; the HTTP layer fills
//! them in.
use vstd::prelude::*;

verus! {

/// One message of a room, as the server reports it.
#[derive(Debug, Clone, PartialEq, Eq)]
pub struct MessageView {
    pub seq: u64,
    pub from: String,
    pub to: Option<String>,
    pub body: String,
    pub created_at: String,
    pub msg_type: String,
    pub severity: Option<String>,
    pub question_text: Option<String>,
}

/// The result of one long-poll `wait`.
#[derive(Debug, Clone, PartialEq, Eq)]
pub enum WaitResponse {
    /// A message was delivered.
    Message {
        message: MessageView,
        surface_to_user: bool,
        retry_after: Option<u32>,
        room_state: Option<String>,
    },
    /// The poll ended without a message; `status` says why.
    Timeout { status: String, retry_after: Option<u32> },
}

/// One participant of a room.
#[derive(Debug, Clone, PartialEq, Eq)]
pub struct ParticipantView {
    pub handle: String,
    pub nickname: Option<String>,
    pub model: String,
    pub cwd: String,
}

/// A whole room: its header, participants and messages, oldest first.
#[derive(Debug, Clone, PartialEq, Eq)]
pub struct RoomTranscript {
    pub id: String,
    pub subject: String,
    pub state: String,
    pub started_at: String,
    pub last_activity_at: String,
    pub hard_cap: u32,
    pub hard_cap_count: u32,
    pub soft_cap: u32,
    pub soft_cap_consecutive: u32,
    pub participants: Vec<ParticipantView>,
    pub messages: Vec<MessageView>,
}

} // verus!
