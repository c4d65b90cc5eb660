//! The message vocabulary of the quiz protocol: client actions, events for
//! the host, events for a player, and the question record itself. These are
//! the plain values the verified core works on; the transport encodes and
//! decodes them at the edge of the system.

use vstd::prelude::*;

verus! {

/// A room's identifier: drawn at random from the full `u32` space when the
/// room is created.
pub type RoomId = u32;

/// One quiz question, visible in full (including the correct answer) to the
/// host side only; players are shown the choice list alone.
#[derive(Clone, Debug, PartialEq)]
pub struct Question {
    /// The prompt text.
    pub question: String,
    /// All of the valid choices.
    pub choices: Vec<String>,
    /// The index of the correct answer within `choices`.
    pub answer: usize,
    /// The maximum number of seconds for this question.
    pub time: u16,
}

/// Messages sent by a client to "do" something. The first message on a
/// connection must be `CreateRoom` (to become host) or `JoinRoom` (to become
/// player); anything else drops the connection.
#[derive(Debug, PartialEq)]
pub enum Action {
    /// Create a room with the full question list; sender becomes the host.
    CreateRoom { questions: Vec<Question> },
    /// Join an existing room under a username; sender becomes a player.
    JoinRoom { room_id: RoomId, username: String },
    /// Player only: submit the index of a choice for the active round.
    Answer { choice: usize },
    /// Host only: begin the next round.
    BeginRound,
    /// Host only: end the active round at once.
    EndRound,
}

/// Messages sent by the server to the room host.
#[derive(Debug, PartialEq)]
pub enum HostEvent {
    /// Sent after the client sends a create room message.
    RoomCreated { room_id: RoomId },
    /// Sent whenever a user joins the room.
    UserJoined { username: String },
    /// Sent whenever a user leaves the room.
    UserLeft { username: String },
    /// Sent whenever a user answers a question; duplicate answers are
    /// suppressed before this event is produced.
    UserAnswered { username: String },
    /// Sent when a new round begins, with the full question.
    RoundBegin { question: Question },
    /// Sent when the round ends: how many points each player gains. A player
    /// absent from the list answered wrong or not at all.
    RoundEnd { point_gains: Vec<(String, u32)> },
    /// Sent when there are no more questions; the connection closes after.
    GameEnd,
}

/// Messages sent by the server to a player.
#[derive(Debug, PartialEq)]
pub enum UserEvent {
    /// Sent when the user successfully joins.
    Joined,
    /// Sent when the user couldn't join.
    JoinFailed { reason: String },
    /// Sent when a new round begins; only the choices are revealed.
    RoundBegin { choices: Vec<String> },
    /// Sent when the round ends: this player's own gain, or `None` if they
    /// answered wrong or not at all.
    RoundEnd { point_gain: Option<u32> },
    /// Sent when the game is over.
    GameEnd,
}

} // verus!
