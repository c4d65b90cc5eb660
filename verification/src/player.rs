//! Per-player session decisions: how a connection's first message is
//! routed, how the outbound relay translates broadcast room state into what
//! one player is shown, how the inbound relay filters a player's messages
//! into the room's answer queue, and the two join rejections.

use vstd::prelude::*;

use crate::api::{Action, Question, RoomId, UserEvent};
use crate::names::clone_names;
use crate::state::{GameEvent, PlayerAnswer};

verus! {

/// The gain credited to `name`, if any: the value paired with the first
/// occurrence of `name` in the gains list (the host loop credits each name
/// at most once per round).
pub open spec fn gain_of(gains: Seq<(Seq<char>, u32)>, name: Seq<char>) -> Option<u32>
    decreases gains.len(),
{
    if gains.len() == 0 {
        None
    } else if gains[0].0 == name {
        Some(gains[0].1)
    } else {
        gain_of(gains.drop_first(), name)
    }
}

/// Looks a player's own gain up in a round's gains list.
fn lookup_gain(gains: &Vec<(String, u32)>, name: &String) -> (r: Option<u32>)
    ensures
        r == gain_of(gains.deep_view(), name@),
{
    let ghost dv = gains.deep_view();
    proof {
        assert(dv.skip(0) =~= dv);
    }
    let mut i: usize = 0;
    while i < gains.len()
        invariant
            i <= gains.len(),
            dv == gains.deep_view(),
            gain_of(dv, name@) == gain_of(dv.skip(i as int), name@),
        decreases gains.len() - i,
    {
        if gains[i].0 == *name {
            proof {
                assert(dv.skip(i as int)[0] == dv[i as int]);
                assert(dv[i as int].0 == name@);
            }
            return Some(gains[i].1);
        }
        proof {
            assert(dv.skip(i as int)[0] == dv[i as int]);
            assert(dv.skip(i as int).drop_first() =~= dv.skip(i as int + 1));
        }
        i += 1;
    }
    proof {
        assert(dv.skip(dv.len() as int).len() == 0);
    }
    None
}

/// What the outbound relay does with one observed room state.
#[derive(Debug)]
pub enum PlayerStep {
    /// Nothing to send (the lobby marker).
    Stay,
    /// Send this event and keep watching.
    Send { event: UserEvent },
    /// Send this event, then close the connection: the game is over.
    SendAndClose { event: UserEvent },
}

/// Translates one broadcast room state into what the named player is shown:
/// a beginning round reveals only the choice list; a resolved round reveals
/// only this player's own gain, or its absence; the game end is forwarded
/// and ends the session; the lobby marker is silent.
pub fn on_game_event(event: &GameEvent, username: &String) -> (step: PlayerStep)
    ensures
        event is InLobby ==> step == PlayerStep::Stay,
        event matches GameEvent::RoundBegin { choices } ==> step matches PlayerStep::Send {
            event: e,
        } && e matches UserEvent::RoundBegin { choices: c } && c@ == choices@,
        event matches GameEvent::RoundEnd { point_gains } ==> step matches PlayerStep::Send {
            event: e,
        } && e matches UserEvent::RoundEnd { point_gain } && point_gain == gain_of(
            point_gains.deep_view(),
            username@,
        ),
        event is GameEnd ==> step == (PlayerStep::SendAndClose { event: UserEvent::GameEnd }),
{
    match event {
        GameEvent::InLobby => PlayerStep::Stay,
        GameEvent::RoundBegin { choices } => PlayerStep::Send {
            event: UserEvent::RoundBegin { choices: clone_names(choices) },
        },
        GameEvent::RoundEnd { point_gains } => PlayerStep::Send {
            event: UserEvent::RoundEnd { point_gain: lookup_gain(point_gains, username) },
        },
        GameEvent::GameEnd => PlayerStep::SendAndClose { event: UserEvent::GameEnd },
    }
}

/// How a connection's first message is routed.
#[derive(Debug)]
pub enum FirstAction {
    /// The sender becomes the host of a new room with these questions.
    BecomeHost { questions: Vec<Question> },
    /// The sender becomes a player in the named room.
    BecomePlayer { room_id: RoomId, username: String },
    /// Anything else: the connection is dropped silently.
    Rejected,
}

/// Routes a connection's first message: a create-room message makes the
/// sender a host, a join-room message makes it a player, and any other
/// first message drops the connection.
pub fn route_first_action(action: Action) -> (r: FirstAction)
    ensures
        action matches Action::CreateRoom { questions } ==> r == (FirstAction::BecomeHost {
            questions,
        }),
        action matches Action::JoinRoom { room_id, username } ==> r == (FirstAction::BecomePlayer {
            room_id,
            username,
        }),
        !(action is CreateRoom) && !(action is JoinRoom) ==> r == FirstAction::Rejected,
{
    match action {
        Action::CreateRoom { questions } => FirstAction::BecomeHost { questions },
        Action::JoinRoom { room_id, username } => FirstAction::BecomePlayer { room_id, username },
        _ => FirstAction::Rejected,
    }
}

/// The inbound relay's filter: only answers are forwarded into the room's
/// answer queue, stamped with the player's username; every other action
/// kind received here is ignored.
pub fn relay_action(action: &Action, username: &String) -> (r: Option<PlayerAnswer>)
    ensures
        action matches Action::Answer { choice } ==> r matches Some(ans) && ans.username@
            == username@ && ans.choice == choice,
        !(action is Answer) ==> r is None,
{
    match action {
        Action::Answer { choice } => Some(
            PlayerAnswer { username: username.clone(), choice: *choice },
        ),
        _ => None,
    }
}

/// The rejection for a join against a room id that does not exist.
pub fn room_not_found() -> (e: UserEvent)
    ensures
        e matches UserEvent::JoinFailed { reason } && reason@ == "Room does not exist"@,
{
    UserEvent::JoinFailed { reason: "Room does not exist".to_owned() }
}

/// The rejection for a join under a username that is already taken.
pub fn duplicate_user() -> (e: UserEvent)
    ensures
        e matches UserEvent::JoinFailed { reason } && reason@ == "Duplicate user"@,
{
    UserEvent::JoinFailed { reason: "Duplicate user".to_owned() }
}

} // verus!
