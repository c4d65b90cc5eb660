//! Tests driving the quiz library the way the connection loops do: rooms,
//! presence, rounds, scoring, and the player-facing translations.

use std::collections::HashSet;

use kahoot_clone_backend::api::{Action, HostEvent, Question, UserEvent};
use kahoot_clone_backend::game::{AnswerStep, GameRoom, HostStep, Phase};
use kahoot_clone_backend::player::{
    duplicate_user, on_game_event, relay_action, room_not_found, route_first_action, FirstAction,
    PlayerStep,
};
use kahoot_clone_backend::state::{
    host_event_of, GameEvent, PlayerAnswer, PlayerEvent, State, UserPresence, Users,
};

fn fish_question() -> Question {
    Question {
        question: String::from("Fish?"),
        choices: vec![String::from("foo"), String::from("bar")],
        answer: 0,
        time: 30,
    }
}

fn join(users: &mut Users, name: &str) -> (UserPresence, PlayerEvent) {
    users
        .join_user(String::from(name))
        .expect("join should succeed")
}

fn answer(name: &str, choice: usize) -> PlayerAnswer {
    PlayerAnswer {
        username: String::from(name),
        choice,
    }
}

/// One host, one player, one question: the full happy path.
#[test]
fn one_player_and_question() {
    let question = fish_question();
    let mut room = GameRoom::new(vec![question.clone()]);
    let mut users = Users::new();

    // Johnny joins; the host is told who joined.
    let (mut presence, event) = join(&mut users, "Johnny");
    let host_event = host_event_of(event);
    assert!(matches!(host_event, HostEvent::UserJoined { username } if username == "Johnny"));
    assert_eq!(users.player_count(), 1);

    // The host begins the round and sees the full question.
    let step = room.on_host_action(Action::BeginRound, users.player_count());
    assert!(matches!(step, HostStep::RoundStarted));
    assert_eq!(*room.current_question(), question);

    // Johnny answers the correct choice before the timeout.
    let step = room.on_answer(answer("Johnny", 0), &users);
    match step {
        AnswerStep::Accepted {
            username,
            round_complete,
        } => {
            assert_eq!(username, "Johnny");
            let gains = round_complete.expect("everyone answered, round must resolve");
            assert_eq!(gains, vec![(String::from("Johnny"), 1000)]);
        }
        other => panic!("expected an accepted answer, got {other:?}"),
    }

    // Johnny's own view of the round end reveals his gain.
    let gains = vec![(String::from("Johnny"), 1000)];
    let step = on_game_event(
        &GameEvent::RoundEnd {
            point_gains: gains,
        },
        &String::from("Johnny"),
    );
    assert!(matches!(
        step,
        PlayerStep::Send {
            event: UserEvent::RoundEnd {
                point_gain: Some(1000)
            }
        }
    ));

    // No questions remain: the next begin ends the game.
    let step = room.on_host_action(Action::BeginRound, users.player_count());
    assert!(matches!(step, HostStep::GameEnded));
    let step = on_game_event(&GameEvent::GameEnd, &String::from("Johnny"));
    assert!(matches!(
        step,
        PlayerStep::SendAndClose {
            event: UserEvent::GameEnd
        }
    ));

    let left = presence.close(&mut users);
    assert!(matches!(left, Some(PlayerEvent::Left(name)) if name == "Johnny"));
}

/// Three players join and leave a lobby in sequence; the host observes the
/// interleaved joined/left events in arrival order with no duplicates or
/// omissions.
#[test]
fn join_leave() {
    let mut users = Users::new();
    let mut events: Vec<PlayerEvent> = Vec::new();

    let (mut alice, e) = join(&mut users, "Alice");
    events.push(e);
    let (mut bob, e) = join(&mut users, "Bob");
    events.push(e);
    events.push(alice.close(&mut users).expect("first close emits"));
    let (mut chris, e) = join(&mut users, "Chris");
    events.push(e);
    events.push(chris.close(&mut users).expect("first close emits"));
    events.push(bob.close(&mut users).expect("first close emits"));

    let mut joined = HashSet::new();
    let mut left = HashSet::new();
    for event in events {
        match event {
            PlayerEvent::Joined(username) => {
                assert!(joined.insert(username.clone()), "{username} joined twice");
            }
            PlayerEvent::Left(username) => {
                assert!(joined.contains(&username), "{username} left before joining");
                assert!(left.insert(username.clone()), "{username} left twice");
            }
        }
    }

    let names = HashSet::from([
        String::from("Alice"),
        String::from("Bob"),
        String::from("Chris"),
    ]);
    assert_eq!(joined, names);
    assert_eq!(left, names);
    assert_eq!(users.player_count(), 0);
}

/// Joining a room id that was never created fails with the right reason and
/// touches no room state.
#[test]
fn room_not_exist() {
    let state: State<u8> = State::new();
    assert!(state.find_room(&0).is_none());

    let event = room_not_found();
    assert!(
        matches!(event, UserEvent::JoinFailed { reason } if reason == "Room does not exist")
    );
}

/// Joining the same username twice yields exactly one success and one
/// duplicate-user rejection.
#[test]
fn dupe_user() {
    let mut users = Users::new();
    assert!(users.join_user(String::from("Foo")).is_some());
    assert!(users.join_user(String::from("Foo")).is_none());
    assert_eq!(users.player_count(), 1);

    let event = duplicate_user();
    assert!(matches!(event, UserEvent::JoinFailed { reason } if reason == "Duplicate user"));
}

/// A join is visible in the player count at once, before its event is
/// delivered anywhere.
#[test]
fn count_reflects_join_immediately() {
    let mut users = Users::new();
    assert_eq!(users.player_count(), 0);
    let (_presence, event) = join(&mut users, "Ada");
    // the count already reflects the join while the event is still in hand
    assert_eq!(users.player_count(), 1);
    assert!(matches!(event, PlayerEvent::Joined(name) if name == "Ada"));
}

/// Every presence yields exactly one left notification: the first close
/// emits it, a second close emits nothing and changes nothing.
#[test]
fn leave_emitted_exactly_once() {
    let mut users = Users::new();
    let (mut presence, _joined) = join(&mut users, "Ada");
    assert_eq!(users.player_count(), 1);

    let first = presence.close(&mut users);
    assert!(matches!(first, Some(PlayerEvent::Left(name)) if name == "Ada"));
    assert_eq!(users.player_count(), 0);

    let second = presence.close(&mut users);
    assert!(second.is_none());
    assert_eq!(users.player_count(), 0);
}

fn quiz(n: usize) -> Vec<Question> {
    (0..n).map(|_| fish_question()).collect()
}

fn begin_with(room: &mut GameRoom, count: usize) {
    let step = room.on_host_action(Action::BeginRound, count);
    assert!(matches!(step, HostStep::RoundStarted));
}

/// Fixed arrival order of correct answers is awarded exactly
/// 1000, 909, 826, 750, ... = max(1, floor(prev * 10 / 11)).
#[test]
fn scoring_sequence() {
    let mut room = GameRoom::new(quiz(1));
    let mut users = Users::new();
    let names = ["A", "B", "C", "D"];
    let mut presences = Vec::new();
    for name in names {
        presences.push(join(&mut users, name));
    }

    begin_with(&mut room, users.player_count());

    for name in ["A", "B", "C"] {
        let step = room.on_answer(answer(name, 0), &users);
        assert!(matches!(
            step,
            AnswerStep::Accepted {
                round_complete: None,
                ..
            }
        ));
    }
    // the last answer completes the round
    let step = room.on_answer(answer("D", 0), &users);
    let gains = match step {
        AnswerStep::Accepted {
            round_complete: Some(gains),
            ..
        } => gains,
        other => panic!("expected the round to complete, got {other:?}"),
    };
    assert_eq!(
        gains,
        vec![
            (String::from("A"), 1000),
            (String::from("B"), 909),
            (String::from("C"), 826),
            (String::from("D"), 750),
        ]
    );
}

/// A game created with no questions ends as soon as the host begins.
#[test]
fn empty_question_list() {
    let mut room = GameRoom::new(Vec::new());
    let mut users = Users::new();
    let _a = join(&mut users, "A");
    let step = room.on_host_action(Action::BeginRound, users.player_count());
    assert!(matches!(step, HostStep::GameEnded));
    assert_eq!(room.current_phase(), Phase::Closed);
}

/// With many correct answers the awards decay to the floor of one point and
/// never increase.
#[test]
fn award_floor() {
    let mut room = GameRoom::new(quiz(1));
    let mut users = Users::new();
    let names: Vec<String> = (0..100).map(|i| format!("p{i}")).collect();
    let mut presences = Vec::new();
    for name in &names {
        presences.push(join(&mut users, name));
    }

    begin_with(&mut room, users.player_count());

    let mut gains = None;
    for name in &names {
        match room.on_answer(answer(name, 0), &users) {
            AnswerStep::Accepted { round_complete, .. } => {
                if let Some(g) = round_complete {
                    gains = Some(g);
                }
            }
            other => panic!("expected an accepted answer, got {other:?}"),
        }
    }
    let gains = gains.expect("the last answer completes the round");
    assert_eq!(gains.len(), 100);
    assert_eq!(gains[0].1, 1000);
    for pair in gains.windows(2) {
        assert!(pair[1].1 <= pair[0].1, "awards must never increase");
        assert!(pair[1].1 >= 1, "awards are floored at one point");
    }
    assert_eq!(gains[99].1, 1, "the decay reaches the floor");
}

/// An incorrect answer is acknowledged but awards nothing and does not
/// decay the next award; a duplicate answer is discarded entirely.
#[test]
fn wrong_and_duplicate_answers() {
    let mut room = GameRoom::new(quiz(1));
    let mut users = Users::new();
    let _a = join(&mut users, "A");
    let _b = join(&mut users, "B");

    begin_with(&mut room, users.player_count());

    // A answers wrong: acknowledged, no gain.
    let step = room.on_answer(answer("A", 1), &users);
    assert!(matches!(
        step,
        AnswerStep::Accepted {
            round_complete: None,
            ..
        }
    ));

    // A answers again (even correctly): discarded.
    let step = room.on_answer(answer("A", 0), &users);
    assert!(matches!(step, AnswerStep::Duplicate));

    // B answers right and still gets the full first award.
    let step = room.on_answer(answer("B", 0), &users);
    let gains = match step {
        AnswerStep::Accepted {
            round_complete: Some(gains),
            ..
        } => gains,
        other => panic!("expected the round to complete, got {other:?}"),
    };
    assert_eq!(gains, vec![(String::from("B"), 1000)]);
}

/// The round ends on the timer when not everyone has answered.
#[test]
fn round_ends_on_timeout() {
    let mut room = GameRoom::new(quiz(1));
    let mut users = Users::new();
    let _a = join(&mut users, "A");
    let _b = join(&mut users, "B");

    begin_with(&mut room, users.player_count());
    let step = room.on_answer(answer("A", 0), &users);
    assert!(matches!(
        step,
        AnswerStep::Accepted {
            round_complete: None,
            ..
        }
    ));

    let gains = room.on_timeout().expect("active round resolves on timeout");
    assert_eq!(gains, vec![(String::from("A"), 1000)]);
    assert_eq!(room.current_phase(), Phase::RoundResolved);

    // a timer firing outside an active round does nothing
    assert!(room.on_timeout().is_none());
}

/// The round ends at once when the host forces it.
#[test]
fn round_ends_on_host_end() {
    let mut room = GameRoom::new(quiz(1));
    let mut users = Users::new();
    let _a = join(&mut users, "A");
    let _b = join(&mut users, "B");

    begin_with(&mut room, users.player_count());
    let step = room.on_host_action(Action::EndRound, users.player_count());
    match step {
        HostStep::RoundEnded { point_gains } => assert!(point_gains.is_empty()),
        other => panic!("expected a forced round end, got {other:?}"),
    }
}

/// The round ends when every present player has answered, whether or not
/// the answers were correct.
#[test]
fn round_ends_when_all_answered() {
    let mut room = GameRoom::new(quiz(1));
    let mut users = Users::new();
    let _a = join(&mut users, "A");
    let _b = join(&mut users, "B");

    begin_with(&mut room, users.player_count());
    let step = room.on_answer(answer("A", 1), &users);
    assert!(matches!(
        step,
        AnswerStep::Accepted {
            round_complete: None,
            ..
        }
    ));
    let step = room.on_answer(answer("B", 1), &users);
    match step {
        AnswerStep::Accepted {
            round_complete: Some(gains),
            ..
        } => assert!(gains.is_empty(), "nobody answered correctly"),
        other => panic!("expected the round to complete, got {other:?}"),
    }
}

/// An answer received between rounds is queued, purged at the next round's
/// start, and never credited toward that round.
#[test]
fn stale_answer_purged() {
    let mut room = GameRoom::new(quiz(2));
    let mut users = Users::new();
    let _a = join(&mut users, "A");

    // round one: A answers correctly, round resolves
    begin_with(&mut room, users.player_count());
    let step = room.on_answer(answer("A", 0), &users);
    assert!(matches!(
        step,
        AnswerStep::Accepted {
            round_complete: Some(_),
            ..
        }
    ));

    // a stale answer arrives after resolution, before the next round starts
    let step = room.on_answer(answer("A", 0), &users);
    assert!(matches!(step, AnswerStep::Deferred));

    // round two starts (purging the queue) and times out with no answers:
    // the stale answer was never credited
    begin_with(&mut room, users.player_count());
    let gains = room.on_timeout().expect("active round resolves on timeout");
    assert!(gains.is_empty());
}

/// Lobby gating: a begin-round message with no players, and any other
/// message, is ignored without a state change; after a resolved round the
/// gate no longer applies.
#[test]
fn lobby_gating() {
    let mut room = GameRoom::new(quiz(1));
    let mut users = Users::new();

    // no players yet: begin is ignored
    let step = room.on_host_action(Action::BeginRound, users.player_count());
    assert!(matches!(step, HostStep::Ignored));
    assert_eq!(room.current_phase(), Phase::Lobby);

    // other host messages are ignored in the lobby
    let step = room.on_host_action(Action::EndRound, users.player_count());
    assert!(matches!(step, HostStep::Ignored));

    let _a = join(&mut users, "A");
    begin_with(&mut room, users.player_count());
    let _ = room.on_timeout().expect("round resolves");

    // after a resolved round, begin proceeds with no player-count gate;
    // the question list is exhausted, so the game ends
    let step = room.on_host_action(Action::BeginRound, 0);
    assert!(matches!(step, HostStep::GameEnded));
    assert_eq!(room.current_phase(), Phase::Closed);
}

/// A host disconnect closes the room in any phase.
#[test]
fn host_disconnect_closes_room() {
    let mut room = GameRoom::new(quiz(1));
    let mut users = Users::new();
    let _a = join(&mut users, "A");
    begin_with(&mut room, users.player_count());

    room.on_host_disconnect();
    assert_eq!(room.current_phase(), Phase::Closed);
}

/// The room directory: a created room is found under its id, removal
/// deletes it, and removing an absent id is a no-op.
#[test]
fn room_directory() {
    let mut state: State<&str> = State::new();
    let id = state.insert_room("room-handle");
    assert_eq!(state.find_room(&id), Some(&"room-handle"));

    state.remove_room(&id);
    assert!(state.find_room(&id).is_none());

    // removing an id that is not present is not an error
    state.remove_room(&id);
    assert!(state.find_room(&id).is_none());
}

/// The outbound relay's translations: lobby is silent, a beginning round
/// reveals the choices, a resolved round reveals only the player's own
/// gain, and the game end closes the session.
#[test]
fn player_event_translation() {
    let me = String::from("me");

    let step = on_game_event(&GameEvent::InLobby, &me);
    assert!(matches!(step, PlayerStep::Stay));

    let step = on_game_event(
        &GameEvent::RoundBegin {
            choices: vec![String::from("foo"), String::from("bar")],
        },
        &me,
    );
    match step {
        PlayerStep::Send {
            event: UserEvent::RoundBegin { choices },
        } => assert_eq!(choices, vec![String::from("foo"), String::from("bar")]),
        other => panic!("expected a round begin for the player, got {other:?}"),
    }

    let gains = vec![(String::from("other"), 1000), (String::from("me"), 909)];
    let step = on_game_event(
        &GameEvent::RoundEnd {
            point_gains: gains.clone(),
        },
        &me,
    );
    assert!(matches!(
        step,
        PlayerStep::Send {
            event: UserEvent::RoundEnd {
                point_gain: Some(909)
            }
        }
    ));

    // a player with no credited answer sees the absence of a gain
    let step = on_game_event(
        &GameEvent::RoundEnd {
            point_gains: gains,
        },
        &String::from("absent"),
    );
    assert!(matches!(
        step,
        PlayerStep::Send {
            event: UserEvent::RoundEnd { point_gain: None }
        }
    ));

    let step = on_game_event(&GameEvent::GameEnd, &me);
    assert!(matches!(
        step,
        PlayerStep::SendAndClose {
            event: UserEvent::GameEnd
        }
    ));
}

/// First-message routing: create-room makes a host, join-room makes a
/// player, anything else drops the connection.
#[test]
fn first_action_routing() {
    let r = route_first_action(Action::CreateRoom {
        questions: quiz(1),
    });
    assert!(matches!(r, FirstAction::BecomeHost { questions } if questions.len() == 1));

    let r = route_first_action(Action::JoinRoom {
        room_id: 7,
        username: String::from("Ada"),
    });
    assert!(
        matches!(r, FirstAction::BecomePlayer { room_id: 7, username } if username == "Ada")
    );

    let r = route_first_action(Action::Answer { choice: 0 });
    assert!(matches!(r, FirstAction::Rejected));
    let r = route_first_action(Action::BeginRound);
    assert!(matches!(r, FirstAction::Rejected));
}

/// The inbound relay forwards only answers, stamped with the player's
/// username; everything else is ignored.
#[test]
fn inbound_relay_filter() {
    let me = String::from("me");
    let r = relay_action(&Action::Answer { choice: 2 }, &me);
    match r {
        Some(PlayerAnswer { username, choice }) => {
            assert_eq!(username, "me");
            assert_eq!(choice, 2);
        }
        None => panic!("an answer must be forwarded"),
    }

    assert!(relay_action(&Action::BeginRound, &me).is_none());
    assert!(relay_action(&Action::EndRound, &me).is_none());
}

/// Presence notifications are forwarded to the host one for one.
#[test]
fn presence_events_forwarded() {
    let e = host_event_of(PlayerEvent::Joined(String::from("Ada")));
    assert!(matches!(e, HostEvent::UserJoined { username } if username == "Ada"));
    let e = host_event_of(PlayerEvent::Left(String::from("Ada")));
    assert!(matches!(e, HostEvent::UserLeft { username } if username == "Ada"));
}
