//! The host-side state machine of one room: lobby, active round, resolved
//! round, and closed. The surrounding connection loop feeds it one event at
//! a time: a host message, an answer pulled off the queue, the question
//! timer firing, or the host disconnecting: and performs the messaging and
//! room-directory work each returned step calls for. A round ends on
//! whichever comes first of: the host forcing the end, the timer firing, or
//! every present player having answered.

use vstd::prelude::*;

use crate::api::{Action, Question};
use crate::names::{contains_name, names_subset, unique_names};
use crate::score::{next_award, next_points, nth_award};
use crate::state::{PlayerAnswer, Users};

verus! {

/// The phase a room is in.
#[derive(Clone, Copy, Debug, PartialEq, Eq, Structural)]
pub enum Phase {
    /// Waiting for the first round; starting is gated on player presence.
    Lobby,
    /// A question is live and answers are being accepted.
    RoundActive,
    /// A round has resolved; waiting for the host to begin the next one.
    RoundResolved,
    /// Terminal: the game ended or the host disconnected.
    Closed,
}

/// The usernames credited in a gains list, in credit order.
pub open spec fn gain_names(gains: Seq<(Seq<char>, u32)>) -> Seq<Seq<char>> {
    gains.map_values(|g: (Seq<char>, u32)| g.0)
}

/// Whether a begin-round request proceeds: from the lobby only with at
/// least one player present; after a resolved round, always.
pub open spec fn begin_allowed(phase: Phase, player_count: int) -> bool {
    (phase == Phase::Lobby && player_count > 0) || phase == Phase::RoundResolved
}

/// What the host loop must do after feeding the machine a host message.
#[derive(Debug)]
pub enum HostStep {
    /// The message was ignored in the current phase: nothing to do.
    Ignored,
    /// A round began: reveal the current question to the host, broadcast
    /// its choices to the players, and start the question's timer.
    RoundStarted,
    /// The host forced the active round to end: report these point gains to
    /// the host and to the players.
    RoundEnded { point_gains: Vec<(String, u32)> },
    /// The question list is exhausted: report the game end to everyone and
    /// remove the room from the directory.
    GameEnded,
}

/// What the host loop must do after feeding the machine a player's answer.
#[derive(Debug)]
pub enum AnswerStep {
    /// No round is active: the answer stays queued, to be purged when the
    /// next round starts.
    Deferred,
    /// This player already answered the active round: discarded, no effect.
    Duplicate,
    /// First answer from this player this round: tell the host who
    /// answered; if every present player has now answered, the round is
    /// over and these point gains are reported.
    Accepted { username: String, round_complete: Option<Vec<(String, u32)>> },
}

/// One room's game state, driven by the host's connection loop.
pub struct GameRoom {
    questions: Vec<Question>,
    next_round: usize,
    phase: Phase,
    answered: Vec<String>,
    gains: Vec<(String, u32)>,
    points: u32,
    queued: Vec<PlayerAnswer>,
}

impl GameRoom {
    /// The full question list, fixed at room creation.
    pub closed spec fn question_list(&self) -> Seq<Question> {
        self.questions@
    }

    /// The current phase.
    pub closed spec fn phase(&self) -> Phase {
        self.phase
    }

    /// How many rounds have resolved; while a round is active, also the
    /// index of its question.
    pub closed spec fn rounds_played(&self) -> int {
        self.next_round as int
    }

    /// Who has had an answer accepted in the active round.
    pub closed spec fn answered_names(&self) -> Seq<Seq<char>> {
        self.answered.deep_view()
    }

    /// The point gains credited so far in the active round, in credit
    /// order: the `i`-th credited correct answer is worth `nth_award(i)`.
    pub closed spec fn round_gains(&self) -> Seq<(Seq<char>, u32)> {
        self.gains.deep_view()
    }

    /// Answers received while no round was active, awaiting the purge at
    /// the next round's start.
    pub closed spec fn queued_answers(&self) -> Seq<PlayerAnswer> {
        self.queued@
    }

    /// The machine's invariant: the round index stays within the question
    /// list; nobody answers or is credited twice in a round; only players
    /// who answered are credited; the `i`-th credit is worth `nth_award(i)`
    /// and the next correct answer will be worth `nth_award` of the number
    /// of credits so far; and outside an active round the per-round record
    /// is empty.
    pub closed spec fn wf(&self) -> bool {
        &&& self.next_round <= self.questions@.len()
        &&& (self.phase == Phase::RoundActive ==> self.next_round < self.questions@.len())
        &&& unique_names(self.answered.deep_view())
        &&& unique_names(gain_names(self.gains.deep_view()))
        &&& names_subset(gain_names(self.gains.deep_view()), self.answered.deep_view())
        &&& (forall|i: int|
            0 <= i < self.gains.deep_view().len() ==> self.gains.deep_view()[i].1 == nth_award(
                i as nat,
            ))
        &&& self.points == nth_award(self.gains.deep_view().len() as nat)
        &&& 1 <= self.points <= 1000
        &&& (self.phase != Phase::RoundActive ==> self.answered@.len() == 0 && self.gains@.len()
            == 0)
    }

    /// A fresh room in its lobby, holding the full question list.
    pub fn new(questions: Vec<Question>) -> (room: GameRoom)
        ensures
            room.wf(),
            room.question_list() == questions@,
            room.phase() == Phase::Lobby,
            room.rounds_played() == 0,
            room.queued_answers() == Seq::<PlayerAnswer>::empty(),
    {
        let room = GameRoom {
            questions,
            next_round: 0,
            phase: Phase::Lobby,
            answered: Vec::new(),
            gains: Vec::new(),
            points: 1000,
            queued: Vec::new(),
        };
        proof {
            assert(room.queued_answers() =~= Seq::<PlayerAnswer>::empty());
            assert(gain_names(room.round_gains()) =~= Seq::<Seq<char>>::empty());
            assert(nth_award(0) == 1000);
        }
        room
    }

    /// The current phase, for the surrounding loop's control flow.
    pub fn current_phase(&self) -> (p: Phase)
        ensures
            p == self.phase(),
    {
        self.phase
    }

    /// The question of the currently active round, in full; only its choice
    /// list is shown to players.
    pub fn current_question(&self) -> (q: &Question)
        requires
            self.wf(),
            self.phase() == Phase::RoundActive,
        ensures
            *q == self.question_list()[self.rounds_played()],
    {
        &self.questions[self.next_round]
    }

    /// Applies one host message. `BeginRound` starts the next round when
    /// allowed: purging any stale queued answers first: or ends the game
    /// when no questions are left; `EndRound` forces an active round to
    /// resolve; every other message, and any message at a disallowed time,
    /// is ignored without any change.
    pub fn on_host_action(&mut self, action: Action, player_count: usize) -> (step: HostStep)
        requires
            old(self).wf(),
            old(self).phase() != Phase::Closed,
        ensures
            final(self).wf(),
            final(self).question_list() == old(self).question_list(),
            if action is BeginRound && begin_allowed(old(self).phase(), player_count as int) {
                if old(self).rounds_played() < old(self).question_list().len() {
                    &&& step == HostStep::RoundStarted
                    &&& final(self).phase() == Phase::RoundActive
                    &&& final(self).rounds_played() == old(self).rounds_played()
                    &&& final(self).answered_names() == Seq::<Seq<char>>::empty()
                    &&& final(self).round_gains() == Seq::<(Seq<char>, u32)>::empty()
                    &&& final(self).queued_answers() == Seq::<PlayerAnswer>::empty()
                } else {
                    &&& step == HostStep::GameEnded
                    &&& final(self).phase() == Phase::Closed
                }
            } else if action is EndRound && old(self).phase() == Phase::RoundActive {
                &&& step matches HostStep::RoundEnded { point_gains } && point_gains.deep_view()
                    == old(self).round_gains()
                &&& final(self).phase() == Phase::RoundResolved
                &&& final(self).rounds_played() == old(self).rounds_played() + 1
                &&& final(self).queued_answers() == old(self).queued_answers()
            } else {
                step == HostStep::Ignored && *final(self) == *old(self)
            },
    {
        match action {
            Action::BeginRound => {
                let can_begin = match self.phase {
                    Phase::Lobby => player_count > 0,
                    Phase::RoundResolved => true,
                    _ => false,
                };
                if !can_begin {
                    return HostStep::Ignored;
                }
                if self.next_round < self.questions.len() {
                    self.queued.clear();
                    self.phase = Phase::RoundActive;
                    proof {
                        assert(self.answered_names() =~= Seq::<Seq<char>>::empty());
                        assert(self.round_gains() =~= Seq::<(Seq<char>, u32)>::empty());
                        assert(self.queued_answers() =~= Seq::<PlayerAnswer>::empty());
                    }
                    HostStep::RoundStarted
                } else {
                    self.phase = Phase::Closed;
                    HostStep::GameEnded
                }
            },
            Action::EndRound => {
                match self.phase {
                    Phase::RoundActive => {
                        let point_gains = self.resolve_round();
                        HostStep::RoundEnded { point_gains }
                    },
                    _ => HostStep::Ignored,
                }
            },
            _ => HostStep::Ignored,
        }
    }

    /// The active question's time limit elapsed: the round resolves with
    /// the gains credited so far. A timer firing outside an active round
    /// changes nothing.
    pub fn on_timeout(&mut self) -> (r: Option<Vec<(String, u32)>>)
        requires
            old(self).wf(),
        ensures
            final(self).wf(),
            final(self).question_list() == old(self).question_list(),
            old(self).phase() == Phase::RoundActive ==> {
                &&& r matches Some(point_gains) && point_gains.deep_view() == old(
                    self,
                ).round_gains()
                &&& final(self).phase() == Phase::RoundResolved
                &&& final(self).rounds_played() == old(self).rounds_played() + 1
                &&& final(self).queued_answers() == old(self).queued_answers()
            },
            old(self).phase() != Phase::RoundActive ==> r is None && *final(self) == *old(self),
    {
        match self.phase {
            Phase::RoundActive => Some(self.resolve_round()),
            _ => None,
        }
    }

    /// The host's connection ended: the room closes at once, whatever the
    /// phase; answers of an in-flight round are discarded, and the caller
    /// removes the room from the directory.
    pub fn on_host_disconnect(&mut self)
        requires
            old(self).wf(),
        ensures
            final(self).wf(),
            final(self).phase() == Phase::Closed,
            final(self).question_list() == old(self).question_list(),
    {
        self.answered.clear();
        self.gains.clear();
        self.points = 1000;
        self.phase = Phase::Closed;
        proof {
            assert(gain_names(self.round_gains()) =~= Seq::<Seq<char>>::empty());
            assert(nth_award(0) == 1000);
        }
    }

    /// Feeds one answer pulled off the room's answer queue. Outside an
    /// active round it is merely queued (and will be purged before the next
    /// round, never credited). During a round, the first answer per player
    /// is accepted: a correct one is credited with `nth_award` of the
    /// number of credits so far; a repeated one is discarded. If every
    /// present player has answered, the round resolves on the spot.
    pub fn on_answer(&mut self, answer: PlayerAnswer, users: &Users) -> (step: AnswerStep)
        requires
            old(self).wf(),
            users.wf(),
        ensures
            final(self).wf(),
            final(self).question_list() == old(self).question_list(),
            old(self).phase() != Phase::RoundActive ==> {
                &&& step == AnswerStep::Deferred
                &&& final(self).queued_answers() == old(self).queued_answers().push(answer)
                &&& final(self).phase() == old(self).phase()
                &&& final(self).rounds_played() == old(self).rounds_played()
                &&& final(self).round_gains() == old(self).round_gains()
                &&& final(self).answered_names() == old(self).answered_names()
            },
            (old(self).phase() == Phase::RoundActive && old(self).answered_names().contains(
                answer.username@,
            )) ==> step == AnswerStep::Duplicate && *final(self) == *old(self),
            (old(self).phase() == Phase::RoundActive && !old(self).answered_names().contains(
                answer.username@,
            )) ==> ({
                let correct = answer.choice == old(self).question_list()[old(
                    self,
                ).rounds_played()].answer;
                let answered2 = old(self).answered_names().push(answer.username@);
                let gains2 = if correct {
                    old(self).round_gains().push(
                        (answer.username@, nth_award(old(self).round_gains().len() as nat) as u32),
                    )
                } else {
                    old(self).round_gains()
                };
                let complete = names_subset(users@, answered2);
                &&& step matches AnswerStep::Accepted { username, round_complete } && username@
                    == answer.username@ && (if complete {
                    round_complete matches Some(pg) && pg.deep_view() == gains2
                } else {
                    round_complete is None
                })
                &&& final(self).queued_answers() == old(self).queued_answers()
                &&& (complete ==> final(self).phase() == Phase::RoundResolved
                    && final(self).rounds_played() == old(self).rounds_played() + 1)
                &&& (!complete ==> final(self).phase() == Phase::RoundActive
                    && final(self).rounds_played() == old(self).rounds_played()
                    && final(self).answered_names() == answered2
                    && final(self).round_gains() == gains2)
            }),
    {
        match self.phase {
            Phase::RoundActive => {},
            _ => {
                self.queued.push(answer);
                return AnswerStep::Deferred;
            },
        }
        if contains_name(&self.answered, &answer.username) {
            return AnswerStep::Duplicate;
        }
        let PlayerAnswer { username, choice } = answer;
        let ghost adv = self.answered.deep_view();
        let ghost gdv = self.gains.deep_view();
        self.answered.push(username.clone());
        proof {
            assert(self.answered.deep_view() =~= adv.push(username@));
            assert forall|a: int, b: int|
                0 <= a < b < self.answered.deep_view().len() implies self.answered.deep_view()[a]
                != self.answered.deep_view()[b] by {
                let dv2 = self.answered.deep_view();
                if b < adv.len() {
                    assert(dv2[a] == adv[a] && dv2[b] == adv[b]);
                } else {
                    assert(dv2[a] == adv[a] && dv2[b] == username@);
                    assert(!adv.contains(username@));
                }
            }
            assert forall|i: int|
                0 <= i < gain_names(gdv).len() implies self.answered.deep_view().contains(
                #[trigger] gain_names(gdv)[i],
            ) by {
                assert(adv.contains(gain_names(gdv)[i]));
                let j = choose|j: int| 0 <= j < adv.len() && adv[j] == gain_names(gdv)[i];
                assert(self.answered.deep_view()[j] == adv[j]);
            }
        }
        if choice == self.questions[self.next_round].answer {
            let awarded = self.points;
            self.gains.push((username.clone(), awarded));
            self.points = next_points(awarded);
            proof {
                assert(self.gains.deep_view() =~= gdv.push((username@, awarded)));
                assert(gain_names(self.gains.deep_view()) =~= gain_names(gdv).push(username@));
                let gn2 = gain_names(self.gains.deep_view());
                assert forall|a: int, b: int| 0 <= a < b < gn2.len() implies gn2[a] != gn2[b] by {
                    if b < gain_names(gdv).len() {
                        assert(gn2[a] == gain_names(gdv)[a] && gn2[b] == gain_names(gdv)[b]);
                    } else {
                        assert(gn2[a] == gain_names(gdv)[a] && gn2[b] == username@);
                        assert(adv.contains(gain_names(gdv)[a]));
                        assert(!adv.contains(username@));
                    }
                }
                assert forall|i: int|
                    0 <= i < gn2.len() implies self.answered.deep_view().contains(
                    #[trigger] gn2[i],
                ) by {
                    if i < gain_names(gdv).len() {
                        assert(gn2[i] == gain_names(gdv)[i]);
                    } else {
                        assert(gn2[i] == username@);
                        assert(self.answered.deep_view()[adv.len() as int] == username@);
                    }
                }
                assert(nth_award((gdv.len() + 1) as nat) == next_award(nth_award(gdv.len() as nat)));
            }
        }
        let complete = users.all_answered(&self.answered);
        if complete {
            let point_gains = self.resolve_round();
            AnswerStep::Accepted { username, round_complete: Some(point_gains) }
        } else {
            AnswerStep::Accepted { username, round_complete: None }
        }
    }

    /// Ends the active round: hands the round's gains out, clears the
    /// per-round record, resets the award counter, and waits for the next
    /// begin-round message.
    fn resolve_round(&mut self) -> (point_gains: Vec<(String, u32)>)
        requires
            old(self).wf(),
            old(self).phase() == Phase::RoundActive,
        ensures
            final(self).wf(),
            point_gains.deep_view() == old(self).round_gains(),
            final(self).question_list() == old(self).question_list(),
            final(self).phase() == Phase::RoundResolved,
            final(self).rounds_played() == old(self).rounds_played() + 1,
            final(self).queued_answers() == old(self).queued_answers(),
    {
        let mut point_gains: Vec<(String, u32)> = Vec::new();
        core::mem::swap(&mut point_gains, &mut self.gains);
        self.answered.clear();
        self.points = 1000;
        self.phase = Phase::RoundResolved;
        let total = self.questions.len();
        proof {
            assert(self.next_round < total);
        }
        self.next_round = self.next_round + 1;
        proof {
            assert(gain_names(self.round_gains()) =~= Seq::<Seq<char>>::empty());
            assert(nth_award(0) == 1000);
        }
        point_gains
    }
}

} // verus!
