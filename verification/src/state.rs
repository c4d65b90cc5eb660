//! Room and presence state: the directory of live rooms, the per-room
//! registry of joined usernames with its guaranteed leave notification, and
//! the events the two exchange with the host loop.

use vstd::prelude::*;

use crate::api::{HostEvent, RoomId};
use crate::names::{contains_name, names_subset, remove_name, unique_names};

verus! {

/// An answer submitted by a player during a round: who answered, and which
/// choice they picked.
#[derive(Debug, PartialEq)]
pub struct PlayerAnswer {
    pub username: String,
    pub choice: usize,
}

/// The room-level state that is published to every player through the
/// latest-value broadcast cell. A slow reader observes only the most recent
/// value; intermediate values may be skipped.
#[derive(Debug, Clone)]
pub enum GameEvent {
    /// No round is running yet.
    InLobby,
    /// A round is running; players see the choice list only.
    RoundBegin { choices: Vec<String> },
    /// The round is over: how many points each player gained.
    RoundEnd { point_gains: Vec<(String, u32)> },
    /// The question list is exhausted; the room is gone.
    GameEnd,
}

/// A join or leave notification, produced by the presence registry and
/// delivered to the room's host.
#[derive(Debug, PartialEq)]
pub enum PlayerEvent {
    Joined(String),
    Left(String),
}

/// The host-facing event for a presence notification: joins and leaves are
/// forwarded to the host connection one for one.
pub fn host_event_of(event: PlayerEvent) -> (e: HostEvent)
    ensures
        event matches PlayerEvent::Joined(u) ==> e == (HostEvent::UserJoined { username: u }),
        event matches PlayerEvent::Left(u) ==> e == (HostEvent::UserLeft { username: u }),
{
    match event {
        PlayerEvent::Joined(username) => HostEvent::UserJoined { username },
        PlayerEvent::Left(username) => HostEvent::UserLeft { username },
    }
}

/// The presence registry of one room: the set of joined usernames, free of
/// duplicates. Joining and leaving return the notification to deliver, and
/// the membership itself is updated before any notification is handed out,
/// so a count queried right after a join already reflects it.
pub struct Users {
    names: Vec<String>,
}

impl View for Users {
    type V = Seq<Seq<char>>;

    /// The registry's model: the sequence of member names.
    closed spec fn view(&self) -> Seq<Seq<char>> {
        self.names.deep_view()
    }
}

impl Users {
    /// No username is registered twice.
    pub open spec fn wf(&self) -> bool {
        unique_names(self@)
    }

    /// An empty registry.
    pub fn new() -> (users: Users)
        ensures
            users.wf(),
            users@ == Seq::<Seq<char>>::empty(),
    {
        let users = Users { names: Vec::new() };
        proof {
            assert(users@ =~= Seq::<Seq<char>>::empty());
        }
        users
    }

    /// The number of players currently joined.
    pub fn player_count(&self) -> (n: usize)
        ensures
            n == self@.len(),
    {
        self.names.len()
    }

    /// Whether every member's name occurs in `answered`.
    pub fn all_answered(&self, answered: &Vec<String>) -> (r: bool)
        ensures
            r == names_subset(self@, answered.deep_view()),
    {
        let mut i: usize = 0;
        while i < self.names.len()
            invariant
                i <= self.names.len(),
                forall|j: int| 0 <= j < i ==> answered.deep_view().contains(self@[j]),
            decreases self.names.len() - i,
        {
            if !contains_name(answered, &self.names[i]) {
                assert(self@[i as int] == self.names.deep_view()[i as int]);
                return false;
            }
            i += 1;
        }
        true
    }

    /// Tries to add a user to the registry. On success the name is a member
    /// at once, and the join notification plus the presence handle for the
    /// new member are returned; a name that is already a member is rejected
    /// and nothing changes.
    pub fn join_user(&mut self, name: String) -> (r: Option<(UserPresence, PlayerEvent)>)
        requires
            old(self).wf(),
        ensures
            final(self).wf(),
            old(self)@.contains(name@) ==> r is None && final(self)@ == old(self)@,
            !old(self)@.contains(name@) ==> {
                &&& final(self)@ == old(self)@.push(name@)
                &&& final(self)@.len() == old(self)@.len() + 1
                &&& final(self)@.contains(name@)
                &&& r matches Some((presence, event)) && presence.name() == name@
                    && presence.is_open() && event == PlayerEvent::Joined(name)
            },
    {
        if contains_name(&self.names, &name) {
            return None;
        }
        let ghost dv = self.names.deep_view();
        let event_name = name.clone();
        let presence_name = name.clone();
        self.names.push(name);
        proof {
            assert(self.names.deep_view() =~= dv.push(event_name@));
            assert(self@[dv.len() as int] == event_name@);
            assert forall|a: int, b: int| 0 <= a < b < self@.len() implies self@[a] != self@[b] by {
                if b < dv.len() {
                    assert(self@[a] == dv[a] && self@[b] == dv[b]);
                } else {
                    assert(self@[b] == event_name@);
                    assert(self@[a] == dv[a]);
                    assert(!dv.contains(event_name@));
                }
            }
        }
        Some(
            (
                UserPresence { username: presence_name, open: true },
                PlayerEvent::Joined(event_name),
            ),
        )
    }
}

/// A successful join is visible in the member count at once, and makes a
/// second join of the same name impossible: after a name joins a membership
/// that lacked it, the count has grown by exactly one and the name is a
/// member: so of two join attempts under one name, exactly one succeeds
/// and one is rejected as a duplicate, whichever order they arrive in.
/// (`join_user` succeeds exactly on a name that is not yet a member, and on
/// success the membership becomes `members.push(name)`.)
pub proof fn lemma_join_exactly_once(members: Seq<Seq<char>>, name: Seq<char>)
    requires
        !members.contains(name),
    ensures
        members.push(name).len() == members.len() + 1,
        members.push(name).contains(name),
{
    assert(members.push(name)[members.len() as int] == name);
}

/// One player's live membership in a room. Closing the presence removes the
/// username from the registry and yields the single leave notification; a
/// presence that was already closed yields nothing and changes nothing, so
/// at most one leave notification can ever come from one presence. The
/// session loop closes its presence on every exit path.
pub struct UserPresence {
    username: String,
    open: bool,
}

impl UserPresence {
    /// The username this presence stands for.
    pub closed spec fn name(&self) -> Seq<char> {
        self.username@
    }

    /// Whether the leave notification is still owed.
    pub closed spec fn is_open(&self) -> bool {
        self.open
    }

    /// Releases the membership: removes the username from the registry and
    /// returns the leave notification to deliver. The first close yields
    /// exactly one `Left` event; any later close yields `None` and leaves
    /// the registry untouched.
    pub fn close(&mut self, users: &mut Users) -> (r: Option<PlayerEvent>)
        requires
            old(users).wf(),
        ensures
            final(users).wf(),
            final(self).name() == old(self).name(),
            !final(self).is_open(),
            r is Some <==> old(self).is_open(),
            old(self).is_open() ==> {
                &&& r matches Some(e) && e matches PlayerEvent::Left(u) && u@ == old(self).name()
                &&& !final(users)@.contains(old(self).name())
                &&& forall|other: Seq<char>|
                    other != old(self).name() ==> final(users)@.contains(other) == old(
                        users,
                    )@.contains(other)
                &&& old(users)@.contains(old(self).name()) ==> final(users)@.len() + 1 == old(
                    users,
                )@.len()
                &&& !old(users)@.contains(old(self).name()) ==> final(users)@ == old(users)@
            },
            !old(self).is_open() ==> r is None && final(users)@ == old(users)@,
    {
        if !self.open {
            return None;
        }
        self.open = false;
        let ghost dv = users.names.deep_view();
        remove_name(&mut users.names, &self.username);
        proof {
            if dv.contains(self.username@) {
                let i = choose|i: int|
                    0 <= i < dv.len() && dv[i] == self.username@ && users.names.deep_view()
                        == dv.remove(i);
                dv.remove_ensures(i);
                assert forall|other: Seq<char>| other != self.username@ implies users@.contains(
                    other,
                ) == dv.contains(other) by {
                    let dvp = users.names.deep_view();
                    if dvp.contains(other) {
                        let j = choose|j: int| 0 <= j < dvp.len() && dvp[j] == other;
                        if j < i {
                            assert(dv[j] == other);
                        } else {
                            assert(dv[j + 1] == other);
                        }
                    }
                    if dv.contains(other) {
                        let j = choose|j: int| 0 <= j < dv.len() && dv[j] == other;
                        if j < i {
                            assert(dvp[j] == other);
                        } else if j > i {
                            assert(dvp[j - 1] == other);
                        }
                    }
                }
            }
        }
        Some(PlayerEvent::Left(self.username.clone()))
    }
}

/// Relies on `rand::random`: draws a room id from the thread-local
/// generator, uniformly over the full identifier space. Nothing is promised
/// of which value comes back; a drawn id may collide with a live room's,
/// and the directory then overwrites the older room.
#[verifier::external_body]
fn random_room_id() -> RoomId {
    rand::random()
}

/// Unique identifiers: no room id occurs twice in the directory's entries.
pub open spec fn ids_unique<R>(s: Seq<(RoomId, R)>) -> bool {
    forall|i: int, j: int| 0 <= i < j < s.len() ==> s[i].0 != s[j].0
}

/// The directory of live rooms, keyed by the randomly drawn room id. `R` is
/// whatever per-room handle the caller stores. All three operations are
/// intended to run under one short-held lock around the whole directory.
pub struct State<R> {
    rooms: Vec<(RoomId, R)>,
}

impl<R> State<R> {
    /// The directory's entries, in insertion order.
    pub closed spec fn entries(&self) -> Seq<(RoomId, R)> {
        self.rooms@
    }

    /// No id maps to two rooms.
    pub open spec fn wf(&self) -> bool {
        ids_unique(self.entries())
    }

    /// Whether a room with this id is present.
    pub open spec fn has_room(&self, id: RoomId) -> bool {
        exists|i: int| 0 <= i < self.entries().len() && self.entries()[i].0 == id
    }

    /// The room stored under this id (meaningful only when `has_room`).
    pub open spec fn room_at(&self, id: RoomId) -> R {
        self.entries()[choose|i: int|
            0 <= i < self.entries().len() && self.entries()[i].0 == id].1
    }

    /// An empty directory.
    pub fn new() -> (state: State<R>)
        ensures
            state.wf(),
            state.entries() == Seq::<(RoomId, R)>::empty(),
    {
        let state = State { rooms: Vec::new() };
        proof {
            assert(state.entries() =~= Seq::<(RoomId, R)>::empty());
        }
        state
    }

    /// Stores a room under a freshly drawn random id and returns the id. If
    /// the drawn id happens to collide with an existing room, the older room
    /// is overwritten; callers accept this as negligible and must not rely
    /// on collisions being rejected.
    pub fn insert_room(&mut self, room: R) -> (id: RoomId)
        requires
            old(self).wf(),
        ensures
            final(self).wf(),
            final(self).has_room(id),
            final(self).room_at(id) == room,
            forall|other: RoomId|
                other != id ==> final(self).has_room(other) == old(self).has_room(other),
            forall|other: RoomId|
                other != id && old(self).has_room(other) ==> final(self).room_at(other) == old(
                    self,
                ).room_at(other),
    {
        let id: RoomId = random_room_id();
        self.remove_room(&id);
        let ghost mid = *self;
        let ghost dv = self.rooms@;
        self.rooms.push((id, room));
        proof {
            let n = dv.len() as int;
            assert(self.entries()[n] == (id, room));
            assert forall|a: int, b: int|
                0 <= a < b < self.entries().len() implies self.entries()[a].0
                != self.entries()[b].0 by {
                if b < n {
                    assert(self.entries()[a] == dv[a] && self.entries()[b] == dv[b]);
                } else {
                    assert(self.entries()[a] == dv[a]);
                    assert(!mid.has_room(id));
                }
            }
            lemma_entry_at(*self, id, n);
            assert forall|other: RoomId| other != id implies self.has_room(other)
                == mid.has_room(other) by {
                if self.has_room(other) {
                    let j = choose|j: int|
                        0 <= j < self.entries().len() && self.entries()[j].0 == other;
                    assert(j < n && dv[j].0 == other);
                }
                if mid.has_room(other) {
                    let j = choose|j: int| 0 <= j < dv.len() && dv[j].0 == other;
                    assert(self.entries()[j].0 == other);
                }
            }
            assert forall|other: RoomId| other != id && mid.has_room(other) implies self.room_at(
                other,
            ) == mid.room_at(other) by {
                let j = choose|j: int| 0 <= j < dv.len() && dv[j].0 == other;
                assert(self.entries()[j].0 == other);
                lemma_entry_at(*self, other, j);
                lemma_entry_at(mid, other, j);
            }
        }
        id
    }

    /// Returns the room stored under `room_id`, or `None` when there is no
    /// such room.
    pub fn find_room(&self, room_id: &RoomId) -> (r: Option<&R>)
        requires
            self.wf(),
        ensures
            r is Some <==> self.has_room(*room_id),
            r matches Some(room) ==> *room == self.room_at(*room_id),
    {
        let mut i: usize = 0;
        while i < self.rooms.len()
            invariant
                i <= self.rooms.len(),
                self.wf(),
                forall|j: int| 0 <= j < i ==> self.entries()[j].0 != *room_id,
            decreases self.rooms.len() - i,
        {
            if self.rooms[i].0 == *room_id {
                proof {
                    lemma_entry_at(*self, *room_id, i as int);
                }
                return Some(&self.rooms[i].1);
            }
            i += 1;
        }
        None
    }

    /// Deletes the room stored under `room_id`; removing an id that is not
    /// present is a no-op, not an error.
    pub fn remove_room(&mut self, room_id: &RoomId)
        requires
            old(self).wf(),
        ensures
            final(self).wf(),
            !final(self).has_room(*room_id),
            forall|other: RoomId|
                other != *room_id ==> final(self).has_room(other) == old(self).has_room(other),
            forall|other: RoomId|
                other != *room_id && old(self).has_room(other) ==> final(self).room_at(other)
                    == old(self).room_at(other),
    {
        let ghost dv = self.rooms@;
        let mut i: usize = 0;
        while i < self.rooms.len()
            invariant
                i <= self.rooms.len(),
                self.rooms@ == dv,
                dv == old(self).entries(),
                ids_unique(dv),
                forall|j: int| 0 <= j < i ==> dv[j].0 != *room_id,
            decreases self.rooms.len() - i,
        {
            if self.rooms[i].0 == *room_id {
                let ghost k = i as int;
                self.rooms.remove(i);
                proof {
                    dv.remove_ensures(k);
                    assert(self.entries() =~= dv.remove(k));
                    let dvp = self.entries();
                    assert forall|a: int, b: int|
                        0 <= a < b < dvp.len() implies dvp[a].0 != dvp[b].0 by {
                        let a0 = if a < k {
                            a
                        } else {
                            a + 1
                        };
                        let b0 = if b < k {
                            b
                        } else {
                            b + 1
                        };
                        assert(dvp[a] == dv[a0] && dvp[b] == dv[b0]);
                        assert(dv[a0].0 != dv[b0].0);
                    }
                    assert forall|j: int| 0 <= j < dvp.len() implies dvp[j].0 != *room_id by {
                        if j < k {
                            assert(dvp[j] == dv[j]);
                        } else {
                            assert(dvp[j] == dv[j + 1]);
                            assert(dv[k].0 != dv[j + 1].0);
                        }
                    }
                    assert forall|other: RoomId| other != *room_id implies self.has_room(other)
                        == old(self).has_room(other) by {
                        if self.has_room(other) {
                            let j = choose|j: int| 0 <= j < dvp.len() && dvp[j].0 == other;
                            if j < k {
                                assert(dv[j].0 == other);
                            } else {
                                assert(dv[j + 1].0 == other);
                            }
                        }
                        if old(self).has_room(other) {
                            let j = choose|j: int| 0 <= j < dv.len() && dv[j].0 == other;
                            if j < k {
                                assert(dvp[j].0 == other);
                            } else if j > k {
                                assert(dvp[j - 1].0 == other);
                            }
                        }
                    }
                    assert forall|other: RoomId|
                        other != *room_id && old(self).has_room(other) implies self.room_at(other)
                        == old(self).room_at(other) by {
                        let j = choose|j: int| 0 <= j < dv.len() && dv[j].0 == other;
                        assert(dv[k].0 == *room_id);
                        let j2 = if j < k {
                            j
                        } else {
                            j - 1
                        };
                        assert(dvp[j2] == dv[j]);
                        lemma_entry_at(*self, other, j2);
                        lemma_entry_at(*old(self), other, j);
                    }
                }
                return ;
            }
            i += 1;
        }
    }
}

/// With unique ids, any index whose entry carries `id` is the index that
/// `has_room` and `room_at` speak of.
pub proof fn lemma_entry_at<R>(s: State<R>, id: RoomId, i: int)
    requires
        s.wf(),
        0 <= i < s.entries().len(),
        s.entries()[i].0 == id,
    ensures
        s.has_room(id),
        s.room_at(id) == s.entries()[i].1,
{
    let j = choose|j: int| 0 <= j < s.entries().len() && s.entries()[j].0 == id;
    if i < j {
        assert(s.entries()[i].0 != s.entries()[j].0);
    } else if j < i {
        assert(s.entries()[j].0 != s.entries()[i].0);
    }
}

} // verus!
