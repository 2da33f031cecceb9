//! The mathematical model of the server: its state as sequences of rooms and
//! users, and each operation as a function from state to state and events.
use crate::clock::Timestamp;
use crate::entity::message::{ClientMessageView, EnvelopeView, ServerMessageView};
use crate::room::{MessageView, RoomView};
use vstd::prelude::*;

verus! {

/// The name of the room that exists from the start and that every new user
/// is put into.
pub open spec fn general_room() -> Seq<char> {
    "general"@
}

/// What the server answers to a `CreateRoom` whose name is taken.
pub open spec fn room_exists_text() -> Seq<char> {
    "Room already exists"@
}

/// What the server answers to a `JoinRoom` whose room it does not know.
pub open spec fn room_missing_text() -> Seq<char> {
    "Room not found"@
}

/// The mathematical value of a user record: who the user is, the room it is
/// in, and the events that were delivered to it and not yet collected.
pub struct UserView {
    pub id: Seq<char>,
    pub username: Seq<char>,
    pub current_room: Option<Seq<char>>,
    pub pending: Seq<ServerMessageView>,
}

impl UserView {
    /// The record after `envelope` was delivered: its event waits at the
    /// end of the pending events if the envelope reaches the user.
    pub open spec fn received(self, envelope: EnvelopeView) -> UserView {
        if envelope.reaches(self.id, self.current_room) {
            UserView { pending: self.pending.push(envelope.event), ..self }
        } else {
            self
        }
    }
}

/// The mathematical value of a server: the room table in the order in which
/// the rooms were created, and the user table in the order of the logins.
pub struct ServerView {
    pub rooms: Seq<RoomView>,
    pub users: Seq<UserView>,
}

/// What an operation leaves behind: the next state, and the envelopes to
/// publish, in the order in which they are emitted.
pub struct Outcome {
    pub state: ServerView,
    pub events: Seq<EnvelopeView>,
}

impl ServerView {
    /// The state of a server that has just started: an empty room "general"
    /// and nobody logged in.
    pub open spec fn initial() -> ServerView {
        ServerView { rooms: seq![RoomView::empty(general_room())], users: Seq::empty() }
    }

    /// Whether the room table holds a room called `name`.
    pub open spec fn has_room(self, name: Seq<char>) -> bool {
        exists|i: int| 0 <= i < self.rooms.len() && (#[trigger] self.rooms[i]).name == name
    }

    /// Where the room called `name` stands in the room table, if it is there.
    pub open spec fn room_index(self, name: Seq<char>) -> int {
        choose|i: int| 0 <= i < self.rooms.len() && (#[trigger] self.rooms[i]).name == name
    }

    /// The room called `name`, if the room table holds it.
    pub open spec fn room(self, name: Seq<char>) -> RoomView {
        self.rooms[self.room_index(name)]
    }

    /// Whether the user table holds the user `id`.
    pub open spec fn has_user(self, id: Seq<char>) -> bool {
        exists|k: int| 0 <= k < self.users.len() && (#[trigger] self.users[k]).id == id
    }

    /// Where the user `id` stands in the user table, if it is there.
    pub open spec fn user_index(self, id: Seq<char>) -> int {
        choose|k: int| 0 <= k < self.users.len() && (#[trigger] self.users[k]).id == id
    }

    /// The record of the user `id`, if the user table holds it.
    pub open spec fn user(self, id: Seq<char>) -> UserView {
        self.users[self.user_index(id)]
    }

    /// The room that the user `id` is in; `None` also where there is no such
    /// user.
    pub open spec fn current_room_of(self, id: Seq<char>) -> Option<Seq<char>> {
        if self.has_user(id) {
            self.user(id).current_room
        } else {
            None
        }
    }

    /// The names of all rooms, in the order of the room table.
    pub open spec fn room_names(self) -> Seq<Seq<char>> {
        Seq::new(self.rooms.len(), |i: int| self.rooms[i].name)
    }

    /// The room table starts with "general", every room is well-formed, and
    /// no two rooms share a name.
    pub open spec fn rooms_wf(self) -> bool {
        &&& self.rooms.len() > 0
        &&& self.rooms[0].name == general_room()
        &&& forall|i: int| 0 <= i < self.rooms.len() ==> (#[trigger] self.rooms[i]).wf()
        &&& forall|i: int, j: int|
            0 <= i < j < self.rooms.len() ==> (#[trigger] self.rooms[i]).name != (
            #[trigger] self.rooms[j]).name
    }

    /// No two users share an id.
    pub open spec fn users_wf(self) -> bool {
        forall|k: int, l: int|
            0 <= k < l < self.users.len() ==> (#[trigger] self.users[k]).id != (
            #[trigger] self.users[l]).id
    }

    /// A user's current room exists, and the user is a member of it under
    /// its own name.
    pub open spec fn residents_wf(self) -> bool {
        forall|k: int|
            0 <= k < self.users.len() && (#[trigger] self.users[k]).current_room is Some ==> {
                let name = self.users[k].current_room.unwrap();
                &&& self.has_room(name)
                &&& self.room(name).username_of(self.users[k].id) == Some(self.users[k].username)
            }
    }

    /// Whoever is a member of a room is a user whose current room it is. So
    /// nobody is a member of two rooms.
    pub open spec fn members_wf(self) -> bool {
        forall|i: int, id: Seq<char>|
            0 <= i < self.rooms.len() && #[trigger] self.rooms[i].has_member(id) ==> {
                &&& self.has_user(id)
                &&& self.user(id).current_room == Some(self.rooms[i].name)
            }
    }

    /// The invariant of the server's state.
    pub open spec fn wf(self) -> bool {
        &&& self.rooms_wf()
        &&& self.users_wf()
        &&& self.residents_wf()
        &&& self.members_wf()
    }

    /// The invariant as it stands while the user `id` is between rooms: the
    /// user is a member of no room, and nothing is asked of its current
    /// room. Everything else is as in [`Self::wf`].
    pub open spec fn wf_but_for(self, id: Seq<char>) -> bool {
        &&& self.rooms_wf()
        &&& self.users_wf()
        &&& self.members_wf()
        &&& forall|i: int| 0 <= i < self.rooms.len() ==> !(#[trigger] self.rooms[i]).has_member(id)
        &&& forall|k: int|
            0 <= k < self.users.len() && (#[trigger] self.users[k]).current_room is Some
                && self.users[k].id != id ==> {
                let name = self.users[k].current_room.unwrap();
                &&& self.has_room(name)
                &&& self.room(name).username_of(self.users[k].id) == Some(self.users[k].username)
            }
    }

    /// The state in which `room` stands at place `i` of the room table.
    pub open spec fn with_room(self, i: int, room: RoomView) -> ServerView {
        ServerView { rooms: self.rooms.update(i, room), ..self }
    }

    /// The state in which `user` stands at place `k` of the user table.
    pub open spec fn with_user(self, k: int, user: UserView) -> ServerView {
        ServerView { users: self.users.update(k, user), ..self }
    }

    /// The state without the user at place `k` of the user table.
    pub open spec fn without_user(self, k: int) -> ServerView {
        ServerView { users: self.users.remove(k), ..self }
    }

    /// The state with `user` at the end of the user table.
    pub open spec fn with_new_user(self, user: UserView) -> ServerView {
        ServerView { users: self.users.push(user), ..self }
    }

    /// The state with `room` at the end of the room table.
    pub open spec fn with_new_room(self, room: RoomView) -> ServerView {
        ServerView { rooms: self.rooms.push(room), ..self }
    }

    /// The user at place `k` leaves the membership of its current room, and
    /// that room is told so. Nothing happens if the user has no current
    /// room, or is no member of it.
    pub open spec fn leave_current(self, k: int) -> Outcome {
        let user = self.users[k];
        if user.current_room is Some && self.has_room(user.current_room.unwrap()) && self.room(
            user.current_room.unwrap(),
        ).has_member(user.id) {
            let name = user.current_room.unwrap();
            let i = self.room_index(name);
            let event = ServerMessageView::UserLeft {
                username: self.rooms[i].username_of(user.id).unwrap(),
                room_name: name,
            };
            Outcome {
                state: self.with_room(i, self.rooms[i].without_member(user.id)),
                events: seq![EnvelopeView::to_room(name, event)],
            }
        } else {
            Outcome { state: self, events: Seq::empty() }
        }
    }

    /// Disconnecting `id`: an unknown id changes nothing. A known user leaves
    /// its current room as in [`Self::leave_current`], and then the user
    /// table.
    pub open spec fn disconnect(self, id: Seq<char>) -> Outcome {
        if !self.has_user(id) {
            Outcome { state: self, events: Seq::empty() }
        } else {
            let k = self.user_index(id);
            let left = self.leave_current(k);
            Outcome { state: left.state.without_user(k), events: left.events }
        }
    }

    /// Registering `id` as `username`: whoever held the id before is
    /// disconnected first. Then the user enters the user table with "general"
    /// as its current room, becomes a member of "general", and "general" is
    /// told so.
    pub open spec fn register(self, id: Seq<char>, username: Seq<char>) -> Outcome {
        let before = self.disconnect(id);
        let cleared = before.state;
        let user = UserView {
            id,
            username,
            current_room: Some(general_room()),
            pending: Seq::empty(),
        };
        let listed = cleared.with_new_user(user);
        let joined = ServerMessageView::UserJoined { username, room_name: general_room() };
        Outcome {
            state: if cleared.has_room(general_room()) {
                let g = cleared.room_index(general_room());
                listed.with_room(g, cleared.rooms[g].with_member(id, username))
            } else {
                listed
            },
            events: before.events.push(EnvelopeView::to_room(general_room(), joined)),
        }
    }

    /// A login under the fresh id `id`: the registration, with a `Welcome`
    /// for the newcomer alone put before its events.
    pub open spec fn login(self, id: Seq<char>, username: Seq<char>) -> Outcome {
        let registered = self.register(id, username);
        let welcome = EnvelopeView::to_user(id, ServerMessageView::Welcome { user_id: id });
        Outcome { state: registered.state, events: seq![welcome] + registered.events }
    }

    /// `SendMessage` from the user at place `k`: the message enters the
    /// history of the user's current room and goes out to that room. Without
    /// a current room nothing happens.
    pub open spec fn say(self, k: int, content: Seq<char>, now: Timestamp, stamp: Seq<char>)
        -> Outcome {
        let user = self.users[k];
        if user.current_room is Some && self.has_room(user.current_room.unwrap()) {
            let name = user.current_room.unwrap();
            let i = self.room_index(name);
            let line = MessageView { sender: user.username, content, timestamp: now };
            let event = ServerMessageView::NewMessage {
                sender: user.username,
                content,
                room_name: name,
                timestamp: stamp,
            };
            Outcome {
                state: self.with_room(i, self.rooms[i].with_message(line)),
                events: seq![EnvelopeView::to_room(name, event)],
            }
        } else {
            Outcome { state: self, events: Seq::empty() }
        }
    }

    /// `CreateRoom` from the user `id`: a new name gives an empty room at the
    /// end of the room table, a taken name gives an error and changes
    /// nothing. Either way only the requester is told.
    pub open spec fn create_room(self, id: Seq<char>, name: Seq<char>) -> Outcome {
        if self.has_room(name) {
            let error = ServerMessageView::Error { message: room_exists_text() };
            Outcome { state: self, events: seq![EnvelopeView::to_user(id, error)] }
        } else {
            let created = ServerMessageView::RoomCreated { room_name: name };
            Outcome {
                state: self.with_new_room(RoomView::empty(name)),
                events: seq![EnvelopeView::to_user(id, created)],
            }
        }
    }

    /// `JoinRoom` from the user at place `k`: an unknown room gives an error
    /// for the requester and changes nothing. Otherwise the user leaves its
    /// current room as in [`Self::leave_current`], enters the membership of
    /// the new room at its end, and has the new room as its current room; the
    /// new room is told, and then the requester.
    pub open spec fn join_room(self, k: int, name: Seq<char>) -> Outcome {
        let user = self.users[k];
        if !self.has_room(name) {
            let error = ServerMessageView::Error { message: room_missing_text() };
            Outcome { state: self, events: seq![EnvelopeView::to_user(user.id, error)] }
        } else {
            let left = self.leave_current(k);
            let n = self.room_index(name);
            let entered = left.state.with_room(
                n,
                left.state.rooms[n].with_member(user.id, user.username),
            );
            let joined = ServerMessageView::UserJoined { username: user.username, room_name: name };
            let confirmed = ServerMessageView::JoinedRoom { room_name: name };
            Outcome {
                state: entered.with_user(k, UserView { current_room: Some(name), ..user }),
                events: left.events.push(EnvelopeView::to_room(name, joined)).push(
                    EnvelopeView::to_user(user.id, confirmed),
                ),
            }
        }
    }

    /// `ListRooms` from the user `id`: the names of all rooms, for the
    /// requester alone.
    pub open spec fn list_rooms(self, id: Seq<char>) -> Outcome {
        let list = ServerMessageView::RoomList { rooms: self.room_names() };
        Outcome { state: self, events: seq![EnvelopeView::to_user(id, list)] }
    }

    /// `ListUsers` from the user at place `k`: the names of the members of
    /// the user's current room, for the requester alone. Without a current
    /// room nothing happens.
    pub open spec fn list_users(self, k: int) -> Outcome {
        let user = self.users[k];
        if user.current_room is Some && self.has_room(user.current_room.unwrap()) {
            let list = ServerMessageView::UserList {
                users: self.room(user.current_room.unwrap()).member_names(),
            };
            Outcome { state: self, events: seq![EnvelopeView::to_user(user.id, list)] }
        } else {
            Outcome { state: self, events: Seq::empty() }
        }
    }

    /// What `message` from the user `id` does at the time `now`, whose RFC
    /// 3339 text is `stamp`. A message from an unknown id does nothing, and
    /// neither do `Login` and `LeaveRoom`.
    pub open spec fn handle(
        self,
        id: Seq<char>,
        message: ClientMessageView,
        now: Timestamp,
        stamp: Seq<char>,
    ) -> Outcome {
        if !self.has_user(id) {
            Outcome { state: self, events: Seq::empty() }
        } else {
            let k = self.user_index(id);
            match message {
                ClientMessageView::SendMessage { content } => self.say(k, content, now, stamp),
                ClientMessageView::CreateRoom { room_name } => self.create_room(id, room_name),
                ClientMessageView::JoinRoom { room_name } => self.join_room(k, room_name),
                ClientMessageView::ListRooms => self.list_rooms(id),
                ClientMessageView::ListUsers => self.list_users(k),
                ClientMessageView::Login { .. } | ClientMessageView::LeaveRoom { .. } => Outcome {
                    state: self,
                    events: Seq::empty(),
                },
            }
        }
    }

    /// The state after `envelope` was delivered to every user it reaches.
    pub open spec fn delivered(self, envelope: EnvelopeView) -> ServerView {
        ServerView {
            users: Seq::new(self.users.len(), |k: int| self.users[k].received(envelope)),
            ..self
        }
    }

    /// The state after `envelopes` were delivered, one after the other.
    pub open spec fn delivered_all(self, envelopes: Seq<EnvelopeView>) -> ServerView
        decreases envelopes.len(),
    {
        if envelopes.len() == 0 {
            self
        } else {
            self.delivered_all(envelopes.drop_last()).delivered(envelopes.last())
        }
    }

    /// The events that wait for the user `id`, oldest first; none where
    /// there is no such user.
    pub open spec fn pending_of(self, id: Seq<char>) -> Seq<ServerMessageView> {
        if self.has_user(id) {
            self.user(id).pending
        } else {
            Seq::empty()
        }
    }

    /// The state after the user `id` collected its pending events.
    pub open spec fn collected(self, id: Seq<char>) -> ServerView {
        if self.has_user(id) {
            self.with_user(
                self.user_index(id),
                UserView { pending: Seq::empty(), ..self.user(id) },
            )
        } else {
            self
        }
    }
}

} // verus!
