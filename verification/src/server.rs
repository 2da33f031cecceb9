//! The server's state: the room table and the user table, and the operations
//! that change them. Each operation returns the envelopes that it emits.
use crate::clock::{rfc3339_text, Timestamp};
use crate::entity::message::{ClientMessage, Envelope, ServerMessage};
use crate::ident::new_user_id;
use crate::model::{ServerView, UserView};
use crate::room::{ChatMessage, ChatRoom};
use vstd::prelude::*;

verus! {

/// One entry of the user table.
#[derive(Debug)]
struct User {
    id: String,
    username: String,
    current_room: Option<String>,
    pending: Vec<ServerMessage>,
}

impl DeepView for User {
    type V = UserView;

    closed spec fn deep_view(&self) -> UserView {
        UserView {
            id: self.id@,
            username: self.username@,
            current_room: self.current_room.deep_view(),
            pending: self.pending.deep_view(),
        }
    }
}

/// The rooms and the users of one chat server.
#[derive(Debug)]
pub struct ChatServer {
    rooms: Vec<ChatRoom>,
    users: Vec<User>,
}

impl View for ChatServer {
    type V = ServerView;

    closed spec fn view(&self) -> ServerView {
        ServerView { rooms: self.rooms.deep_view(), users: self.users.deep_view() }
    }
}

impl ChatServer {
    /// Whether the server's state meets its invariant.
    pub open spec fn wf(&self) -> bool {
        self@.wf()
    }

    /// A server with the empty room "general" and no users.
    pub fn new() -> (server: ChatServer)
        ensures
            server@ == ServerView::initial(),
            server.wf(),
    {
        let mut rooms: Vec<ChatRoom> = Vec::new();
        rooms.push(ChatRoom::new("general".to_string()));
        let server = ChatServer { rooms, users: Vec::new() };
        proof {
            ServerView::lemma_initial_wf();
            assert(server@.rooms =~= ServerView::initial().rooms);
            assert(server@.users =~= ServerView::initial().users);
        }
        server
    }

    /// Where the room called `name` stands in the room table.
    fn find_room(&self, name: &String) -> (found: Option<usize>)
        ensures
            match found {
                Some(i) => i < self@.rooms.len() && self@.rooms[i as int].name == name@,
                None => !self@.has_room(name@),
            },
    {
        let mut i: usize = 0;
        while i < self.rooms.len()
            invariant
                i <= self.rooms.len(),
                forall|j: int| 0 <= j < i ==> (#[trigger] self@.rooms[j]).name != name@,
            decreases self.rooms.len() - i,
        {
            if *self.rooms[i].name() == *name {
                return Some(i);
            }
            i += 1;
        }
        None
    }

    /// Where the user `id` stands in the user table.
    fn find_user(&self, id: &String) -> (found: Option<usize>)
        ensures
            match found {
                Some(k) => k < self@.users.len() && self@.users[k as int].id == id@,
                None => !self@.has_user(id@),
            },
    {
        let mut k: usize = 0;
        while k < self.users.len()
            invariant
                k <= self.users.len(),
                forall|l: int| 0 <= l < k ==> (#[trigger] self@.users[l]).id != id@,
            decreases self.users.len() - k,
        {
            if self.users[k].id == *id {
                return Some(k);
            }
            k += 1;
        }
        None
    }

    /// The room that the user at place `k` is in.
    fn current_room_at(&self, k: usize) -> (current: Option<String>)
        requires
            k < self@.users.len(),
        ensures
            current.deep_view() == self@.users[k as int].current_room,
    {
        match &self.users[k].current_room {
            Some(name) => Some(name.clone()),
            None => None,
        }
    }

    /// Takes the user at place `k` out of the membership of its current
    /// room and tells that room.
    fn leave_current(&mut self, k: usize) -> (events: Vec<Envelope>)
        requires
            old(self).wf(),
            k < old(self)@.users.len(),
        ensures
            final(self)@ == old(self)@.leave_current(k as int).state,
            events.deep_view() == old(self)@.leave_current(k as int).events,
    {
        let mut events: Vec<Envelope> = Vec::new();
        let user_id = self.users[k].id.clone();
        if let Some(name) = self.current_room_at(k) {
            if let Some(i) = self.find_room(&name) {
                proof {
                    self@.lemma_room_at(i as int);
                }
                if let Some(username) = self.rooms[i].remove_user(user_id.as_str()) {
                    events.push(
                        Envelope::to_room(
                            name.clone(),
                            ServerMessage::UserLeft { username, room_name: name },
                        ),
                    );
                }
                assert(self@.rooms =~= old(self)@.rooms.update(
                    i as int,
                    old(self)@.rooms[i as int].without_member(user_id@),
                ));
            }
        }
        assert(self@.users =~= old(self)@.users);
        assert(self@.rooms =~= old(self)@.leave_current(k as int).state.rooms);
        assert(events.deep_view() =~= old(self)@.leave_current(k as int).events);
        events
    }

    /// Disconnects the user `user_id`: the user leaves the user table and
    /// the membership of its current room, and that room is told so. An id
    /// that is not logged in changes nothing and emits nothing.
    pub fn handle_user_disconnect(&mut self, user_id: &str) -> (events: Vec<Envelope>)
        requires
            old(self).wf(),
        ensures
            final(self).wf(),
            final(self)@ == old(self)@.disconnect(user_id@).state,
            events.deep_view() == old(self)@.disconnect(user_id@).events,
    {
        proof {
            self@.lemma_disconnect(user_id@);
        }
        let key = user_id.to_owned();
        match self.find_user(&key) {
            None => {
                let events: Vec<Envelope> = Vec::new();
                assert(events.deep_view() =~= old(self)@.disconnect(user_id@).events);
                events
            },
            Some(k) => {
                proof {
                    self@.lemma_user_at(k as int);
                }
                let events = self.leave_current(k);
                self.users.remove(k);
                assert(self@.users =~= old(self)@.leave_current(k as int).state.users.remove(
                    k as int,
                ));
                events
            },
        }
    }

    /// Puts a new user at the end of the user table and of the membership of
    /// the first room, which becomes its current room.
    fn enroll(&mut self, user_id: String, username: String)
        requires
            old(self)@.rooms_wf(),
        ensures
            final(self)@ == old(self)@.with_new_user(
                UserView {
                    id: user_id@,
                    username: username@,
                    current_room: Some(old(self)@.rooms[0].name),
                    pending: Seq::empty(),
                },
            ).with_room(0, old(self)@.rooms[0].with_member(user_id@, username@)),
    {
        let room_name = self.rooms[0].name().clone();
        self.rooms[0].add_user(user_id.clone(), username.clone());
        let user = User { id: user_id, username, current_room: Some(room_name), pending: Vec::new() };
        assert(user.pending.deep_view() =~= Seq::empty());
        self.users.push(user);
        assert(self@.rooms =~= old(self)@.rooms.update(
            0,
            old(self)@.rooms[0].with_member(user_id@, username@),
        ));
        assert(self@.users =~= old(self)@.users.push(
            UserView {
                id: user_id@,
                username: username@,
                current_room: Some(old(self)@.rooms[0].name),
                pending: Seq::empty(),
            },
        ));
    }

    /// Registers `user_id` under `username`, puts the user into "general"
    /// and tells "general". Whoever held the id before is disconnected
    /// first.
    pub fn register_user(&mut self, user_id: String, username: String) -> (events: Vec<Envelope>)
        requires
            old(self).wf(),
        ensures
            final(self).wf(),
            final(self)@ == old(self)@.register(user_id@, username@).state,
            events.deep_view() == old(self)@.register(user_id@, username@).events,
    {
        proof {
            self@.lemma_register(user_id@, username@);
            self@.lemma_disconnect(user_id@);
        }
        let mut events = self.handle_user_disconnect(user_id.as_str());
        proof {
            self@.lemma_room_at(0);
        }
        let general = "general".to_string();
        self.enroll(user_id, username.clone());
        events.push(
            Envelope::to_room(
                general.clone(),
                ServerMessage::UserJoined { username, room_name: general },
            ),
        );
        assert(events.deep_view() =~= old(self)@.register(user_id@, username@).events);
        events
    }

    /// Logs a new user in under the id `user_id`, which the caller has
    /// drawn: registers it, and returns the envelopes to publish, a
    /// `Welcome` for the newcomer first.
    pub fn login_as(&mut self, user_id: String, username: String) -> (events: Vec<Envelope>)
        requires
            old(self).wf(),
        ensures
            final(self).wf(),
            final(self)@ == old(self)@.login(user_id@, username@).state,
            events.deep_view() == old(self)@.login(user_id@, username@).events,
    {
        let mut events: Vec<Envelope> = Vec::new();
        events.push(
            Envelope::to_user(user_id.clone(), ServerMessage::Welcome { user_id: user_id.clone() }),
        );
        let mut joined = self.register_user(user_id, username);
        events.append(&mut joined);
        assert(events.deep_view() =~= old(self)@.login(user_id@, username@).events);
        events
    }

    /// Logs a new user in under `username`: draws a random id and does with
    /// it what [`Self::login_as`] does. Returns the id with the envelopes.
    pub fn login(&mut self, username: String) -> (outcome: (String, Vec<Envelope>))
        requires
            old(self).wf(),
        ensures
            final(self).wf(),
            final(self)@ == old(self)@.login(outcome.0@, username@).state,
            outcome.1.deep_view() == old(self)@.login(outcome.0@, username@).events,
    {
        let user_id = new_user_id();
        let events = self.login_as(user_id.clone(), username);
        (user_id, events)
    }

    /// `SendMessage` from the user at place `k`, at the time `now`, whose
    /// text is `stamp`.
    fn say(&mut self, k: usize, content: String, now: Timestamp, stamp: String) -> (events: Vec<
        Envelope,
    >)
        requires
            old(self).wf(),
            k < old(self)@.users.len(),
        ensures
            final(self)@ == old(self)@.say(k as int, content@, now, stamp@).state,
            events.deep_view() == old(self)@.say(k as int, content@, now, stamp@).events,
    {
        let mut events: Vec<Envelope> = Vec::new();
        if let Some(name) = self.current_room_at(k) {
            if let Some(i) = self.find_room(&name) {
                proof {
                    self@.lemma_room_at(i as int);
                }
                let sender = self.users[k].username.clone();
                let line = ChatMessage {
                    sender: sender.clone(),
                    content: content.clone(),
                    timestamp: now,
                };
                self.rooms[i].add_message(line);
                events.push(
                    Envelope::to_room(
                        name.clone(),
                        ServerMessage::NewMessage {
                            sender,
                            content,
                            room_name: name,
                            timestamp: stamp,
                        },
                    ),
                );
                assert(self@.rooms =~= old(self)@.rooms.update(
                    i as int,
                    old(self)@.rooms[i as int].with_message(line@),
                ));
            }
        }
        assert(self@.users =~= old(self)@.users);
        assert(self@.rooms =~= old(self)@.say(k as int, content@, now, stamp@).state.rooms);
        assert(events.deep_view() =~= old(self)@.say(k as int, content@, now, stamp@).events);
        events
    }

    /// `CreateRoom` from the user `user_id`.
    fn create_room(&mut self, user_id: String, room_name: String) -> (events: Vec<Envelope>)
        requires
            old(self).wf(),
        ensures
            final(self)@ == old(self)@.create_room(user_id@, room_name@).state,
            events.deep_view() == old(self)@.create_room(user_id@, room_name@).events,
    {
        let mut events: Vec<Envelope> = Vec::new();
        match self.find_room(&room_name) {
            Some(_) => {
                events.push(
                    Envelope::to_user(
                        user_id,
                        ServerMessage::Error { message: "Room already exists".to_string() },
                    ),
                );
            },
            None => {
                self.rooms.push(ChatRoom::new(room_name.clone()));
                events.push(Envelope::to_user(user_id, ServerMessage::RoomCreated { room_name }));
            },
        }
        assert(self@.users =~= old(self)@.users);
        assert(self@.rooms =~= old(self)@.create_room(user_id@, room_name@).state.rooms);
        assert(events.deep_view() =~= old(self)@.create_room(user_id@, room_name@).events);
        events
    }

    /// Makes the user at place `k` a member of the room at place `n`, and
    /// that room the user's current room.
    fn enter_room(&mut self, k: usize, n: usize)
        requires
            old(self)@.rooms_wf(),
            k < old(self)@.users.len(),
            n < old(self)@.rooms.len(),
        ensures
            final(self)@ == old(self)@.with_room(
                n as int,
                old(self)@.rooms[n as int].with_member(
                    old(self)@.users[k as int].id,
                    old(self)@.users[k as int].username,
                ),
            ).with_user(
                k as int,
                UserView {
                    current_room: Some(old(self)@.rooms[n as int].name),
                    ..old(self)@.users[k as int]
                },
            ),
    {
        let user_id = self.users[k].id.clone();
        let username = self.users[k].username.clone();
        let room_name = self.rooms[n].name().clone();
        self.rooms[n].add_user(user_id, username);
        self.users[k].current_room = Some(room_name);
        assert(self@.rooms =~= old(self)@.rooms.update(
            n as int,
            old(self)@.rooms[n as int].with_member(
                old(self)@.users[k as int].id,
                old(self)@.users[k as int].username,
            ),
        ));
        assert(self@.users =~= old(self)@.users.update(
            k as int,
            UserView {
                current_room: Some(old(self)@.rooms[n as int].name),
                ..old(self)@.users[k as int]
            },
        ));
    }

    /// `JoinRoom` from the user at place `k`.
    fn join_room(&mut self, k: usize, room_name: String) -> (events: Vec<Envelope>)
        requires
            old(self).wf(),
            k < old(self)@.users.len(),
        ensures
            final(self)@ == old(self)@.join_room(k as int, room_name@).state,
            events.deep_view() == old(self)@.join_room(k as int, room_name@).events,
    {
        let user_id = self.users[k].id.clone();
        match self.find_room(&room_name) {
            None => {
                let mut events: Vec<Envelope> = Vec::new();
                events.push(
                    Envelope::to_user(
                        user_id,
                        ServerMessage::Error { message: "Room not found".to_string() },
                    ),
                );
                assert(events.deep_view() =~= old(self)@.join_room(k as int, room_name@).events);
                events
            },
            Some(n) => {
                proof {
                    self@.lemma_room_at(n as int);
                    self@.lemma_leave_current(k as int);
                }
                let username = self.users[k].username.clone();
                let mut events = self.leave_current(k);
                self.enter_room(k, n);
                events.push(
                    Envelope::to_room(
                        room_name.clone(),
                        ServerMessage::UserJoined { username, room_name: room_name.clone() },
                    ),
                );
                events.push(Envelope::to_user(user_id, ServerMessage::JoinedRoom { room_name }));
                assert(events.deep_view() =~= old(self)@.join_room(k as int, room_name@).events);
                events
            },
        }
    }

    /// The names of all rooms, in the order in which they were created.
    pub fn get_room_list(&self) -> (names: Vec<String>)
        ensures
            names.deep_view() == self@.room_names(),
    {
        let mut names: Vec<String> = Vec::new();
        let mut i: usize = 0;
        while i < self.rooms.len()
            invariant
                i <= self.rooms.len(),
                names.len() == i,
                forall|j: int| 0 <= j < i ==> (#[trigger] names[j])@ == self@.rooms[j].name,
            decreases self.rooms.len() - i,
        {
            names.push(self.rooms[i].name().clone());
            i += 1;
        }
        assert(names.deep_view() =~= self@.room_names());
        names
    }

    /// `ListRooms` from the user `user_id`.
    fn list_rooms(&self, user_id: String) -> (events: Vec<Envelope>)
        ensures
            events.deep_view() == self@.list_rooms(user_id@).events,
    {
        let mut events: Vec<Envelope> = Vec::new();
        events.push(
            Envelope::to_user(user_id, ServerMessage::RoomList { rooms: self.get_room_list() }),
        );
        assert(events.deep_view() =~= self@.list_rooms(user_id@).events);
        events
    }

    /// `ListUsers` from the user at place `k`.
    fn list_users(&self, k: usize) -> (events: Vec<Envelope>)
        requires
            self.wf(),
            k < self@.users.len(),
        ensures
            events.deep_view() == self@.list_users(k as int).events,
    {
        let mut events: Vec<Envelope> = Vec::new();
        if let Some(name) = self.current_room_at(k) {
            if let Some(i) = self.find_room(&name) {
                proof {
                    self@.lemma_room_at(i as int);
                }
                events.push(
                    Envelope::to_user(
                        self.users[k].id.clone(),
                        ServerMessage::UserList { users: self.rooms[i].get_user_list() },
                    ),
                );
            }
        }
        assert(events.deep_view() =~= self@.list_users(k as int).events);
        events
    }

    /// Carries out `message` from the user `user_id`, at the time `now`,
    /// whose RFC 3339 text is `stamp`. A message from an id that is not
    /// logged in does nothing, and neither do `Login` and `LeaveRoom`.
    pub fn handle_message_at(
        &mut self,
        user_id: String,
        message: ClientMessage,
        now: Timestamp,
        stamp: String,
    ) -> (events: Vec<Envelope>)
        requires
            old(self).wf(),
        ensures
            final(self).wf(),
            final(self)@ == old(self)@.handle(user_id@, message@, now, stamp@).state,
            events.deep_view() == old(self)@.handle(user_id@, message@, now, stamp@).events,
    {
        proof {
            self@.lemma_handle(user_id@, message@, now, stamp@);
        }
        match self.find_user(&user_id) {
            None => {
                let events: Vec<Envelope> = Vec::new();
                assert(events.deep_view() =~= Seq::empty());
                events
            },
            Some(k) => {
                proof {
                    self@.lemma_user_at(k as int);
                }
                match message {
                    ClientMessage::SendMessage { content } => self.say(k, content, now, stamp),
                    ClientMessage::CreateRoom { room_name } => self.create_room(user_id, room_name),
                    ClientMessage::JoinRoom { room_name } => self.join_room(k, room_name),
                    ClientMessage::ListRooms => self.list_rooms(user_id),
                    ClientMessage::ListUsers => self.list_users(k),
                    ClientMessage::Login { .. } | ClientMessage::LeaveRoom { .. } => {
                        let events: Vec<Envelope> = Vec::new();
                        assert(events.deep_view() =~= Seq::empty());
                        events
                    },
                }
            },
        }
    }

    /// Carries out `message` from the user `user_id` at the current time.
    /// What is done is what [`Self::handle_message_at`] does at some instant
    /// and with the text that `chrono` writes for that instant.
    pub fn handle_message(&mut self, user_id: String, message: ClientMessage) -> (events: Vec<
        Envelope,
    >)
        requires
            old(self).wf(),
        ensures
            final(self).wf(),
            exists|now: Timestamp, stamp: Seq<char>|
                {
                    &&& rfc3339_text(now.secs, now.nanos) == Some(stamp)
                    &&& final(self)@ == (#[trigger] old(self)@.handle(
                        user_id@,
                        message@,
                        now,
                        stamp,
                    )).state
                    &&& events.deep_view() == old(self)@.handle(user_id@, message@, now, stamp).events
                },
    {
        let now = Timestamp::now();
        let stamp = now.to_rfc3339().unwrap();
        self.handle_message_at(user_id, message, now, stamp)
    }

    /// The room that the user `user_id` is in; `None` also where nobody is
    /// logged in under that id.
    pub fn current_room(&self, user_id: &str) -> (room: Option<String>)
        ensures
            self.wf() ==> room.deep_view() == self@.current_room_of(user_id@),
    {
        let key = user_id.to_owned();
        match self.find_user(&key) {
            None => None,
            Some(k) => {
                proof {
                    if self.wf() {
                        self@.lemma_user_at(k as int);
                    }
                }
                self.current_room_at(k)
            },
        }
    }

    /// The room called `name`, if there is one.
    pub fn room(&self, name: &str) -> (room: Option<&ChatRoom>)
        ensures
            room is Some == self@.has_room(name@),
            self.wf() && room is Some ==> room.unwrap()@ == self@.room(name@),
    {
        let key = name.to_owned();
        match self.find_room(&key) {
            None => None,
            Some(i) => {
                proof {
                    if self.wf() {
                        self@.lemma_room_at(i as int);
                    }
                }
                Some(&self.rooms[i])
            },
        }
    }

    /// Whether `envelope` reaches the user at place `k`.
    fn reaches(&self, envelope: &Envelope, k: usize) -> (reached: bool)
        requires
            k < self@.users.len(),
        ensures
            reached == envelope@.reaches(
                self@.users[k as int].id,
                self@.users[k as int].current_room,
            ),
    {
        let named = match &envelope.target_user {
            Some(target) => *target == self.users[k].id,
            None => false,
        };
        if named {
            return true;
        }
        match &envelope.target_room {
            Some(target) => match &self.users[k].current_room {
                Some(current) => *current == *target,
                None => false,
            },
            None => false,
        }
    }

    /// Delivers one envelope.
    fn deliver_one(&mut self, envelope: &Envelope)
        requires
            old(self).wf(),
        ensures
            final(self).wf(),
            final(self)@ == old(self)@.delivered(envelope@),
    {
        let mut k: usize = 0;
        while k < self.users.len()
            invariant
                k <= self@.users.len(),
                self@.rooms == old(self)@.rooms,
                self@.users.len() == old(self)@.users.len(),
                forall|l: int|
                    0 <= l < k ==> #[trigger] self@.users[l] == old(self)@.users[l].received(
                        envelope@,
                    ),
                forall|l: int|
                    k <= l < self@.users.len() ==> #[trigger] self@.users[l] == old(self)@.users[l],
            decreases self.users.len() - k,
        {
            if self.reaches(envelope, k) {
                let ghost before = self@;
                self.users[k].pending.push(envelope.event.clone());
                assert(self.users[k as int].pending.deep_view() =~= before.users[k as int].pending.push(
                    envelope@.event,
                ));
                assert(self@.rooms =~= before.rooms);
                assert(self@.users =~= before.users.update(
                    k as int,
                    before.users[k as int].received(envelope@),
                ));
            }
            k += 1;
        }
        proof {
            old(self)@.lemma_delivered(envelope@);
            assert(self@.users =~= old(self)@.delivered(envelope@).users);
        }
    }

    /// Delivers `envelopes`, in their order, to the users they reach: each
    /// event waits with its user until [`Self::get_pending_messages`]
    /// collects it. This is for transports that poll; one that publishes the
    /// envelopes need not call it.
    pub fn deliver(&mut self, envelopes: &Vec<Envelope>)
        requires
            old(self).wf(),
        ensures
            final(self).wf(),
            final(self)@ == old(self)@.delivered_all(envelopes.deep_view()),
    {
        let mut e: usize = 0;
        assert(envelopes.deep_view().take(0) =~= Seq::empty());
        while e < envelopes.len()
            invariant
                e <= envelopes.len(),
                self.wf(),
                self@ == old(self)@.delivered_all(envelopes.deep_view().take(e as int)),
            decreases envelopes.len() - e,
        {
            self.deliver_one(&envelopes[e]);
            proof {
                let done = envelopes.deep_view().take(e + 1);
                assert(done.drop_last() =~= envelopes.deep_view().take(e as int));
                assert(done.last() == envelopes[e as int]@);
            }
            e += 1;
        }
        assert(envelopes.deep_view().take(e as int) =~= envelopes.deep_view());
    }

    /// Takes the events that wait for the user at place `k`.
    fn take_pending(&mut self, k: usize) -> (messages: Vec<ServerMessage>)
        requires
            k < old(self)@.users.len(),
        ensures
            messages.deep_view() == old(self)@.users[k as int].pending,
            final(self)@ == old(self)@.with_user(
                k as int,
                UserView { pending: Seq::empty(), ..old(self)@.users[k as int] },
            ),
    {
        let mut messages: Vec<ServerMessage> = Vec::new();
        std::mem::swap(&mut messages, &mut self.users[k].pending);
        assert(self.users[k as int].pending.deep_view() =~= Seq::empty());
        assert(self@.rooms =~= old(self)@.rooms);
        assert(self@.users =~= old(self)@.users.update(
            k as int,
            UserView { pending: Seq::empty(), ..old(self)@.users[k as int] },
        ));
        messages
    }

    /// Collects the events that wait for the user `user_id`, oldest first.
    /// Nothing waits for an id that is not logged in.
    pub fn get_pending_messages(&mut self, user_id: &str) -> (messages: Vec<ServerMessage>)
        requires
            old(self).wf(),
        ensures
            final(self).wf(),
            messages.deep_view() == old(self)@.pending_of(user_id@),
            final(self)@ == old(self)@.collected(user_id@),
    {
        proof {
            self@.lemma_collected(user_id@);
        }
        let key = user_id.to_owned();
        match self.find_user(&key) {
            None => {
                let messages: Vec<ServerMessage> = Vec::new();
                assert(messages.deep_view() =~= Seq::empty());
                messages
            },
            Some(k) => {
                proof {
                    self@.lemma_user_at(k as int);
                }
                self.take_pending(k)
            },
        }
    }
}

} // verus!
