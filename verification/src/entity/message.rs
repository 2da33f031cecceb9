//! Client intents, server events, and the envelope that addresses an event.
use vstd::prelude::*;

verus! {

/// What a client asks of the server.
#[derive(Debug, Clone, PartialEq, Eq)]
pub enum ClientMessage {
    Login { username: String },
    SendMessage { content: String },
    JoinRoom { room_name: String },
    LeaveRoom { room_name: String },
    CreateRoom { room_name: String },
    ListRooms,
    ListUsers,
}

/// The mathematical value of a [`ClientMessage`].
pub enum ClientMessageView {
    Login { username: Seq<char> },
    SendMessage { content: Seq<char> },
    JoinRoom { room_name: Seq<char> },
    LeaveRoom { room_name: Seq<char> },
    CreateRoom { room_name: Seq<char> },
    ListRooms,
    ListUsers,
}

impl View for ClientMessage {
    type V = ClientMessageView;

    open spec fn view(&self) -> ClientMessageView {
        match *self {
            ClientMessage::Login { username } => ClientMessageView::Login { username: username@ },
            ClientMessage::SendMessage { content } => ClientMessageView::SendMessage {
                content: content@,
            },
            ClientMessage::JoinRoom { room_name } => ClientMessageView::JoinRoom {
                room_name: room_name@,
            },
            ClientMessage::LeaveRoom { room_name } => ClientMessageView::LeaveRoom {
                room_name: room_name@,
            },
            ClientMessage::CreateRoom { room_name } => ClientMessageView::CreateRoom {
                room_name: room_name@,
            },
            ClientMessage::ListRooms => ClientMessageView::ListRooms,
            ClientMessage::ListUsers => ClientMessageView::ListUsers,
        }
    }
}

impl DeepView for ClientMessage {
    type V = ClientMessageView;

    open spec fn deep_view(&self) -> ClientMessageView {
        self@
    }
}

/// What the server tells a client.
#[derive(Debug, PartialEq, Eq)]
pub enum ServerMessage {
    Welcome { user_id: String },
    UserJoined { username: String, room_name: String },
    UserLeft { username: String, room_name: String },
    NewMessage { sender: String, content: String, room_name: String, timestamp: String },
    RoomCreated { room_name: String },
    JoinedRoom { room_name: String },
    LeftRoom { room_name: String },
    RoomList { rooms: Vec<String> },
    UserList { users: Vec<String> },
    Error { message: String },
}

/// The mathematical value of a [`ServerMessage`].
pub enum ServerMessageView {
    Welcome { user_id: Seq<char> },
    UserJoined { username: Seq<char>, room_name: Seq<char> },
    UserLeft { username: Seq<char>, room_name: Seq<char> },
    NewMessage { sender: Seq<char>, content: Seq<char>, room_name: Seq<char>, timestamp: Seq<char> },
    RoomCreated { room_name: Seq<char> },
    JoinedRoom { room_name: Seq<char> },
    LeftRoom { room_name: Seq<char> },
    RoomList { rooms: Seq<Seq<char>> },
    UserList { users: Seq<Seq<char>> },
    Error { message: Seq<char> },
}

impl View for ServerMessage {
    type V = ServerMessageView;

    open spec fn view(&self) -> ServerMessageView {
        match *self {
            ServerMessage::Welcome { user_id } => ServerMessageView::Welcome { user_id: user_id@ },
            ServerMessage::UserJoined { username, room_name } => ServerMessageView::UserJoined {
                username: username@,
                room_name: room_name@,
            },
            ServerMessage::UserLeft { username, room_name } => ServerMessageView::UserLeft {
                username: username@,
                room_name: room_name@,
            },
            ServerMessage::NewMessage {
                sender,
                content,
                room_name,
                timestamp,
            } => ServerMessageView::NewMessage {
                sender: sender@,
                content: content@,
                room_name: room_name@,
                timestamp: timestamp@,
            },
            ServerMessage::RoomCreated { room_name } => ServerMessageView::RoomCreated {
                room_name: room_name@,
            },
            ServerMessage::JoinedRoom { room_name } => ServerMessageView::JoinedRoom {
                room_name: room_name@,
            },
            ServerMessage::LeftRoom { room_name } => ServerMessageView::LeftRoom {
                room_name: room_name@,
            },
            ServerMessage::RoomList { rooms } => ServerMessageView::RoomList {
                rooms: rooms.deep_view(),
            },
            ServerMessage::UserList { users } => ServerMessageView::UserList {
                users: users.deep_view(),
            },
            ServerMessage::Error { message } => ServerMessageView::Error { message: message@ },
        }
    }
}

impl DeepView for ServerMessage {
    type V = ServerMessageView;

    open spec fn deep_view(&self) -> ServerMessageView {
        self@
    }
}

/// A copy of a list of names.
fn clone_names(names: &Vec<String>) -> (copy: Vec<String>)
    ensures
        copy.deep_view() == names.deep_view(),
{
    let mut copy: Vec<String> = Vec::new();
    let mut i: usize = 0;
    while i < names.len()
        invariant
            i <= names.len(),
            copy.len() == i,
            forall|j: int| 0 <= j < i ==> (#[trigger] copy[j])@ == names[j]@,
        decreases names.len() - i,
    {
        copy.push(names[i].clone());
        i += 1;
    }
    assert(copy.deep_view() =~= names.deep_view());
    copy
}

impl Clone for ServerMessage {
    fn clone(&self) -> (copy: ServerMessage)
        ensures
            copy@ == self@,
    {
        match self {
            ServerMessage::Welcome { user_id } => ServerMessage::Welcome {
                user_id: user_id.clone(),
            },
            ServerMessage::UserJoined { username, room_name } => ServerMessage::UserJoined {
                username: username.clone(),
                room_name: room_name.clone(),
            },
            ServerMessage::UserLeft { username, room_name } => ServerMessage::UserLeft {
                username: username.clone(),
                room_name: room_name.clone(),
            },
            ServerMessage::NewMessage {
                sender,
                content,
                room_name,
                timestamp,
            } => ServerMessage::NewMessage {
                sender: sender.clone(),
                content: content.clone(),
                room_name: room_name.clone(),
                timestamp: timestamp.clone(),
            },
            ServerMessage::RoomCreated { room_name } => ServerMessage::RoomCreated {
                room_name: room_name.clone(),
            },
            ServerMessage::JoinedRoom { room_name } => ServerMessage::JoinedRoom {
                room_name: room_name.clone(),
            },
            ServerMessage::LeftRoom { room_name } => ServerMessage::LeftRoom {
                room_name: room_name.clone(),
            },
            ServerMessage::RoomList { rooms } => ServerMessage::RoomList {
                rooms: clone_names(rooms),
            },
            ServerMessage::UserList { users } => ServerMessage::UserList {
                users: clone_names(users),
            },
            ServerMessage::Error { message } => ServerMessage::Error { message: message.clone() },
        }
    }
}

/// An event together with its addressing: one user, one room, or nobody.
#[derive(Debug, Clone, PartialEq, Eq)]
pub struct Envelope {
    pub event: ServerMessage,
    pub target_user: Option<String>,
    pub target_room: Option<String>,
}

/// The mathematical value of an [`Envelope`].
pub struct EnvelopeView {
    pub event: ServerMessageView,
    pub target_user: Option<Seq<char>>,
    pub target_room: Option<Seq<char>>,
}

impl EnvelopeView {
    /// The envelope that carries `event` to the single user `user_id`.
    pub open spec fn to_user(user_id: Seq<char>, event: ServerMessageView) -> EnvelopeView {
        EnvelopeView { event, target_user: Some(user_id), target_room: None }
    }

    /// The envelope that carries `event` to whoever is in `room_name`.
    pub open spec fn to_room(room_name: Seq<char>, event: ServerMessageView) -> EnvelopeView {
        EnvelopeView { event, target_user: None, target_room: Some(room_name) }
    }

    /// Addressing is exclusive: never both a user and a room.
    pub open spec fn wf(self) -> bool {
        !(self.target_user is Some && self.target_room is Some)
    }

    /// Whether a connection logged in as `user_id`, whose user currently is in
    /// `current_room`, is to receive this envelope. An envelope that names
    /// neither a user nor a room reaches nobody.
    pub open spec fn reaches(self, user_id: Seq<char>, current_room: Option<Seq<char>>) -> bool {
        ||| self.target_user == Some(user_id)
        ||| (self.target_room is Some && self.target_room == current_room)
    }
}

impl View for Envelope {
    type V = EnvelopeView;

    open spec fn view(&self) -> EnvelopeView {
        EnvelopeView {
            event: self.event@,
            target_user: self.target_user.deep_view(),
            target_room: self.target_room.deep_view(),
        }
    }
}

impl DeepView for Envelope {
    type V = EnvelopeView;

    open spec fn deep_view(&self) -> EnvelopeView {
        self@
    }
}

impl Envelope {
    /// Addresses `event` to the single user `user_id`.
    pub fn to_user(user_id: String, event: ServerMessage) -> (envelope: Envelope)
        ensures
            envelope@ == EnvelopeView::to_user(user_id@, event@),
    {
        Envelope { event, target_user: Some(user_id), target_room: None }
    }

    /// Addresses `event` to whoever is in `room_name`.
    pub fn to_room(room_name: String, event: ServerMessage) -> (envelope: Envelope)
        ensures
            envelope@ == EnvelopeView::to_room(room_name@, event@),
    {
        Envelope { event, target_user: None, target_room: Some(room_name) }
    }
}

} // verus!
