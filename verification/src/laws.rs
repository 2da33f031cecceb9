//! What holds of the server in every state that it can reach.
use crate::clock::Timestamp;
use crate::entity::message::{ClientMessageView, EnvelopeView, ServerMessageView};
use crate::room::{MessageView, RoomView, ROOM_CAPACITY};
use crate::model::{general_room, room_exists_text, room_missing_text, Outcome, ServerView, UserView};
use vstd::prelude::*;

verus! {

/// One thing that happens to a server.
pub enum Action {
    /// A login under the id `id`.
    Login { id: Seq<char>, username: Seq<char> },
    /// A message from the user `id`, at the time `now`, written `stamp`.
    Message { id: Seq<char>, message: ClientMessageView, now: Timestamp, stamp: Seq<char> },
    /// The end of the connection of the user `id`.
    Disconnect { id: Seq<char> },
}

impl ServerView {
    /// What `action` does in this state.
    pub open spec fn apply(self, action: Action) -> Outcome {
        match action {
            Action::Login { id, username } => self.login(id, username),
            Action::Message { id, message, now, stamp } => self.handle(id, message, now, stamp),
            Action::Disconnect { id } => self.disconnect(id),
        }
    }

    /// The state of a server that started and then went through `actions`.
    pub open spec fn after(actions: Seq<Action>) -> ServerView
        decreases actions.len(),
    {
        if actions.len() == 0 {
            ServerView::initial()
        } else {
            ServerView::after(actions.drop_last()).apply(actions.last()).state
        }
    }
}

/// Every action keeps the state well-formed.
pub proof fn law_step_keeps_invariant(state: ServerView, action: Action)
    requires
        state.wf(),
    ensures
        state.apply(action).state.wf(),
{
    match action {
        Action::Login { id, username } => state.lemma_register(id, username),
        Action::Message { id, message, now, stamp } => state.lemma_handle(id, message, now, stamp),
        Action::Disconnect { id } => state.lemma_disconnect(id),
    }
}

/// Every state that a server can reach is well-formed. So in every such
/// state "general" exists, no room holds more than its capacity of messages,
/// no two users share an id, and nobody is a member of two rooms.
pub proof fn law_reachable_states_are_well_formed(actions: Seq<Action>)
    ensures
        ServerView::after(actions).wf(),
    decreases actions.len(),
{
    if actions.len() == 0 {
        ServerView::lemma_initial_wf();
    } else {
        law_reachable_states_are_well_formed(actions.drop_last());
        law_step_keeps_invariant(ServerView::after(actions.drop_last()), actions.last());
    }
}

/// In every state that a server can reach, the current room of a user is a
/// room of the room table.
pub proof fn law_current_room_exists(actions: Seq<Action>, id: Seq<char>)
    requires
        ServerView::after(actions).current_room_of(id) is Some,
    ensures
        ServerView::after(actions).has_room(ServerView::after(actions).current_room_of(id).unwrap()),
{
    let state = ServerView::after(actions);
    law_reachable_states_are_well_formed(actions);
    state.lemma_user_found(id);
}

/// In every state that a server can reach, no room remembers more messages
/// than its capacity.
pub proof fn law_history_bounded(actions: Seq<Action>, i: int)
    requires
        0 <= i < ServerView::after(actions).rooms.len(),
    ensures
        ServerView::after(actions).rooms[i].history.len() <= ROOM_CAPACITY,
{
    law_reachable_states_are_well_formed(actions);
}

/// A room that holds its capacity of messages and gets one more still holds
/// its capacity: the oldest message is gone, the others have moved up by one
/// place in their order, and the new message is the last.
pub proof fn law_full_room_evicts_oldest(room: RoomView, message: MessageView)
    requires
        room.wf(),
        room.history.len() == ROOM_CAPACITY,
    ensures
        room.with_message(message).history.len() == ROOM_CAPACITY,
        forall|i: int|
            0 <= i < ROOM_CAPACITY - 1 ==> #[trigger] room.with_message(message).history[i]
                == room.history[i + 1],
        room.with_message(message).history[ROOM_CAPACITY - 1] == message,
        room.with_message(message).members == room.members,
{
    room.lemma_with_message(message);
}

/// A room below its capacity keeps every message and gets the new one as
/// its last.
pub proof fn law_room_with_space_keeps_all(room: RoomView, message: MessageView)
    requires
        room.wf(),
        room.history.len() < ROOM_CAPACITY,
    ensures
        room.with_message(message).history == room.history.push(message),
        room.with_message(message).members == room.members,
{
    room.lemma_with_message(message);
}

/// Every envelope that an action emits names one user or one room, never
/// both and never neither.
pub proof fn law_emitted_envelopes_are_addressed(state: ServerView, action: Action, i: int)
    requires
        0 <= i < state.apply(action).events.len(),
    ensures
        state.apply(action).events[i].wf(),
        state.apply(action).events[i].target_user is Some != (
        state.apply(action).events[i].target_room is Some),
{
}

/// In a well-formed state the members of a room are the users whose current
/// room it is: an envelope for the room reaches its members and nobody else.
pub proof fn law_members_are_residents(state: ServerView, name: Seq<char>, id: Seq<char>)
    requires
        state.wf(),
        state.has_room(name),
    ensures
        state.room(name).has_member(id) <==> state.current_room_of(id) == Some(name),
{
    state.lemma_room_found(name);
    if state.current_room_of(id) == Some(name) {
        state.lemma_user_found(id);
    }
}

/// An envelope for one user reaches the connection of that user and no
/// other; an envelope for a room reaches the connections whose user is in
/// that room and no other.
pub proof fn law_addressing(
    event: ServerMessageView,
    target: Seq<char>,
    user_id: Seq<char>,
    current_room: Option<Seq<char>>,
)
    ensures
        EnvelopeView::to_user(target, event).wf(),
        EnvelopeView::to_room(target, event).wf(),
        EnvelopeView::to_user(target, event).reaches(user_id, current_room) <==> user_id == target,
        EnvelopeView::to_room(target, event).reaches(user_id, current_room) <==> current_room
            == Some(target),
{
}

/// A login under an id that nobody holds adds one user at the end of the
/// user table, with "general" as its current room, and one member at the end
/// of "general"; nothing else changes. The newcomer gets a `Welcome` with
/// its id, and then "general" is told that it joined. Afterwards the id
/// names the newcomer and nobody else.
pub proof fn law_login(state: ServerView, id: Seq<char>, username: Seq<char>)
    requires
        state.wf(),
        !state.has_user(id),
    ensures
        state.login(id, username).state.wf(),
        state.login(id, username).state.users == state.users.push(
            UserView { id, username, current_room: Some(general_room()), pending: Seq::empty() },
        ),
        state.login(id, username).state.has_user(id),
        state.login(id, username).state.user(id).username == username,
        state.login(id, username).state.current_room_of(id) == Some(general_room()),
        state.login(id, username).state.rooms == state.rooms.update(
            0,
            state.rooms[0].with_member(id, username),
        ),
        state.login(id, username).state.rooms[0].members == state.rooms[0].members.push(
            crate::room::MemberView { id, username },
        ),
        state.login(id, username).events == seq![
            EnvelopeView::to_user(id, ServerMessageView::Welcome { user_id: id }),
            EnvelopeView::to_room(
                general_room(),
                ServerMessageView::UserJoined { username, room_name: general_room() },
            ),
        ],
{
    let user = UserView { id, username, current_room: Some(general_room()), pending: Seq::empty() };
    let after = state.login(id, username).state;
    state.lemma_register(id, username);
    state.lemma_room_at(0);
    state.lemma_user_pushed(user);
    let last = state.users.len() as int;
    assert(after.users[last] == user);
    after.lemma_user_at(last);
    if state.rooms[0].has_member(id) {
        assert(state.has_user(id));
    }
    assert(state.login(id, username).events =~= seq![
        EnvelopeView::to_user(id, ServerMessageView::Welcome { user_id: id }),
        EnvelopeView::to_room(
            general_room(),
            ServerMessageView::UserJoined { username, room_name: general_room() },
        ),
    ]);
}

/// `JoinRoom` for a room that does not exist changes nothing, so the user
/// stays where it was, and emits one envelope: the error "Room not found",
/// for the requester alone.
pub proof fn law_join_missing_room(
    state: ServerView,
    id: Seq<char>,
    name: Seq<char>,
    now: Timestamp,
    stamp: Seq<char>,
)
    requires
        state.has_user(id),
        !state.has_room(name),
    ensures
        state.handle(id, ClientMessageView::JoinRoom { room_name: name }, now, stamp).state
            == state,
        state.handle(id, ClientMessageView::JoinRoom { room_name: name }, now, stamp).events
            == seq![
            EnvelopeView::to_user(id, ServerMessageView::Error { message: room_missing_text() }),
        ],
        state.handle(
            id,
            ClientMessageView::JoinRoom { room_name: name },
            now,
            stamp,
        ).state.current_room_of(id) == state.current_room_of(id),
        forall|user_id: Seq<char>, current_room: Option<Seq<char>>|
            (#[trigger] EnvelopeView::to_user(
                id,
                ServerMessageView::Error { message: room_missing_text() },
            ).reaches(user_id, current_room)) <==> user_id == id,
{
    state.lemma_user_found(id);
}

/// `CreateRoom` for a name that is taken changes nothing, so the room of
/// that name keeps its members and its history, and emits one envelope: the
/// error "Room already exists", for the requester alone.
pub proof fn law_create_existing_room(
    state: ServerView,
    id: Seq<char>,
    name: Seq<char>,
    now: Timestamp,
    stamp: Seq<char>,
)
    requires
        state.has_user(id),
        state.has_room(name),
    ensures
        state.handle(id, ClientMessageView::CreateRoom { room_name: name }, now, stamp).state
            == state,
        state.handle(id, ClientMessageView::CreateRoom { room_name: name }, now, stamp).events
            == seq![
            EnvelopeView::to_user(id, ServerMessageView::Error { message: room_exists_text() }),
        ],
        state.handle(id, ClientMessageView::CreateRoom { room_name: name }, now, stamp).state.room(
            name,
        ) == state.room(name),
        forall|user_id: Seq<char>, current_room: Option<Seq<char>>|
            (#[trigger] EnvelopeView::to_user(
                id,
                ServerMessageView::Error { message: room_exists_text() },
            ).reaches(user_id, current_room)) <==> user_id == id,
{
}

/// Disconnecting a user that is in a room takes it out of the user table
/// and takes its one entry out of that room's membership; no other room
/// changes, and no room has the user as a member afterwards. One envelope
/// goes out: `UserLeft` with the user's name, for that room.
pub proof fn law_disconnect(state: ServerView, id: Seq<char>)
    requires
        state.wf(),
        state.has_user(id),
        state.user(id).current_room is Some,
    ensures
        state.disconnect(id).state.wf(),
        !state.disconnect(id).state.has_user(id),
        state.disconnect(id).state.users == state.users.remove(state.user_index(id)),
        ({
            let name = state.user(id).current_room.unwrap();
            let i = state.room_index(name);
            let room = state.rooms[i];
            &&& room.has_member(id)
            &&& state.disconnect(id).state.rooms == state.rooms.update(i, room.without_member(id))
            &&& state.disconnect(id).state.rooms[i].members == room.members.remove(
                room.member_index(id),
            )
            &&& state.disconnect(id).events == seq![
                EnvelopeView::to_room(
                    name,
                    ServerMessageView::UserLeft {
                        username: state.user(id).username,
                        room_name: name,
                    },
                ),
            ]
        }),
        forall|j: int|
            0 <= j < state.disconnect(id).state.rooms.len() ==> !(
            #[trigger] state.disconnect(id).state.rooms[j]).has_member(id),
{
    state.lemma_disconnect(id);
    state.lemma_user_found(id);
    let name = state.user(id).current_room.unwrap();
    state.lemma_room_found(name);
}

/// Disconnecting an id that is not logged in, such as one that was
/// disconnected before, changes nothing and emits nothing.
pub proof fn law_disconnect_again(state: ServerView, id: Seq<char>)
    requires
        state.wf(),
    ensures
        state.disconnect(id).state.disconnect(id).state == state.disconnect(id).state,
        state.disconnect(id).state.disconnect(id).events == Seq::<EnvelopeView>::empty(),
{
    state.lemma_disconnect(id);
}

/// Delivering an envelope puts its event at the end of what waits for a
/// user if the envelope reaches the user, and changes nothing for the user
/// otherwise; where the user is stays as it was.
pub proof fn law_delivery(state: ServerView, envelope: EnvelopeView, id: Seq<char>)
    requires
        state.wf(),
        state.has_user(id),
    ensures
        state.delivered(envelope).wf(),
        state.delivered(envelope).rooms == state.rooms,
        state.delivered(envelope).current_room_of(id) == state.current_room_of(id),
        state.delivered(envelope).pending_of(id) == (if envelope.reaches(
            id,
            state.current_room_of(id),
        ) {
            state.pending_of(id).push(envelope.event)
        } else {
            state.pending_of(id)
        }),
{
    state.lemma_delivered(envelope);
    state.lemma_same_residents(state.delivered(envelope));
    state.lemma_user_found(id);
}

/// Collecting hands out what waits for a user and leaves nothing waiting for
/// it; what waits for the others stays.
pub proof fn law_collect(state: ServerView, id: Seq<char>, other: Seq<char>)
    requires
        state.wf(),
        other != id,
    ensures
        state.collected(id).wf(),
        state.collected(id).rooms == state.rooms,
        state.collected(id).pending_of(id) == Seq::<ServerMessageView>::empty(),
        state.collected(id).pending_of(other) == state.pending_of(other),
{
    state.lemma_collected(id);
    if state.has_user(id) {
        state.lemma_user_found(id);
        let k = state.user_index(id);
        state.lemma_with_user(k, UserView { pending: Seq::empty(), ..state.user(id) });
    }
}

} // verus!
