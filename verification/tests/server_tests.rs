use chat_room::clock::Timestamp;
use chat_room::entity::message::{ClientMessage, Envelope, ServerMessage};
use chat_room::room::ChatMessage;
use chat_room::server::ChatServer;

fn to_user(id: &str, event: ServerMessage) -> Envelope {
    Envelope { event, target_user: Some(id.to_string()), target_room: None }
}

fn to_room(name: &str, event: ServerMessage) -> Envelope {
    Envelope { event, target_user: None, target_room: Some(name.to_string()) }
}

fn joined(username: &str, room: &str) -> ServerMessage {
    ServerMessage::UserJoined { username: username.to_string(), room_name: room.to_string() }
}

fn left(username: &str, room: &str) -> ServerMessage {
    ServerMessage::UserLeft { username: username.to_string(), room_name: room.to_string() }
}

fn error(message: &str) -> ServerMessage {
    ServerMessage::Error { message: message.to_string() }
}

fn noon() -> Timestamp {
    Timestamp { secs: 1_700_000_000, nanos: 0 }
}

fn at_noon(server: &mut ChatServer, id: &str, message: ClientMessage) -> Vec<Envelope> {
    server.handle_message_at(id.to_string(), message, noon(), "2023-11-14T22:13:20+00:00".to_string())
}

fn members(server: &ChatServer, room: &str) -> Vec<String> {
    server.room(room).expect("the room exists").get_user_list()
}

fn history(server: &ChatServer, room: &str) -> Vec<ChatMessage> {
    server.room(room).expect("the room exists").get_message_history(usize::MAX)
}

/// Two users in "general" and one in "rust".
fn busy_server() -> ChatServer {
    let mut server = ChatServer::new();
    server.register_user("a".to_string(), "alice".to_string());
    server.register_user("b".to_string(), "bob".to_string());
    server.register_user("c".to_string(), "carol".to_string());
    at_noon(&mut server, "c", ClientMessage::CreateRoom { room_name: "rust".to_string() });
    at_noon(&mut server, "c", ClientMessage::JoinRoom { room_name: "rust".to_string() });
    server
}

#[test]
fn a_new_server_has_an_empty_general_room() {
    let server = ChatServer::new();
    assert_eq!(server.get_room_list(), vec!["general".to_string()]);
    assert_eq!(members(&server, "general"), Vec::<String>::new());
    assert_eq!(history(&server, "general"), Vec::<ChatMessage>::new());
    assert!(server.room("rust").is_none());
    assert_eq!(server.current_room("a"), None);
}

#[test]
fn register_user_puts_the_user_into_general() {
    let mut server = ChatServer::new();
    let events = server.register_user("a".to_string(), "alice".to_string());
    assert_eq!(events, vec![to_room("general", joined("alice", "general"))]);
    assert_eq!(server.current_room("a"), Some("general".to_string()));
    assert_eq!(members(&server, "general"), vec!["alice".to_string()]);
    let events = server.register_user("b".to_string(), "bob".to_string());
    assert_eq!(events, vec![to_room("general", joined("bob", "general"))]);
    assert_eq!(members(&server, "general"), vec!["alice".to_string(), "bob".to_string()]);
}

#[test]
fn register_user_under_a_held_id_replaces_the_holder() {
    let mut server = busy_server();
    let events = server.register_user("c".to_string(), "cleo".to_string());
    assert_eq!(
        events,
        vec![to_room("rust", left("carol", "rust")), to_room("general", joined("cleo", "general"))]
    );
    assert_eq!(members(&server, "rust"), Vec::<String>::new());
    assert_eq!(
        members(&server, "general"),
        vec!["alice".to_string(), "bob".to_string(), "cleo".to_string()]
    );
    assert_eq!(server.current_room("c"), Some("general".to_string()));
}

#[test]
fn login_as_welcomes_the_newcomer_first() {
    let mut server = ChatServer::new();
    let events = server.login_as("id-a".to_string(), "alice".to_string());
    assert_eq!(
        events,
        vec![
            to_user("id-a", ServerMessage::Welcome { user_id: "id-a".to_string() }),
            to_room("general", joined("alice", "general")),
        ]
    );
    assert_eq!(server.current_room("id-a"), Some("general".to_string()));
}

#[test]
fn login_draws_a_new_id_each_time() {
    let mut server = ChatServer::new();
    let mut seen: Vec<String> = Vec::new();
    for n in 0..50 {
        let (id, events) = server.login(format!("user{}", n));
        assert_eq!(
            events,
            vec![
                to_user(&id, ServerMessage::Welcome { user_id: id.clone() }),
                to_room("general", joined(&format!("user{}", n), "general")),
            ]
        );
        assert!(!seen.contains(&id));
        assert_eq!(server.current_room(&id), Some("general".to_string()));
        seen.push(id);
    }
    assert_eq!(members(&server, "general").len(), 50);
}

#[test]
fn login_ids_are_written_as_hyphenated_uuids() {
    let mut server = ChatServer::new();
    let (id, _) = server.login("alice".to_string());
    assert_eq!(id.len(), 36);
    let parsed = uuid::Uuid::parse_str(&id).expect("a UUID");
    assert_eq!(parsed.get_version_num(), 4);
    assert_eq!(parsed.to_string(), id);
}

#[test]
fn send_message_goes_to_the_room_and_into_its_history() {
    let mut server = busy_server();
    let events = at_noon(&mut server, "a", ClientMessage::SendMessage { content: "hi".to_string() });
    assert_eq!(
        events,
        vec![to_room(
            "general",
            ServerMessage::NewMessage {
                sender: "alice".to_string(),
                content: "hi".to_string(),
                room_name: "general".to_string(),
                timestamp: "2023-11-14T22:13:20+00:00".to_string(),
            }
        )]
    );
    assert_eq!(
        history(&server, "general"),
        vec![ChatMessage {
            sender: "alice".to_string(),
            content: "hi".to_string(),
            timestamp: noon()
        }]
    );
    assert_eq!(history(&server, "rust"), Vec::<ChatMessage>::new());
}

#[test]
fn send_message_in_another_room_stays_there() {
    let mut server = busy_server();
    let events =
        at_noon(&mut server, "c", ClientMessage::SendMessage { content: "fn main".to_string() });
    assert_eq!(events.len(), 1);
    assert_eq!(events[0].target_room, Some("rust".to_string()));
    assert_eq!(events[0].target_user, None);
    assert_eq!(history(&server, "general"), Vec::<ChatMessage>::new());
    assert_eq!(history(&server, "rust").len(), 1);
}

#[test]
fn the_server_keeps_the_last_hundred_messages_of_a_room() {
    let mut server = busy_server();
    for n in 0..101 {
        at_noon(&mut server, "a", ClientMessage::SendMessage { content: format!("{}", n) });
    }
    let all = history(&server, "general");
    assert_eq!(all.len(), 100);
    assert_eq!(all[0].content, "1");
    assert_eq!(all[99].content, "100");
}

#[test]
fn handle_message_stamps_with_the_current_time() {
    let mut server = ChatServer::new();
    server.register_user("a".to_string(), "alice".to_string());
    let events = server
        .handle_message("a".to_string(), ClientMessage::SendMessage { content: "hi".to_string() });
    assert_eq!(events.len(), 1);
    assert_eq!(events[0].target_room, Some("general".to_string()));
    assert_eq!(events[0].target_user, None);
    let stored = history(&server, "general");
    assert_eq!(stored.len(), 1);
    assert_eq!(stored[0].sender, "alice");
    assert_eq!(stored[0].content, "hi");
    match &events[0].event {
        ServerMessage::NewMessage { sender, content, room_name, timestamp } => {
            assert_eq!(sender, "alice");
            assert_eq!(content, "hi");
            assert_eq!(room_name, "general");
            let parsed = chrono::DateTime::parse_from_rfc3339(timestamp).expect("RFC 3339");
            assert_eq!(parsed.timestamp(), stored[0].timestamp.secs);
            assert_eq!(parsed.timestamp_subsec_nanos(), stored[0].timestamp.nanos);
            assert_eq!(Some(timestamp.clone()), stored[0].timestamp.to_rfc3339());
        }
        other => panic!("unexpected event {:?}", other),
    }
}

#[test]
fn create_room_adds_an_empty_room() {
    let mut server = busy_server();
    let events =
        at_noon(&mut server, "a", ClientMessage::CreateRoom { room_name: "games".to_string() });
    assert_eq!(
        events,
        vec![to_user("a", ServerMessage::RoomCreated { room_name: "games".to_string() })]
    );
    assert_eq!(
        server.get_room_list(),
        vec!["general".to_string(), "rust".to_string(), "games".to_string()]
    );
    assert_eq!(members(&server, "games"), Vec::<String>::new());
    assert_eq!(server.current_room("a"), Some("general".to_string()));
}

#[test]
fn create_room_with_a_taken_name_is_an_error_and_changes_nothing() {
    let mut server = busy_server();
    at_noon(&mut server, "c", ClientMessage::SendMessage { content: "kept".to_string() });
    let rooms = server.get_room_list();
    let in_rust = members(&server, "rust");
    let said = history(&server, "rust");
    let events =
        at_noon(&mut server, "a", ClientMessage::CreateRoom { room_name: "rust".to_string() });
    assert_eq!(events, vec![to_user("a", error("Room already exists"))]);
    assert_eq!(server.get_room_list(), rooms);
    assert_eq!(members(&server, "rust"), in_rust);
    assert_eq!(history(&server, "rust"), said);
}

#[test]
fn creating_general_again_is_refused() {
    let mut server = ChatServer::new();
    server.register_user("a".to_string(), "alice".to_string());
    at_noon(&mut server, "a", ClientMessage::SendMessage { content: "hello".to_string() });
    let said = history(&server, "general");
    let events =
        at_noon(&mut server, "a", ClientMessage::CreateRoom { room_name: "general".to_string() });
    assert_eq!(events, vec![to_user("a", error("Room already exists"))]);
    assert_eq!(server.get_room_list(), vec!["general".to_string()]);
    assert_eq!(members(&server, "general"), vec!["alice".to_string()]);
    assert_eq!(history(&server, "general"), said);
}

#[test]
fn join_room_moves_the_user() {
    let mut server = busy_server();
    let events = at_noon(&mut server, "a", ClientMessage::JoinRoom { room_name: "rust".to_string() });
    assert_eq!(
        events,
        vec![
            to_room("general", left("alice", "general")),
            to_room("rust", joined("alice", "rust")),
            to_user("a", ServerMessage::JoinedRoom { room_name: "rust".to_string() }),
        ]
    );
    assert_eq!(server.current_room("a"), Some("rust".to_string()));
    assert_eq!(members(&server, "general"), vec!["bob".to_string()]);
    assert_eq!(members(&server, "rust"), vec!["carol".to_string(), "alice".to_string()]);
}

#[test]
fn join_room_into_the_own_room_leaves_and_enters_it() {
    let mut server = busy_server();
    let events =
        at_noon(&mut server, "a", ClientMessage::JoinRoom { room_name: "general".to_string() });
    assert_eq!(
        events,
        vec![
            to_room("general", left("alice", "general")),
            to_room("general", joined("alice", "general")),
            to_user("a", ServerMessage::JoinedRoom { room_name: "general".to_string() }),
        ]
    );
    assert_eq!(server.current_room("a"), Some("general".to_string()));
    assert_eq!(members(&server, "general"), vec!["bob".to_string(), "alice".to_string()]);
}

#[test]
fn join_room_into_a_missing_room_is_an_error_and_changes_nothing() {
    let mut server = busy_server();
    let events =
        at_noon(&mut server, "a", ClientMessage::JoinRoom { room_name: "nowhere".to_string() });
    assert_eq!(events, vec![to_user("a", error("Room not found"))]);
    assert_eq!(server.current_room("a"), Some("general".to_string()));
    assert_eq!(members(&server, "general"), vec!["alice".to_string(), "bob".to_string()]);
    assert_eq!(server.get_room_list(), vec!["general".to_string(), "rust".to_string()]);
}

#[test]
fn room_names_are_case_sensitive() {
    let mut server = busy_server();
    let events =
        at_noon(&mut server, "a", ClientMessage::JoinRoom { room_name: "General".to_string() });
    assert_eq!(events, vec![to_user("a", error("Room not found"))]);
    let events =
        at_noon(&mut server, "a", ClientMessage::CreateRoom { room_name: "General".to_string() });
    assert_eq!(
        events,
        vec![to_user("a", ServerMessage::RoomCreated { room_name: "General".to_string() })]
    );
}

#[test]
fn list_rooms_names_every_room_for_the_requester() {
    let mut server = busy_server();
    let events = at_noon(&mut server, "b", ClientMessage::ListRooms);
    assert_eq!(
        events,
        vec![to_user(
            "b",
            ServerMessage::RoomList { rooms: vec!["general".to_string(), "rust".to_string()] }
        )]
    );
}

#[test]
fn list_users_names_the_members_of_the_own_room() {
    let mut server = busy_server();
    let events = at_noon(&mut server, "b", ClientMessage::ListUsers);
    assert_eq!(
        events,
        vec![to_user(
            "b",
            ServerMessage::UserList { users: vec!["alice".to_string(), "bob".to_string()] }
        )]
    );
    let events = at_noon(&mut server, "c", ClientMessage::ListUsers);
    assert_eq!(
        events,
        vec![to_user("c", ServerMessage::UserList { users: vec!["carol".to_string()] })]
    );
}

#[test]
fn leave_room_and_login_do_nothing() {
    let mut server = busy_server();
    let events =
        at_noon(&mut server, "a", ClientMessage::LeaveRoom { room_name: "general".to_string() });
    assert_eq!(events, Vec::<Envelope>::new());
    let events = at_noon(&mut server, "a", ClientMessage::Login { username: "eve".to_string() });
    assert_eq!(events, Vec::<Envelope>::new());
    assert_eq!(server.current_room("a"), Some("general".to_string()));
    assert_eq!(members(&server, "general"), vec!["alice".to_string(), "bob".to_string()]);
    assert_eq!(server.get_room_list(), vec!["general".to_string(), "rust".to_string()]);
}

#[test]
fn messages_from_an_unknown_id_do_nothing() {
    let mut server = busy_server();
    for message in [
        ClientMessage::SendMessage { content: "hi".to_string() },
        ClientMessage::CreateRoom { room_name: "games".to_string() },
        ClientMessage::JoinRoom { room_name: "rust".to_string() },
        ClientMessage::ListRooms,
        ClientMessage::ListUsers,
    ] {
        assert_eq!(at_noon(&mut server, "zed", message), Vec::<Envelope>::new());
    }
    assert_eq!(server.get_room_list(), vec!["general".to_string(), "rust".to_string()]);
    assert_eq!(history(&server, "general"), Vec::<ChatMessage>::new());
    assert_eq!(server.current_room("zed"), None);
}

#[test]
fn disconnect_takes_the_user_out_and_tells_the_room_once() {
    let mut server = busy_server();
    let events = server.handle_user_disconnect("a");
    assert_eq!(events, vec![to_room("general", left("alice", "general"))]);
    assert_eq!(members(&server, "general"), vec!["bob".to_string()]);
    assert_eq!(members(&server, "rust"), vec!["carol".to_string()]);
    assert_eq!(server.current_room("a"), None);
}

#[test]
fn disconnecting_again_does_nothing() {
    let mut server = busy_server();
    server.handle_user_disconnect("a");
    let events = server.handle_user_disconnect("a");
    assert_eq!(events, Vec::<Envelope>::new());
    assert_eq!(members(&server, "general"), vec!["bob".to_string()]);
    assert_eq!(server.handle_user_disconnect("never-seen"), Vec::<Envelope>::new());
}

#[test]
fn a_disconnected_user_is_unknown_afterwards() {
    let mut server = busy_server();
    server.handle_user_disconnect("c");
    assert_eq!(members(&server, "rust"), Vec::<String>::new());
    let events = at_noon(&mut server, "c", ClientMessage::SendMessage { content: "hi".to_string() });
    assert_eq!(events, Vec::<Envelope>::new());
    assert_eq!(server.get_room_list(), vec!["general".to_string(), "rust".to_string()]);
}

#[test]
fn every_current_room_is_in_the_room_table() {
    let mut server = busy_server();
    at_noon(&mut server, "a", ClientMessage::JoinRoom { room_name: "rust".to_string() });
    at_noon(&mut server, "b", ClientMessage::JoinRoom { room_name: "nowhere".to_string() });
    at_noon(&mut server, "b", ClientMessage::CreateRoom { room_name: "games".to_string() });
    at_noon(&mut server, "b", ClientMessage::JoinRoom { room_name: "games".to_string() });
    server.handle_user_disconnect("c");
    server.register_user("d".to_string(), "dave".to_string());
    let rooms = server.get_room_list();
    for id in ["a", "b", "d"] {
        let current = server.current_room(id).expect("logged in");
        assert!(rooms.contains(&current));
        assert!(server.room(&current).is_some());
    }
    assert_eq!(server.current_room("a"), Some("rust".to_string()));
    assert_eq!(server.current_room("b"), Some("games".to_string()));
    assert_eq!(server.current_room("c"), None);
    assert_eq!(server.current_room("d"), Some("general".to_string()));
}

#[test]
fn nobody_is_a_member_of_two_rooms() {
    let mut server = busy_server();
    at_noon(&mut server, "a", ClientMessage::JoinRoom { room_name: "rust".to_string() });
    at_noon(&mut server, "a", ClientMessage::JoinRoom { room_name: "general".to_string() });
    at_noon(&mut server, "a", ClientMessage::JoinRoom { room_name: "rust".to_string() });
    assert_eq!(members(&server, "general"), vec!["bob".to_string()]);
    assert_eq!(members(&server, "rust"), vec!["carol".to_string(), "alice".to_string()]);
}

#[test]
fn envelopes_name_a_user_or_a_room_and_never_both() {
    let mut server = ChatServer::new();
    let mut events = server.login_as("a".to_string(), "alice".to_string());
    events.extend(at_noon(&mut server, "a", ClientMessage::CreateRoom { room_name: "rust".to_string() }));
    events.extend(at_noon(&mut server, "a", ClientMessage::JoinRoom { room_name: "rust".to_string() }));
    events.extend(at_noon(&mut server, "a", ClientMessage::SendMessage { content: "x".to_string() }));
    events.extend(at_noon(&mut server, "a", ClientMessage::ListRooms));
    events.extend(at_noon(&mut server, "a", ClientMessage::ListUsers));
    events.extend(server.handle_user_disconnect("a"));
    assert_eq!(events.len(), 10);
    for envelope in &events {
        assert!(envelope.target_user.is_some() != envelope.target_room.is_some());
    }
}

#[test]
fn envelope_constructors_address_one_side() {
    let event = ServerMessage::JoinedRoom { room_name: "rust".to_string() };
    assert_eq!(Envelope::to_user("a".to_string(), event.clone()), to_user("a", event.clone()));
    assert_eq!(Envelope::to_room("rust".to_string(), event.clone()), to_room("rust", event));
}

#[test]
fn delivered_events_wait_for_the_users_they_reach() {
    let mut server = busy_server();
    let events = at_noon(&mut server, "a", ClientMessage::SendMessage { content: "hi".to_string() });
    server.deliver(&events);
    let hi = ServerMessage::NewMessage {
        sender: "alice".to_string(),
        content: "hi".to_string(),
        room_name: "general".to_string(),
        timestamp: "2023-11-14T22:13:20+00:00".to_string(),
    };
    assert_eq!(server.get_pending_messages("a"), vec![hi.clone()]);
    assert_eq!(server.get_pending_messages("b"), vec![hi]);
    assert_eq!(server.get_pending_messages("c"), Vec::<ServerMessage>::new());
}

#[test]
fn pending_events_are_collected_once_and_in_order() {
    let mut server = busy_server();
    let first = at_noon(&mut server, "b", ClientMessage::ListRooms);
    server.deliver(&first);
    let second = at_noon(&mut server, "b", ClientMessage::JoinRoom { room_name: "nowhere".to_string() });
    server.deliver(&second);
    let third = at_noon(&mut server, "a", ClientMessage::JoinRoom { room_name: "rust".to_string() });
    server.deliver(&third);
    assert_eq!(
        server.get_pending_messages("b"),
        vec![
            ServerMessage::RoomList { rooms: vec!["general".to_string(), "rust".to_string()] },
            error("Room not found"),
            left("alice", "general"),
        ]
    );
    assert_eq!(server.get_pending_messages("b"), Vec::<ServerMessage>::new());
    assert_eq!(
        server.get_pending_messages("a"),
        vec![joined("alice", "rust"), ServerMessage::JoinedRoom { room_name: "rust".to_string() }]
    );
    assert_eq!(server.get_pending_messages("c"), vec![joined("alice", "rust")]);
}

#[test]
fn nothing_waits_for_an_unknown_id() {
    let mut server = busy_server();
    server.deliver(&vec![to_user("zed", error("lost")), to_room("nowhere", error("lost"))]);
    assert_eq!(server.get_pending_messages("zed"), Vec::<ServerMessage>::new());
    assert_eq!(server.get_pending_messages("a"), Vec::<ServerMessage>::new());
}

#[test]
fn an_envelope_without_an_address_is_delivered_to_nobody() {
    let mut server = busy_server();
    server.deliver(&vec![Envelope { event: error("lost"), target_user: None, target_room: None }]);
    for id in ["a", "b", "c"] {
        assert_eq!(server.get_pending_messages(id), Vec::<ServerMessage>::new());
    }
}

#[test]
fn what_waits_for_a_user_goes_with_it() {
    let mut server = busy_server();
    let events = at_noon(&mut server, "a", ClientMessage::ListRooms);
    server.deliver(&events);
    server.handle_user_disconnect("a");
    assert_eq!(server.get_pending_messages("a"), Vec::<ServerMessage>::new());
    server.register_user("a".to_string(), "alice".to_string());
    assert_eq!(server.get_pending_messages("a"), Vec::<ServerMessage>::new());
}

#[test]
fn a_registration_delivered_is_heard_in_general() {
    let mut server = ChatServer::new();
    let first = server.register_user("a".to_string(), "alice".to_string());
    server.deliver(&first);
    let second = server.register_user("b".to_string(), "bob".to_string());
    server.deliver(&second);
    assert_eq!(
        server.get_pending_messages("a"),
        vec![joined("alice", "general"), joined("bob", "general")]
    );
    assert_eq!(server.get_pending_messages("b"), vec![joined("bob", "general")]);
}

#[test]
fn cloning_a_server_message_keeps_every_field() {
    let messages = vec![
        ServerMessage::Welcome { user_id: "id".to_string() },
        joined("alice", "general"),
        left("alice", "general"),
        ServerMessage::NewMessage {
            sender: "s".to_string(),
            content: "c".to_string(),
            room_name: "r".to_string(),
            timestamp: "t".to_string(),
        },
        ServerMessage::RoomCreated { room_name: "r1".to_string() },
        ServerMessage::JoinedRoom { room_name: "r2".to_string() },
        ServerMessage::LeftRoom { room_name: "r3".to_string() },
        ServerMessage::RoomList { rooms: vec!["a".to_string(), "b".to_string()] },
        ServerMessage::UserList { users: vec!["x".to_string()] },
        error("e"),
    ];
    for message in &messages {
        assert_eq!(&message.clone(), message);
    }
    assert_eq!(
        messages[7].clone(),
        ServerMessage::RoomList { rooms: vec!["a".to_string(), "b".to_string()] }
    );
    assert_eq!(messages[8].clone(), ServerMessage::UserList { users: vec!["x".to_string()] });
}
