use chat_room::clock::Timestamp;
use chat_room::room::{ChatMessage, ChatRoom, ROOM_CAPACITY};

fn line(n: usize) -> ChatMessage {
    ChatMessage {
        sender: format!("user{}", n % 3),
        content: format!("message {}", n),
        timestamp: Timestamp { secs: 1_700_000_000 + n as i64, nanos: n as u32 },
    }
}

#[test]
fn new_room_is_empty() {
    let room = ChatRoom::new("lobby".to_string());
    assert_eq!(room.name(), "lobby");
    assert_eq!(room.get_user_list(), Vec::<String>::new());
    assert_eq!(room.get_message_history(10), Vec::<ChatMessage>::new());
}

#[test]
fn capacity_is_one_hundred() {
    assert_eq!(ROOM_CAPACITY, 100);
}

#[test]
fn add_user_reports_whether_the_member_is_new() {
    let mut room = ChatRoom::new("lobby".to_string());
    assert!(room.add_user("id-1".to_string(), "alice".to_string()));
    assert!(room.add_user("id-2".to_string(), "bob".to_string()));
    assert!(!room.add_user("id-1".to_string(), "alice".to_string()));
    assert_eq!(room.get_user_list(), vec!["alice".to_string(), "bob".to_string()]);
}

#[test]
fn add_user_again_takes_the_new_name_and_keeps_the_place() {
    let mut room = ChatRoom::new("lobby".to_string());
    room.add_user("id-1".to_string(), "alice".to_string());
    room.add_user("id-2".to_string(), "bob".to_string());
    assert!(!room.add_user("id-1".to_string(), "alicia".to_string()));
    assert_eq!(room.get_user_list(), vec!["alicia".to_string(), "bob".to_string()]);
}

#[test]
fn two_members_may_share_a_name() {
    let mut room = ChatRoom::new("lobby".to_string());
    assert!(room.add_user("id-1".to_string(), "sam".to_string()));
    assert!(room.add_user("id-2".to_string(), "sam".to_string()));
    assert_eq!(room.get_user_list(), vec!["sam".to_string(), "sam".to_string()]);
    assert_eq!(room.remove_user("id-1"), Some("sam".to_string()));
    assert_eq!(room.get_user_list(), vec!["sam".to_string()]);
}

#[test]
fn remove_user_returns_the_name_once() {
    let mut room = ChatRoom::new("lobby".to_string());
    room.add_user("id-1".to_string(), "alice".to_string());
    room.add_user("id-2".to_string(), "bob".to_string());
    room.add_user("id-3".to_string(), "carol".to_string());
    assert_eq!(room.remove_user("id-2"), Some("bob".to_string()));
    assert_eq!(room.get_user_list(), vec!["alice".to_string(), "carol".to_string()]);
    assert_eq!(room.remove_user("id-2"), None);
    assert_eq!(room.get_user_list(), vec!["alice".to_string(), "carol".to_string()]);
}

#[test]
fn remove_user_of_a_stranger_changes_nothing() {
    let mut room = ChatRoom::new("lobby".to_string());
    room.add_user("id-1".to_string(), "alice".to_string());
    assert_eq!(room.remove_user("nobody"), None);
    assert_eq!(room.remove_user(""), None);
    assert_eq!(room.get_user_list(), vec!["alice".to_string()]);
}

#[test]
fn add_message_appends_in_order() {
    let mut room = ChatRoom::new("lobby".to_string());
    room.add_message(line(0));
    room.add_message(line(1));
    room.add_message(line(2));
    assert_eq!(room.get_message_history(10), vec![line(0), line(1), line(2)]);
}

#[test]
fn a_full_room_holds_exactly_its_capacity() {
    let mut room = ChatRoom::new("lobby".to_string());
    for n in 0..100 {
        room.add_message(line(n));
    }
    let all = room.get_message_history(usize::MAX);
    assert_eq!(all.len(), 100);
    assert_eq!(all[0], line(0));
    assert_eq!(all[99], line(99));
}

#[test]
fn the_101st_message_evicts_exactly_the_oldest() {
    let mut room = ChatRoom::new("lobby".to_string());
    for n in 0..100 {
        room.add_message(line(n));
    }
    room.add_message(line(100));
    let all = room.get_message_history(1000);
    let expected: Vec<ChatMessage> = (1..=100).map(line).collect();
    assert_eq!(all, expected);
}

#[test]
fn history_never_exceeds_the_capacity() {
    let mut room = ChatRoom::new("lobby".to_string());
    for n in 0..350 {
        room.add_message(line(n));
        assert!(room.get_message_history(usize::MAX).len() <= 100);
    }
    let all = room.get_message_history(usize::MAX);
    let expected: Vec<ChatMessage> = (250..350).map(line).collect();
    assert_eq!(all, expected);
}

#[test]
fn message_history_returns_the_last_n_oldest_first() {
    let mut room = ChatRoom::new("lobby".to_string());
    for n in 0..5 {
        room.add_message(line(n));
    }
    assert_eq!(room.get_message_history(2), vec![line(3), line(4)]);
    assert_eq!(room.get_message_history(5), vec![line(0), line(1), line(2), line(3), line(4)]);
    assert_eq!(room.get_message_history(6), vec![line(0), line(1), line(2), line(3), line(4)]);
    assert_eq!(room.get_message_history(0), Vec::<ChatMessage>::new());
}

#[test]
fn message_history_is_a_snapshot() {
    let mut room = ChatRoom::new("lobby".to_string());
    room.add_message(line(0));
    let before = room.get_message_history(10);
    room.add_message(line(1));
    assert_eq!(before, vec![line(0)]);
    assert_eq!(room.get_message_history(10), vec![line(0), line(1)]);
}

#[test]
fn user_list_is_a_snapshot() {
    let mut room = ChatRoom::new("lobby".to_string());
    room.add_user("id-1".to_string(), "alice".to_string());
    let before = room.get_user_list();
    room.add_user("id-2".to_string(), "bob".to_string());
    room.remove_user("id-1");
    assert_eq!(before, vec!["alice".to_string()]);
    assert_eq!(room.get_user_list(), vec!["bob".to_string()]);
}

#[test]
fn cloning_a_message_keeps_every_field() {
    let first = line(7);
    let copy = first.clone();
    assert_eq!(copy.sender, "user1");
    assert_eq!(copy.content, "message 7");
    assert_eq!(copy.timestamp, Timestamp { secs: 1_700_000_007, nanos: 7 });
    assert_eq!(copy, first);
}
