use chat_relay::{ChatMessage, Delivery, MessageType, RoomState, UserSession};

fn session(user_id: &str, nickname: &str) -> UserSession {
    UserSession {
        user_id: user_id.to_string(),
        nickname: nickname.to_string(),
        room_id: "lobby".to_string(),
    }
}

fn said(id: &str, sender: &str, content: &str) -> ChatMessage {
    ChatMessage::from_user(id.to_string(), "lobby", sender, content, format!("t-{}", id))
}

fn targets(deliveries: &[Delivery]) -> Vec<u32> {
    deliveries.iter().map(|d| d.connection_id).collect()
}

#[test]
fn new_room_is_empty() {
    let room = RoomState::new();
    assert_eq!(room.user_count(), 0);
    assert_eq!(room.message_count(), 0);
    assert_eq!(room.connection_count(), 0);
    assert!(room.history_snapshot().is_empty());
    assert!(room.broadcast("x").is_empty());
    assert!(room.replay(1).is_empty());
    assert!(!room.has_connection(0));
    assert!(!room.has_user(""));
}

#[test]
fn connection_is_registered_once() {
    let mut room = RoomState::new();
    room.add_connection(7, "u1");
    room.add_connection(8, "u2");
    room.add_connection(7, "u3");
    assert_eq!(room.connection_count(), 2);
    assert_eq!(room.owner_of(7), Some("u1".to_string()));
    assert_eq!(room.owner_of(8), Some("u2".to_string()));
    assert_eq!(room.owner_of(9), None);
    assert_eq!(targets(&room.broadcast("x")), vec![7, 8]);
}

#[test]
fn removing_a_connection_is_idempotent() {
    let mut room = RoomState::new();
    room.add_connection(1, "u1");
    room.add_connection(2, "u2");
    room.add_connection(3, "u1");
    room.remove_connection(2);
    assert_eq!(targets(&room.broadcast("x")), vec![1, 3]);
    room.remove_connection(2);
    assert_eq!(targets(&room.broadcast("x")), vec![1, 3]);
    room.remove_connection(1);
    room.remove_connection(3);
    assert_eq!(room.connection_count(), 0);
}

#[test]
fn user_is_created_once() {
    let mut room = RoomState::new();
    assert!(room.ensure_user_present("u1", "alice", "lobby"));
    assert!(!room.ensure_user_present("u1", "alicia", "lobby"));
    assert!(room.ensure_user_present("u2", "bob", "lobby"));
    assert_eq!(room.user_count(), 2);
    assert!(room.has_user("u1"));
    assert_eq!(room.nickname_of("u1"), Some("alice".to_string()));
    assert_eq!(room.nickname_of("u2"), Some("bob".to_string()));
    assert_eq!(room.nickname_of("u3"), None);
}

#[test]
fn user_stays_while_a_connection_is_registered() {
    let mut room = RoomState::new();
    room.add_connection(1, "u1");
    room.add_connection(2, "u1");
    room.ensure_user_present("u1", "alice", "lobby");
    assert!(!room.remove_user_if_no_connections("u1"));
    room.remove_connection(1);
    assert!(!room.remove_user_if_no_connections("u1"));
    assert!(room.has_user("u1"));
    room.remove_connection(2);
    assert!(room.remove_user_if_no_connections("u1"));
    assert!(!room.has_user("u1"));
    assert!(!room.remove_user_if_no_connections("u1"));
    assert!(!room.remove_user_if_no_connections("nobody"));
}

#[test]
fn removing_one_user_keeps_the_others() {
    let mut room = RoomState::new();
    room.ensure_user_present("u1", "alice", "lobby");
    room.ensure_user_present("u2", "bob", "lobby");
    room.ensure_user_present("u3", "carol", "lobby");
    assert!(room.remove_user_if_no_connections("u2"));
    assert_eq!(room.user_count(), 2);
    assert_eq!(room.nickname_of("u1"), Some("alice".to_string()));
    assert_eq!(room.nickname_of("u3"), Some("carol".to_string()));
    assert!(!room.has_user("u2"));
}

#[test]
fn nickname_is_taken_by_a_user_of_the_room() {
    let mut room = RoomState::new();
    assert!(!room.nickname_taken("alice", "lobby"));
    room.ensure_user_present("u1", "alice", "lobby");
    assert!(room.nickname_taken("alice", "lobby"));
    assert!(!room.nickname_taken("Alice", "lobby"));
    assert!(!room.nickname_taken("alice", "kitchen"));
    assert!(!room.nickname_taken("bob", "lobby"));
}

#[test]
fn history_keeps_the_order_of_appending() {
    let mut room = RoomState::new();
    room.append_message(said("m1", "alice", "one"));
    room.append_message(said("m2", "bob", "two"));
    room.append_message(said("m3", "alice", "three"));
    let history = room.history_snapshot();
    let ids: Vec<&str> = history.iter().map(|m| m.id.as_str()).collect();
    assert_eq!(ids, vec!["m1", "m2", "m3"]);
    assert_eq!(history[1].sender, "bob");
    assert_eq!(history[1].content, "two");
    assert_eq!(history[1].timestamp, "t-m2");
    assert_eq!(history[1].message_type, MessageType::UserMessage);
    room.append_message(said("m4", "bob", "four"));
    let longer = room.history_snapshot();
    for (old, new) in history.iter().zip(longer.iter()) {
        assert_eq!(old.id, new.id);
    }
    assert_eq!(longer.len(), 4);
}

#[test]
fn replay_sends_the_history_in_order_to_one_connection() {
    let mut room = RoomState::new();
    room.add_connection(1, "u1");
    room.append_message(said("m1", "alice", "one"));
    room.append_message(said("m2", "bob", "two"));
    let deliveries = room.replay(9);
    assert_eq!(targets(&deliveries), vec![9, 9]);
    assert_eq!(
        deliveries[0].payload,
        "{\"content\":\"one\",\"id\":\"m1\",\"sender\":\"alice\",\"timestamp\":\"t-m1\",\"type\":\"message\"}"
    );
    assert_eq!(
        deliveries[1].payload,
        "{\"content\":\"two\",\"id\":\"m2\",\"sender\":\"bob\",\"timestamp\":\"t-m2\",\"type\":\"message\"}"
    );
}

#[test]
fn broadcast_addresses_every_connection_once() {
    let mut room = RoomState::new();
    for id in [5u32, 3, 9, 4] {
        room.add_connection(id, "u");
    }
    let deliveries = room.broadcast("payload");
    assert_eq!(targets(&deliveries), vec![5, 3, 9, 4]);
    assert!(deliveries.iter().all(|d| d.payload == "payload"));
}

#[test]
fn broadcast_reaches_the_others_when_one_delivery_fails() {
    let mut room = RoomState::new();
    for id in 1u32..=4 {
        room.add_connection(id, "u");
    }
    let deliveries = room.broadcast("payload");
    for failing in 1u32..=4 {
        let received: Vec<u32> = deliveries
            .iter()
            .filter(|d| d.connection_id != failing)
            .map(|d| d.connection_id)
            .collect();
        let others: Vec<u32> = (1u32..=4).filter(|id| *id != failing).collect();
        assert_eq!(received, others);
    }
}

#[test]
fn first_connection_of_a_user_is_announced() {
    let mut room = RoomState::new();
    room.add_connection(1, "u0");
    room.ensure_user_present("u0", "zed", "lobby");
    room.append_message(said("m1", "zed", "alone"));
    let deliveries =
        room.open_connection(2, &session("u1", "alice"), "a1".to_string(), "t1".to_string());
    assert_eq!(targets(&deliveries), vec![2, 1, 2]);
    assert_eq!(
        deliveries[0].payload,
        "{\"content\":\"alone\",\"id\":\"m1\",\"sender\":\"zed\",\"timestamp\":\"t-m1\",\"type\":\"message\"}"
    );
    let notice = "{\"content\":\"alice has joined the room\",\"type\":\"system\"}";
    assert_eq!(deliveries[1].payload, notice);
    assert_eq!(deliveries[2].payload, notice);
    let history = room.history_snapshot();
    assert_eq!(history.len(), 2);
    assert_eq!(history[1].id, "a1");
    assert_eq!(history[1].room_id, "lobby");
    assert_eq!(history[1].sender, "System");
    assert_eq!(history[1].content, "alice has joined the room");
    assert_eq!(history[1].timestamp, "t1");
    assert_eq!(history[1].message_type, MessageType::SystemMessage);
    assert_eq!(room.nickname_of("u1"), Some("alice".to_string()));
}

#[test]
fn two_connections_of_one_user_join_once_and_leave_once() {
    let alice = session("u1", "alice");
    let mut room = RoomState::new();
    room.add_connection(9, "u0");
    room.ensure_user_present("u0", "zed", "lobby");

    let first = room.open_connection(1, &alice, "a1".to_string(), "t1".to_string());
    assert_eq!(targets(&first), vec![9, 1]);
    assert_eq!(room.message_count(), 1);
    assert_eq!(room.user_count(), 2);

    let second = room.open_connection(2, &alice, "a2".to_string(), "t2".to_string());
    assert_eq!(targets(&second), vec![2]);
    assert_eq!(
        second[0].payload,
        "{\"content\":\"alice has joined the room\",\"id\":\"a1\",\"sender\":\"System\",\
         \"timestamp\":\"t1\",\"type\":\"system\"}"
    );
    assert_eq!(room.message_count(), 1);
    assert_eq!(room.user_count(), 2);

    let third = room.close_connection(1, &alice, "a3".to_string(), "t3".to_string());
    assert!(third.is_empty());
    assert_eq!(room.message_count(), 1);
    assert!(room.has_user("u1"));

    let fourth = room.close_connection(2, &alice, "a4".to_string(), "t4".to_string());
    assert_eq!(targets(&fourth), vec![9]);
    assert_eq!(fourth[0].payload, "{\"content\":\"alice has left the room\",\"type\":\"system\"}");
    assert!(!room.has_user("u1"));
    assert_eq!(room.user_count(), 1);
    let history = room.history_snapshot();
    assert_eq!(history.len(), 2);
    assert_eq!(history[1].id, "a4");
    assert_eq!(history[1].content, "alice has left the room");
    assert_eq!(history[1].sender, "System");
    assert_eq!(history[1].message_type, MessageType::SystemMessage);
}

#[test]
fn closing_in_the_other_order_leaves_once_too() {
    let alice = session("u1", "alice");
    let mut room = RoomState::new();
    room.open_connection(1, &alice, "a1".to_string(), "t1".to_string());
    room.open_connection(2, &alice, "a2".to_string(), "t2".to_string());
    assert!(room.close_connection(2, &alice, "a3".to_string(), "t3".to_string()).is_empty());
    assert!(room.has_user("u1"));
    let last = room.close_connection(1, &alice, "a4".to_string(), "t4".to_string());
    assert!(last.is_empty());
    assert!(!room.has_user("u1"));
    assert_eq!(room.message_count(), 2);
    assert_eq!(room.connection_count(), 0);
}

#[test]
fn closing_twice_announces_once() {
    let alice = session("u1", "alice");
    let mut room = RoomState::new();
    room.add_connection(9, "u0");
    room.ensure_user_present("u0", "zed", "lobby");
    room.open_connection(1, &alice, "a1".to_string(), "t1".to_string());
    let once = room.close_connection(1, &alice, "a2".to_string(), "t2".to_string());
    assert_eq!(targets(&once), vec![9]);
    let twice = room.close_connection(1, &alice, "a3".to_string(), "t3".to_string());
    assert!(twice.is_empty());
    assert_eq!(room.message_count(), 2);
}

#[test]
fn posted_message_goes_to_everyone_and_into_the_history() {
    let mut room = RoomState::new();
    room.add_connection(1, "u1");
    room.add_connection(2, "u2");
    let deliveries = room.post_message(said("m1", "alice", "hi"));
    assert_eq!(targets(&deliveries), vec![1, 2]);
    let frame =
        "{\"content\":\"hi\",\"id\":\"m1\",\"sender\":\"alice\",\"timestamp\":\"t-m1\",\"type\":\"message\"}";
    assert_eq!(deliveries[0].payload, frame);
    assert_eq!(deliveries[1].payload, frame);
    assert_eq!(room.message_count(), 1);
    assert_eq!(room.history_snapshot()[0].content, "hi");
}
