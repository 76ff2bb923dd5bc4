use chat_relay::{ChatSocketHandler, ChatState, Delivery, MessageType, Phase};

const ALICE: &[u8] = b"user_id=ua; nickname=alice";
const BOB: &[u8] = b"user_id=ub; nickname=bob";

fn s(text: &str) -> String {
    text.to_string()
}

fn targets(deliveries: &[Delivery]) -> Vec<u32> {
    deliveries.iter().map(|d| d.connection_id).collect()
}

fn open(
    state: &mut ChatState,
    id: u32,
    path: &str,
    cookies: &[u8],
    tag: &str,
) -> ChatSocketHandler {
    let mut handler = ChatSocketHandler::connecting(id);
    handler.open_with(
        state,
        path,
        Some(cookies),
        s("unused"),
        format!("id-{}", tag),
        format!("time-{}", tag),
    );
    handler
}

fn json(frame: &str) -> serde_json::Value {
    serde_json::from_str(frame).unwrap()
}

#[test]
fn handler_starts_connecting_and_speaks_for_nobody() {
    let handler = ChatSocketHandler::connecting(5);
    assert_eq!(handler.connection_id, 5);
    assert_eq!(handler.phase, Phase::Connecting);
    assert_eq!(handler.session.user_id, "");
    assert_eq!(handler.session.nickname, "");
    assert_eq!(handler.session.room_id, "");
}

#[test]
fn handler_reads_its_identity_from_the_handshake() {
    let handler = ChatSocketHandler::with_fallback(5, "/kitchen", Some(ALICE), s("fresh"));
    assert_eq!(handler.phase, Phase::Connecting);
    assert_eq!(handler.session.user_id, "ua");
    assert_eq!(handler.session.nickname, "alice");
    assert_eq!(handler.session.room_id, "kitchen");
    let anonymous = ChatSocketHandler::with_fallback(5, "", None, s("fresh"));
    assert_eq!(anonymous.session.user_id, "fresh");
    assert_eq!(anonymous.session.nickname, "User-5");
    assert_eq!(anonymous.session.room_id, "lobby");
}

#[test]
fn header_that_is_no_utf8_brings_no_cookies() {
    let broken: &[u8] = b"user_id=ua; nickname=al\xffice";
    let handler = ChatSocketHandler::with_fallback(5, "/", Some(broken), s("fresh"));
    assert_eq!(handler.session.user_id, "fresh");
    assert_eq!(handler.session.nickname, "User-5");
    let accented = "user_id=ua; nickname=zo\u{e9}".as_bytes();
    let handler = ChatSocketHandler::with_fallback(5, "/", Some(accented), s("fresh"));
    assert_eq!(handler.session.user_id, "ua");
    assert_eq!(handler.session.nickname, "zo\u{e9}");
}

#[test]
fn anonymous_handler_gets_a_random_identifier() {
    let one = ChatSocketHandler::new(1, "/", None);
    let two = ChatSocketHandler::new(2, "/", None);
    assert_eq!(one.session.nickname, "User-1");
    assert_eq!(two.session.nickname, "User-2");
    assert!(uuid::Uuid::parse_str(&one.session.user_id).is_ok());
    assert_ne!(one.session.user_id, two.session.user_id);
    let known = ChatSocketHandler::new(3, "/", Some(ALICE));
    assert_eq!(known.session.user_id, "ua");
}

#[test]
fn lobby_scenario() {
    let mut state = ChatState::new();

    let mut a = ChatSocketHandler::connecting(1);
    let out = a.open_with(&mut state, "/lobby", Some(ALICE), s("x"), s("id-1"), s("time-1"));
    assert_eq!(a.phase, Phase::Active);
    assert_eq!(targets(&out), vec![1]);
    assert_eq!(out[0].payload, "{\"content\":\"alice has joined the room\",\"type\":\"system\"}");
    {
        let history = state.room("lobby").unwrap().history_snapshot();
        assert_eq!(history.len(), 1);
        assert_eq!(history[0].message_type, MessageType::SystemMessage);
        assert_eq!(history[0].content, "alice has joined the room");
    }

    let mut b = ChatSocketHandler::connecting(2);
    let out = b.open_with(&mut state, "/lobby", Some(BOB), s("x"), s("id-2"), s("time-2"));
    assert_eq!(targets(&out), vec![2, 1, 2]);
    assert_eq!(
        out[0].payload,
        "{\"content\":\"alice has joined the room\",\"id\":\"id-1\",\"sender\":\"System\",\
         \"timestamp\":\"time-1\",\"type\":\"system\"}"
    );
    assert_eq!(out[1].payload, "{\"content\":\"bob has joined the room\",\"type\":\"system\"}");
    assert_eq!(out[2].payload, out[1].payload);
    assert_eq!(state.room("lobby").unwrap().message_count(), 2);

    let out = a.on_content(&mut state, Some("hi"), s("id-3"), s("time-3"));
    assert_eq!(targets(&out), vec![1, 2]);
    let frame = "{\"content\":\"hi\",\"id\":\"id-3\",\"sender\":\"alice\",\
                 \"timestamp\":\"time-3\",\"type\":\"message\"}";
    assert_eq!(out[0].payload, frame);
    assert_eq!(out[1].payload, frame);
    {
        let history = state.room("lobby").unwrap().history_snapshot();
        assert_eq!(history.len(), 3);
        assert_eq!(history[2].message_type, MessageType::UserMessage);
        assert_eq!(history[2].sender, "alice");
        assert_eq!(history[2].content, "hi");
        assert_eq!(history[2].room_id, "lobby");
    }

    let out = b.on_content(&mut state, Some("/logout"), s("id-4"), s("time-4"));
    assert_eq!(targets(&out), vec![2]);
    assert_eq!(out[0].payload, "{\"command\":\"logout\",\"type\":\"command\"}");
    assert_eq!(state.room("lobby").unwrap().message_count(), 3);

    let out = b.close_with(&mut state, s("id-5"), s("time-5"));
    assert_eq!(b.phase, Phase::Closed);
    assert_eq!(targets(&out), vec![1]);
    assert_eq!(out[0].payload, "{\"content\":\"bob has left the room\",\"type\":\"system\"}");
    let lobby = state.room("lobby").unwrap();
    assert!(!lobby.has_user("ub"));
    assert!(lobby.has_user("ua"));
    assert!(!lobby.has_connection(2));
    let history = lobby.history_snapshot();
    assert_eq!(history.len(), 4);
    assert_eq!(history[3].message_type, MessageType::SystemMessage);
    assert_eq!(history[3].content, "bob has left the room");
    assert_eq!(history[3].id, "id-5");
}

#[test]
fn lobby_scenario_over_frames() {
    let mut state = ChatState::new();
    let mut a = ChatSocketHandler::connecting(1);
    let out = a.on_open(&mut state, "/lobby", Some(ALICE));
    assert_eq!(targets(&out), vec![1]);
    assert_eq!(json(&out[0].payload)["content"], "alice has joined the room");

    let mut b = ChatSocketHandler::connecting(2);
    let out = b.on_open(&mut state, "/lobby", Some(BOB));
    assert_eq!(targets(&out), vec![2, 1, 2]);
    let replayed = json(&out[0].payload);
    assert_eq!(replayed["type"], "system");
    assert_eq!(replayed["sender"], "System");
    assert_eq!(replayed["content"], "alice has joined the room");
    assert!(uuid::Uuid::parse_str(replayed["id"].as_str().unwrap()).is_ok());
    assert!(chrono::DateTime::parse_from_rfc3339(replayed["timestamp"].as_str().unwrap()).is_ok());

    let out = a.on_message(&mut state, "{\"content\":\"hi\"}");
    assert_eq!(targets(&out), vec![1, 2]);
    let said = json(&out[0].payload);
    assert_eq!(said["type"], "message");
    assert_eq!(said["sender"], "alice");
    assert_eq!(said["content"], "hi");
    assert!(uuid::Uuid::parse_str(said["id"].as_str().unwrap()).is_ok());
    assert!(chrono::DateTime::parse_from_rfc3339(said["timestamp"].as_str().unwrap()).is_ok());
    assert_eq!(out[0].payload, out[1].payload);

    let out = b.on_message(&mut state, "{\"content\":\"/logout\"}");
    assert_eq!(targets(&out), vec![2]);
    assert_eq!(out[0].payload, "{\"command\":\"logout\",\"type\":\"command\"}");

    let out = b.on_close(&mut state);
    assert_eq!(targets(&out), vec![1]);
    assert_eq!(json(&out[0].payload)["content"], "bob has left the room");
    assert_eq!(state.room("lobby").unwrap().message_count(), 4);
}

#[test]
fn messages_stay_in_their_room() {
    let mut state = ChatState::new();
    let a = open(&mut state, 1, "/red", ALICE, "1");
    let b = open(&mut state, 2, "/blue", BOB, "2");
    let out = a.on_content(&mut state, Some("hello red"), s("id-3"), s("time-3"));
    assert_eq!(targets(&out), vec![1]);
    let out = b.on_content(&mut state, Some("hello blue"), s("id-4"), s("time-4"));
    assert_eq!(targets(&out), vec![2]);
    let red = state.room("red").unwrap().history_snapshot();
    let blue = state.room("blue").unwrap().history_snapshot();
    assert_eq!(red.len(), 2);
    assert_eq!(blue.len(), 2);
    assert_eq!(red[1].content, "hello red");
    assert_eq!(blue[1].content, "hello blue");
    assert_eq!(red[1].room_id, "red");
}

#[test]
fn new_connection_gets_the_history_first_and_in_order() {
    let mut state = ChatState::new();
    let a = open(&mut state, 1, "/lobby", ALICE, "1");
    for n in 0..5 {
        a.on_content(&mut state, Some(&format!("message {}", n)), format!("m{}", n), s("t"));
    }
    let mut b = ChatSocketHandler::connecting(2);
    let out = b.open_with(&mut state, "/lobby", Some(BOB), s("x"), s("id-2"), s("time-2"));
    assert_eq!(targets(&out), vec![2, 2, 2, 2, 2, 2, 1, 2]);
    assert_eq!(json(&out[0].payload)["content"], "alice has joined the room");
    for n in 0..5 {
        let frame = json(&out[n + 1].payload);
        assert_eq!(frame["content"], format!("message {}", n));
        assert_eq!(frame["id"], format!("m{}", n));
        assert_eq!(frame["type"], "message");
    }
    assert_eq!(json(&out[6].payload)["content"], "bob has joined the room");
    let out = a.on_content(&mut state, Some("later"), s("m5"), s("t"));
    assert_eq!(targets(&out), vec![1, 2]);
}

#[test]
fn two_tabs_of_one_user_are_one_presence() {
    let mut state = ChatState::new();
    let _watcher = open(&mut state, 9, "/lobby", BOB, "0");
    let mut first = ChatSocketHandler::connecting(1);
    let out = first.open_with(&mut state, "/lobby", Some(ALICE), s("x"), s("id-1"), s("t"));
    assert_eq!(targets(&out), vec![1, 9, 1]);
    let mut second = ChatSocketHandler::connecting(2);
    let out = second.open_with(&mut state, "/lobby", Some(ALICE), s("x"), s("id-2"), s("t"));
    assert_eq!(targets(&out), vec![2, 2]);
    assert_eq!(state.room("lobby").unwrap().user_count(), 2);
    assert_eq!(state.room("lobby").unwrap().message_count(), 2);

    let out = first.close_with(&mut state, s("id-3"), s("t"));
    assert!(out.is_empty());
    assert!(state.room("lobby").unwrap().has_user("ua"));
    assert_eq!(state.room("lobby").unwrap().message_count(), 2);

    let out = second.close_with(&mut state, s("id-4"), s("t"));
    assert_eq!(targets(&out), vec![9]);
    assert_eq!(json(&out[0].payload)["content"], "alice has left the room");
    assert!(!state.room("lobby").unwrap().has_user("ua"));
    assert_eq!(state.room("lobby").unwrap().message_count(), 3);
}

#[test]
fn directive_is_answered_to_the_sender_alone() {
    let mut state = ChatState::new();
    let a = open(&mut state, 1, "/lobby", ALICE, "1");
    let _b = open(&mut state, 2, "/lobby", BOB, "2");
    let before = state.room("lobby").unwrap().message_count();
    let out = a.on_content(&mut state, Some("/clear"), s("id"), s("t"));
    assert_eq!(targets(&out), vec![1]);
    assert_eq!(out[0].payload, "{\"command\":\"clear\",\"type\":\"command\"}");
    let out = a.on_content(&mut state, Some("/shrug"), s("id"), s("t"));
    assert_eq!(targets(&out), vec![1]);
    assert_eq!(out[0].payload, "{\"content\":\"Unknown command: /shrug\",\"type\":\"system\"}");
    assert_eq!(state.room("lobby").unwrap().message_count(), before);
    let reply = a.handle_command("/logout");
    assert_eq!(reply.connection_id, 1);
    assert_eq!(reply.payload, "{\"command\":\"logout\",\"type\":\"command\"}");
}

#[test]
fn frame_without_text_is_dropped() {
    let mut state = ChatState::new();
    let a = open(&mut state, 1, "/lobby", ALICE, "1");
    for frame in ["", "hi", "{\"content\":5}", "{\"message\":\"hi\"}", "[1,2]", "{\"content\":"] {
        assert!(a.on_message(&mut state, frame).is_empty());
    }
    assert!(a.on_content(&mut state, None, s("id"), s("t")).is_empty());
    assert_eq!(state.room("lobby").unwrap().message_count(), 1);
}

#[test]
fn empty_text_is_a_message() {
    let mut state = ChatState::new();
    let a = open(&mut state, 1, "/lobby", ALICE, "1");
    let out = a.on_message(&mut state, "{\"content\":\"\"}");
    assert_eq!(targets(&out), vec![1]);
    assert_eq!(json(&out[0].payload)["content"], "");
    assert_eq!(json(&out[0].payload)["type"], "message");
}

#[test]
fn events_out_of_turn_are_ignored() {
    let mut state = ChatState::new();
    let mut a = ChatSocketHandler::connecting(1);
    assert!(a.on_content(&mut state, Some("early"), s("id"), s("t")).is_empty());
    assert!(!state.has_room(""));
    assert!(!state.has_room("lobby"));

    a.open_with(&mut state, "/lobby", Some(ALICE), s("x"), s("id-1"), s("t"));
    let again = a.open_with(&mut state, "/kitchen", Some(BOB), s("x"), s("id-2"), s("t"));
    assert!(again.is_empty());
    assert_eq!(a.session.nickname, "alice");
    assert_eq!(a.session.room_id, "lobby");
    assert!(!state.has_room("kitchen"));

    a.close_with(&mut state, s("id-3"), s("t"));
    assert_eq!(a.phase, Phase::Closed);
    assert_eq!(state.room("lobby").unwrap().message_count(), 2);
    assert!(a.close_with(&mut state, s("id-4"), s("t")).is_empty());
    assert!(a.on_content(&mut state, Some("late"), s("id"), s("t")).is_empty());
    assert!(a.open_with(&mut state, "/lobby", Some(ALICE), s("x"), s("id-5"), s("t")).is_empty());
    assert_eq!(a.phase, Phase::Closed);
    assert_eq!(state.room("lobby").unwrap().message_count(), 2);
}

#[test]
fn connection_that_never_opened_just_closes() {
    let mut state = ChatState::new();
    let mut a = ChatSocketHandler::connecting(1);
    assert!(a.on_close(&mut state).is_empty());
    assert_eq!(a.phase, Phase::Closed);
    assert!(!state.has_room(""));
}
