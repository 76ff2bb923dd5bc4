use chat_relay::ChatState;

#[test]
fn registry_starts_without_rooms() {
    let state = ChatState::new();
    assert!(!state.has_room("lobby"));
    assert!(state.room("lobby").is_none());
}

#[test]
fn room_is_created_on_first_reference() {
    let mut state = ChatState::new();
    {
        let room = state.get_or_create_room("lobby");
        assert_eq!(room.connection_count(), 0);
        assert_eq!(room.user_count(), 0);
        assert_eq!(room.message_count(), 0);
    }
    assert!(state.has_room("lobby"));
    assert!(!state.has_room("Lobby"));
    assert!(!state.has_room(""));
}

#[test]
fn room_is_the_same_on_every_later_reference() {
    let mut state = ChatState::new();
    state.get_or_create_room("lobby").add_connection(1, "u1");
    state.get_or_create_room("kitchen").add_connection(2, "u2");
    state.get_or_create_room("lobby").add_connection(3, "u3");
    let lobby = state.room("lobby").unwrap();
    assert_eq!(lobby.connection_count(), 2);
    assert!(lobby.has_connection(1));
    assert!(lobby.has_connection(3));
    assert!(!lobby.has_connection(2));
    let kitchen = state.room("kitchen").unwrap();
    assert_eq!(kitchen.connection_count(), 1);
    assert!(kitchen.has_connection(2));
}

#[test]
fn empty_identifier_names_a_room_too() {
    let mut state = ChatState::new();
    state.get_or_create_room("").add_connection(1, "u1");
    assert!(state.has_room(""));
    assert!(!state.has_room("lobby"));
}
