//! Messages and users: the records a room keeps.

use crate::text::join_text;
use vstd::prelude::*;

verus! {

/// What a message is: something a user said, an announcement of the relay
/// itself, or a directive for the client.
#[derive(Debug, Clone, Copy, PartialEq, Eq, Structural)]
pub enum MessageType {
    UserMessage,
    SystemMessage,
    Command,
}

/// One entry of a room's history. It is never changed once it exists.
#[derive(Debug, Clone)]
pub struct ChatMessage {
    pub id: String,
    pub room_id: String,
    pub sender: String,
    pub content: String,
    pub timestamp: String,
    pub message_type: MessageType,
}

/// The mathematical value of a [`ChatMessage`].
pub struct MessageView {
    pub id: Seq<char>,
    pub room_id: Seq<char>,
    pub sender: Seq<char>,
    pub content: Seq<char>,
    pub timestamp: Seq<char>,
    pub message_type: MessageType,
}

impl View for ChatMessage {
    type V = MessageView;

    open spec fn view(&self) -> MessageView {
        MessageView {
            id: self.id@,
            room_id: self.room_id@,
            sender: self.sender@,
            content: self.content@,
            timestamp: self.timestamp@,
            message_type: self.message_type,
        }
    }
}

/// A participant of a room.
#[derive(Debug, Clone)]
pub struct User {
    pub id: String,
    pub nickname: String,
    pub room_id: String,
}

/// The mathematical value of a [`User`].
pub struct UserView {
    pub id: Seq<char>,
    pub nickname: Seq<char>,
    pub room_id: Seq<char>,
}

impl View for User {
    type V = UserView;

    open spec fn view(&self) -> UserView {
        UserView { id: self.id@, nickname: self.nickname@, room_id: self.room_id@ }
    }
}

/// The views of a sequence of messages, in the same order.
pub open spec fn message_views(messages: Seq<ChatMessage>) -> Seq<MessageView> {
    messages.map_values(|m: ChatMessage| m@)
}

impl ChatMessage {
    /// A copy with the same value.
    pub fn duplicate(&self) -> (copy: ChatMessage)
        ensures
            copy@ == self@,
    {
        ChatMessage {
            id: self.id.clone(),
            room_id: self.room_id.clone(),
            sender: self.sender.clone(),
            content: self.content.clone(),
            timestamp: self.timestamp.clone(),
            message_type: self.message_type,
        }
    }
}

impl User {
    /// A copy with the same value.
    pub fn duplicate(&self) -> (copy: User)
        ensures
            copy@ == self@,
    {
        User { id: self.id.clone(), nickname: self.nickname.clone(), room_id: self.room_id.clone() }
    }
}

/// The text that announces that `nickname` came in.
pub open spec fn joined_text(nickname: Seq<char>) -> Seq<char> {
    nickname + " has joined the room"@
}

/// The text that announces that `nickname` went away.
pub open spec fn left_text(nickname: Seq<char>) -> Seq<char> {
    nickname + " has left the room"@
}

/// An announcement of the relay: its sender is `System`.
pub open spec fn system_message(
    id: Seq<char>,
    room_id: Seq<char>,
    content: Seq<char>,
    timestamp: Seq<char>,
) -> MessageView {
    MessageView {
        id,
        room_id,
        sender: "System"@,
        content,
        timestamp,
        message_type: MessageType::SystemMessage,
    }
}

/// What `sender` said.
pub open spec fn user_message(
    id: Seq<char>,
    room_id: Seq<char>,
    sender: Seq<char>,
    content: Seq<char>,
    timestamp: Seq<char>,
) -> MessageView {
    MessageView { id, room_id, sender, content, timestamp, message_type: MessageType::UserMessage }
}

impl ChatMessage {
    /// An announcement of the relay in room `room_id`.
    pub fn system(
        id: String,
        room_id: &str,
        content: String,
        timestamp: String,
    ) -> (message: ChatMessage)
        ensures
            message@ == system_message(id@, room_id@, content@, timestamp@),
    {
        ChatMessage {
            id,
            room_id: room_id.to_owned(),
            sender: "System".to_owned(),
            content,
            timestamp,
            message_type: MessageType::SystemMessage,
        }
    }

    /// A message of user `sender` in room `room_id`.
    pub fn from_user(
        id: String,
        room_id: &str,
        sender: &str,
        content: &str,
        timestamp: String,
    ) -> (message: ChatMessage)
        ensures
            message@ == user_message(id@, room_id@, sender@, content@, timestamp@),
    {
        ChatMessage {
            id,
            room_id: room_id.to_owned(),
            sender: sender.to_owned(),
            content: content.to_owned(),
            timestamp,
            message_type: MessageType::UserMessage,
        }
    }
}

/// Writes the announcement that `nickname` came in.
pub fn joined_notice(nickname: &str) -> (text: String)
    ensures
        text@ == joined_text(nickname@),
{
    join_text(nickname, " has joined the room")
}

/// Writes the announcement that `nickname` went away.
pub fn left_notice(nickname: &str) -> (text: String)
    ensures
        text@ == left_text(nickname@),
{
    join_text(nickname, " has left the room")
}

} // verus!
