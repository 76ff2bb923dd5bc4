//! The frames that travel between the relay and its clients.
//!
//! Every frame is a JSON object. Writing and reading JSON is left to
//! `serde_json`; the two functions that call it are trusted, and what they
//! return is known to the verifier by name only.

use crate::message::{ChatMessage, MessageType, MessageView};
use crate::text::text_of;
use vstd::prelude::*;

verus! {

/// The text that `serde_json` writes for a JSON object built by inserting the
/// given members in order, each a name and a string value.
pub uninterp spec fn json_object_text(members: Seq<(Seq<char>, Seq<char>)>) -> Seq<char>;

/// The string that `serde_json` finds under `name` when it reads `text`:
/// `Some` if `text` is a JSON object whose member `name` is a string, `None`
/// for any other text.
pub uninterp spec fn json_string_member(text: Seq<char>, name: Seq<char>) -> Option<Seq<char>>;

/// The names and values of `members` as character sequences.
pub open spec fn member_views(members: Seq<(String, String)>) -> Seq<(Seq<char>, Seq<char>)> {
    members.map_values(|m: (String, String)| (m.0@, m.1@))
}

/// Trusted: fills a `serde_json::Map` by `Map::insert`, one string value per
/// member and in the order given, and writes `Value::Object` of it with
/// `to_string`. The contract only names the text that comes out.
#[verifier::external_body]
fn render_object(members: &Vec<(String, String)>) -> (text: String)
    ensures
        text@ == json_object_text(member_views(members@)),
{
    let mut object = serde_json::Map::new();
    for member in members.iter() {
        object.insert(member.0.clone(), serde_json::Value::String(member.1.clone()));
    }
    serde_json::Value::Object(object).to_string()
}

/// Trusted: reads `text` with `serde_json::from_str` as a `Value`, looks up
/// `name` with `Value::get`, and hands out the member if it is a
/// `Value::String`. A text that is no JSON, no object, or has no such string
/// member gives `None`. The contract only names what is found.
#[verifier::external_body]
fn string_member(text: &str, name: &str) -> (found: Option<String>)
    ensures
        text_of(found) == json_string_member(text@, name@),
{
    match serde_json::from_str::<serde_json::Value>(text) {
        Ok(value) => match value.get(name) {
            Some(serde_json::Value::String(member)) => Some(member.clone()),
            _ => None,
        },
        Err(_) => None,
    }
}

/// The value of the `type` member that marks a message kind on the wire.
pub open spec fn wire_kind(kind: MessageType) -> Seq<char> {
    match kind {
        MessageType::UserMessage => "message"@,
        MessageType::SystemMessage => "system"@,
        MessageType::Command => "command"@,
    }
}

/// The frame that carries a message of the history.
pub open spec fn message_payload(m: MessageView) -> Seq<char> {
    json_object_text(
        seq![
            ("type"@, wire_kind(m.message_type)),
            ("id"@, m.id),
            ("sender"@, m.sender),
            ("content"@, m.content),
            ("timestamp"@, m.timestamp),
        ],
    )
}

/// The frame that carries a notice of the relay itself.
pub open spec fn notice_payload(content: Seq<char>) -> Seq<char> {
    json_object_text(seq![("type"@, "system"@), ("content"@, content)])
}

/// The frame that tells a client to carry out `command`.
pub open spec fn command_payload(command: Seq<char>) -> Seq<char> {
    json_object_text(seq![("type"@, "command"@), ("command"@, command)])
}

/// The wire tag of a message kind.
pub fn kind_tag(kind: MessageType) -> (tag: &'static str)
    ensures
        tag@ == wire_kind(kind),
{
    match kind {
        MessageType::UserMessage => "message",
        MessageType::SystemMessage => "system",
        MessageType::Command => "command",
    }
}

fn member(name: &str, value: &str) -> (m: (String, String))
    ensures
        m.0@ == name@,
        m.1@ == value@,
{
    (name.to_owned(), value.to_owned())
}

/// Writes the frame for one message: its kind as `type`, then `id`,
/// `sender`, `content` and `timestamp`.
pub fn encode_message(message: &ChatMessage) -> (frame: String)
    ensures
        frame@ == message_payload(message@),
{
    let mut members: Vec<(String, String)> = Vec::new();
    members.push(member("type", kind_tag(message.message_type)));
    members.push(member("id", message.id.as_str()));
    members.push(member("sender", message.sender.as_str()));
    members.push(member("content", message.content.as_str()));
    members.push(member("timestamp", message.timestamp.as_str()));
    assert(member_views(members@) =~= seq![
        ("type"@, wire_kind(message@.message_type)),
        ("id"@, message@.id),
        ("sender"@, message@.sender),
        ("content"@, message@.content),
        ("timestamp"@, message@.timestamp),
    ]);
    render_object(&members)
}

/// Writes a notice frame: `type` is `system`, `content` is the text.
pub fn encode_notice(content: &str) -> (frame: String)
    ensures
        frame@ == notice_payload(content@),
{
    let mut members: Vec<(String, String)> = Vec::new();
    members.push(member("type", "system"));
    members.push(member("content", content));
    assert(member_views(members@) =~= seq![("type"@, "system"@), ("content"@, content@)]);
    render_object(&members)
}

/// Writes a command frame: `type` is `command`, `command` is the directive.
pub fn encode_command(command: &str) -> (frame: String)
    ensures
        frame@ == command_payload(command@),
{
    let mut members: Vec<(String, String)> = Vec::new();
    members.push(member("type", "command"));
    members.push(member("command", command));
    assert(member_views(members@) =~= seq![("type"@, "command"@), ("command"@, command@)]);
    render_object(&members)
}

/// The text that a client frame carries: the string under `content`, if the
/// frame is a JSON object that has one.
pub fn frame_content(frame: &str) -> (content: Option<String>)
    ensures
        text_of(content) == json_string_member(frame@, "content"@),
{
    string_member(frame, "content")
}

} // verus!
