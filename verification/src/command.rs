//! Directives: frames whose text begins with `/`. They are answered to the
//! sender alone and never touch a room.

use crate::text::{join_text, same_text};
use crate::wire::{command_payload, encode_command, encode_notice, notice_payload};
use vstd::prelude::*;

verus! {

/// A directive as the relay understands it.
#[derive(Debug, Clone, PartialEq, Eq)]
pub enum Command {
    /// `/clear`: the client empties its own view of the room.
    Clear,
    /// `/logout`: the client ends its session.
    Logout,
    /// Anything else, with the text as it was sent.
    Unknown(String),
}

/// The mathematical value of a [`Command`].
pub enum CommandView {
    Clear,
    Logout,
    Unknown(Seq<char>),
}

impl View for Command {
    type V = CommandView;

    open spec fn view(&self) -> CommandView {
        match self {
            Command::Clear => CommandView::Clear,
            Command::Logout => CommandView::Logout,
            Command::Unknown(text) => CommandView::Unknown(text@),
        }
    }
}

/// The directive that `text` spells. Only the exact texts `/clear` and
/// `/logout` are known.
pub open spec fn parse_command(text: Seq<char>) -> CommandView {
    if text == "/clear"@ {
        CommandView::Clear
    } else if text == "/logout"@ {
        CommandView::Logout
    } else {
        CommandView::Unknown(text)
    }
}

/// The frame that answers a directive.
pub open spec fn reply_payload(command: CommandView) -> Seq<char> {
    match command {
        CommandView::Clear => command_payload("clear"@),
        CommandView::Logout => command_payload("logout"@),
        CommandView::Unknown(text) => notice_payload("Unknown command: "@ + text),
    }
}

impl Command {
    /// Reads a directive. The match is exact and case-sensitive.
    pub fn parse(text: &str) -> (command: Command)
        ensures
            command@ == parse_command(text@),
    {
        if same_text(text, "/clear") {
            Command::Clear
        } else if same_text(text, "/logout") {
            Command::Logout
        } else {
            Command::Unknown(text.to_owned())
        }
    }

    /// Writes the frame that answers this directive: a command frame for a
    /// known directive, a notice that names the text for an unknown one.
    pub fn reply(&self) -> (frame: String)
        ensures
            frame@ == reply_payload(self@),
    {
        match self {
            Command::Clear => encode_command("clear"),
            Command::Logout => encode_command("logout"),
            Command::Unknown(text) => {
                let notice = join_text("Unknown command: ", text.as_str());
                encode_notice(notice.as_str())
            },
        }
    }
}

} // verus!
