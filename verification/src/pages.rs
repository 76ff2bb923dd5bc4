//! The decisions of the pages that hand out sessions: which page to show,
//! and whether a nickname may enter a room. Cookies, forms and templates are
//! the caller's.

use crate::registry::{room_or_empty, ChatState};
use crate::room::RoomView;
use crate::session::{SessionView, UserSession};
use crate::stamp::fresh_id;
use crate::text::{join_text, same_text};
use vstd::prelude::*;

verus! {

/// The room that a request names, `lobby` if it names none.
pub open spec fn room_or_lobby(rid: Option<&str>) -> Seq<char> {
    match rid {
        Some(room_id) => room_id@,
        None => "lobby"@,
    }
}

/// The room that a request names, `lobby` if it names none.
pub fn requested_room<'a>(rid: Option<&'a str>) -> (room_id: &'a str)
    ensures
        room_id@ == room_or_lobby(rid),
{
    match rid {
        Some(room_id) => room_id,
        None => "lobby",
    }
}

/// A page of the session pages, with what its template needs.
#[derive(Debug, Clone, PartialEq, Eq)]
pub enum Page {
    /// The chat page of a room, for a user who has a session in it.
    Chat { room_id: String, nickname: String, title: String, ws_path: String },
    /// The page that asks for a nickname.
    Login { room_id: String, title: String },
}

/// The mathematical value of a [`Page`].
pub enum PageView {
    Chat { room_id: Seq<char>, nickname: Seq<char>, title: Seq<char>, ws_path: Seq<char> },
    Login { room_id: Seq<char>, title: Seq<char> },
}

impl View for Page {
    type V = PageView;

    open spec fn view(&self) -> PageView {
        match self {
            Page::Chat { room_id, nickname, title, ws_path } => PageView::Chat {
                room_id: room_id@,
                nickname: nickname@,
                title: title@,
                ws_path: ws_path@,
            },
            Page::Login { room_id, title } => PageView::Login { room_id: room_id@, title: title@ },
        }
    }
}

/// The page for room `room_id`: the chat for a session of that room, the
/// login for anybody else.
pub open spec fn page_for(room_id: Seq<char>, session: Option<SessionView>) -> PageView {
    if session is Some && session->0.room_id == room_id {
        PageView::Chat {
            room_id,
            nickname: session->0.nickname,
            title: "Chat Room: "@ + room_id,
            ws_path: "/"@ + room_id,
        }
    } else {
        PageView::Login { room_id, title: "Join Room: "@ + room_id }
    }
}

/// The view of an optional session.
pub open spec fn session_view(session: Option<&UserSession>) -> Option<SessionView> {
    match session {
        Some(s) => Some(s@),
        None => None,
    }
}

/// The view of an optional owned session.
pub open spec fn issued_view(session: Option<UserSession>) -> Option<SessionView> {
    match session {
        Some(s) => Some(s@),
        None => None,
    }
}

/// The session that three cookies spell: all of them, or none.
pub open spec fn cookies_session(
    user_id: Option<String>,
    nickname: Option<String>,
    room_id: Option<String>,
) -> Option<SessionView> {
    if user_id is Some && nickname is Some && room_id is Some {
        Some(SessionView { user_id: user_id->0@, nickname: nickname->0@, room_id: room_id->0@ })
    } else {
        None
    }
}

/// Whether `nickname` may enter room `room_id`, and as whom: nobody in the
/// room goes by it yet.
pub open spec fn granted(
    rooms: Map<Seq<char>, RoomView>,
    room_id: Seq<char>,
    nickname: Seq<char>,
    user_id: Seq<char>,
) -> Option<SessionView> {
    if room_or_empty(rooms, room_id).nickname_taken(nickname, room_id) {
        None
    } else {
        Some(SessionView { user_id, nickname, room_id })
    }
}

impl UserSession {
    /// Reads a session from the values of the cookies `user_id`, `nickname`
    /// and `room_id`. There is a session only if all three are there.
    pub fn from_cookies(
        user_id: Option<String>,
        nickname: Option<String>,
        room_id: Option<String>,
    ) -> (session: Option<UserSession>)
        ensures
            issued_view(session) == cookies_session(user_id, nickname, room_id),
    {
        match (user_id, nickname, room_id) {
            (Some(user_id), Some(nickname), Some(room_id)) => Some(
                UserSession { user_id, nickname, room_id },
            ),
            _ => None,
        }
    }
}

/// Chooses the page for the room that `rid` names, `lobby` if it names none.
pub fn select_page(rid: Option<&str>, session: Option<&UserSession>) -> (page: Page)
    ensures
        page@ == page_for(room_or_lobby(rid), session_view(session)),
{
    let room_id = requested_room(rid);
    match session {
        Some(session) => {
            if same_text(session.room_id.as_str(), room_id) {
                return Page::Chat {
                    room_id: room_id.to_owned(),
                    nickname: session.nickname.clone(),
                    title: join_text("Chat Room: ", room_id),
                    ws_path: join_text("/", room_id),
                };
            }
        },
        None => {},
    }
    Page::Login { room_id: room_id.to_owned(), title: join_text("Join Room: ", room_id) }
}

/// Decides whether `nickname` may enter the room that `rid` names, as user
/// `user_id`. The room comes into being if it was not there; nothing else
/// changes. The user enters the room only when its first connection opens.
pub fn login_with(
    state: &mut ChatState,
    rid: Option<&str>,
    nickname: &str,
    user_id: String,
) -> (session: Option<UserSession>)
    requires
        old(state).wf(),
    ensures
        final(state).wf(),
        final(state)@ == old(state)@.insert(
            room_or_lobby(rid),
            room_or_empty(old(state)@, room_or_lobby(rid)),
        ),
        issued_view(session) == granted(old(state)@, room_or_lobby(rid), nickname@, user_id@),
{
    let room_id = requested_room(rid);
    let room = state.get_or_create_room(room_id);
    if room.nickname_taken(nickname, room_id) {
        None
    } else {
        Some(UserSession { user_id, nickname: nickname.to_owned(), room_id: room_id.to_owned() })
    }
}

/// Decides whether `nickname` may enter the room that `rid` names. Who is
/// let in gets a new random identifier.
pub fn login(state: &mut ChatState, rid: Option<&str>, nickname: &str) -> (session: Option<
    UserSession,
>)
    requires
        old(state).wf(),
    ensures
        final(state).wf(),
        final(state)@ == old(state)@.insert(
            room_or_lobby(rid),
            room_or_empty(old(state)@, room_or_lobby(rid)),
        ),
        exists|user_id: Seq<char>|
            issued_view(session) == #[trigger] granted(
                old(state)@,
                room_or_lobby(rid),
                nickname@,
                user_id,
            ),
{
    let user_id = fresh_id();
    login_with(state, rid, nickname, user_id)
}

} // verus!
