//! The protocol of one connection: it opens, carries frames, and closes.
//!
//! A handler owns no socket. Each event returns the deliveries that the
//! transport is to make; a delivery that fails is dropped by the transport
//! and is no event here.

use crate::command::{parse_command, reply_payload, Command};
use crate::message::{user_message, ChatMessage};
use crate::registry::{room_or_empty, ChatState};
use crate::room::{delivery_views, Delivery, DeliveryView, RoomView};
use crate::session::{cookie_text, resolve, resolved_session, SessionView, UserSession};
use crate::stamp::{current_timestamp, fresh_id};
use crate::text::{begins_with, slice_text, starts_with_char};
use crate::wire::{frame_content, json_string_member};
use vstd::prelude::*;

verus! {

/// Where a connection stands. `Closed` is final.
#[derive(Debug, Clone, Copy, PartialEq, Eq, Structural)]
pub enum Phase {
    Connecting,
    Active,
    Closed,
}

/// The state of one connection: its number, who it speaks for, and where
/// it stands.
#[derive(Debug, Clone)]
pub struct ChatSocketHandler {
    pub connection_id: u32,
    pub session: UserSession,
    pub phase: Phase,
}

/// The mathematical value of a [`ChatSocketHandler`].
pub struct HandlerView {
    pub connection_id: u32,
    pub session: SessionView,
    pub phase: Phase,
}

impl View for ChatSocketHandler {
    type V = HandlerView;

    open spec fn view(&self) -> HandlerView {
        HandlerView { connection_id: self.connection_id, session: self.session@, phase: self.phase }
    }
}

/// The handler of a connection before its handshake: it speaks for nobody.
pub open spec fn connecting(connection_id: u32) -> HandlerView {
    HandlerView {
        connection_id,
        session: SessionView {
            user_id: Seq::empty(),
            nickname: Seq::empty(),
            room_id: Seq::empty(),
        },
        phase: Phase::Connecting,
    }
}

/// What an event leaves behind: the rooms, the handler, and the deliveries
/// to make, in the order in which they are to be made.
pub struct Outcome {
    pub rooms: Map<Seq<char>, RoomView>,
    pub handler: HandlerView,
    pub deliveries: Seq<DeliveryView>,
}

/// The event changes nothing and sends nothing.
pub open spec fn ignored(rooms: Map<Seq<char>, RoomView>, handler: HandlerView) -> Outcome {
    Outcome { rooms, handler, deliveries: Seq::empty() }
}

/// The handshake of a connecting handler is done: the identity is read from
/// it, and the connection opens in the room that the path names. Any other
/// handler ignores the event.
pub open spec fn opened(
    rooms: Map<Seq<char>, RoomView>,
    handler: HandlerView,
    path: Seq<char>,
    cookie_header: Option<Seq<char>>,
    fallback_user_id: Seq<char>,
    announcement_id: Seq<char>,
    timestamp: Seq<char>,
) -> Outcome {
    if handler.phase == Phase::Connecting {
        let session = resolved_session(
            handler.connection_id,
            path,
            cookie_header,
            fallback_user_id,
        );
        let step = room_or_empty(rooms, session.room_id).open(
            handler.connection_id,
            session,
            announcement_id,
            timestamp,
        );
        Outcome {
            rooms: rooms.insert(session.room_id, step.room),
            handler: HandlerView {
                connection_id: handler.connection_id,
                session,
                phase: Phase::Active,
            },
            deliveries: step.deliveries,
        }
    } else {
        ignored(rooms, handler)
    }
}

/// The one delivery that answers the directive `text` of `handler`.
pub open spec fn command_reply(handler: HandlerView, text: Seq<char>) -> DeliveryView {
    DeliveryView {
        connection_id: handler.connection_id,
        payload: reply_payload(parse_command(text)),
    }
}

/// A frame with the text `content` arrives on an active connection. A
/// directive is answered to the sender and leaves the rooms alone; any other
/// text becomes a message of the sender's room. A frame without text, and a
/// frame on a connection that is not active, is ignored.
pub open spec fn received(
    rooms: Map<Seq<char>, RoomView>,
    handler: HandlerView,
    content: Option<Seq<char>>,
    message_id: Seq<char>,
    timestamp: Seq<char>,
) -> Outcome {
    match content {
        Some(text) => {
            if handler.phase != Phase::Active {
                ignored(rooms, handler)
            } else if starts_with_char(text, '/') {
                Outcome { rooms, handler, deliveries: seq![command_reply(handler, text)] }
            } else {
                let session = handler.session;
                let step = room_or_empty(rooms, session.room_id).post(
                    user_message(
                        message_id,
                        session.room_id,
                        session.nickname,
                        text,
                        timestamp,
                    ),
                );
                Outcome {
                    rooms: rooms.insert(session.room_id, step.room),
                    handler,
                    deliveries: step.deliveries,
                }
            }
        },
        None => ignored(rooms, handler),
    }
}

/// `handler`, closed.
pub open spec fn shut(handler: HandlerView) -> HandlerView {
    HandlerView { phase: Phase::Closed, ..handler }
}

/// The connection closes. An active connection leaves its room; one that
/// never opened is just closed; one that is closed stays so.
pub open spec fn closed(
    rooms: Map<Seq<char>, RoomView>,
    handler: HandlerView,
    announcement_id: Seq<char>,
    timestamp: Seq<char>,
) -> Outcome {
    if handler.phase == Phase::Active {
        let session = handler.session;
        let step = room_or_empty(rooms, session.room_id).close(
            handler.connection_id,
            session,
            announcement_id,
            timestamp,
        );
        Outcome {
            rooms: rooms.insert(session.room_id, step.room),
            handler: shut(handler),
            deliveries: step.deliveries,
        }
    } else {
        ignored(rooms, shut(handler))
    }
}

impl ChatSocketHandler {
    /// The handler of a connection whose handshake is still to come. It
    /// speaks for nobody yet.
    pub fn connecting(connection_id: u32) -> (handler: ChatSocketHandler)
        ensures
            handler@ == connecting(connection_id),
    {
        ChatSocketHandler {
            connection_id,
            session: UserSession {
                user_id: String::new(),
                nickname: String::new(),
                room_id: String::new(),
            },
            phase: Phase::Connecting,
        }
    }

    /// The handler of a connection whose handshake gave `path` and
    /// `cookie_header`, with `fallback_user_id` for a connection that
    /// brings no identifier.
    pub fn with_fallback(
        connection_id: u32,
        path: &str,
        cookie_header: Option<&[u8]>,
        fallback_user_id: String,
    ) -> (handler: ChatSocketHandler)
        ensures
            handler@ == (HandlerView {
                connection_id,
                session: resolved_session(
                    connection_id,
                    path@,
                    cookie_text(cookie_header),
                    fallback_user_id@,
                ),
                phase: Phase::Connecting,
            }),
    {
        ChatSocketHandler {
            connection_id,
            session: resolve(connection_id, path, cookie_header, fallback_user_id),
            phase: Phase::Connecting,
        }
    }

    /// The handler of a connection whose handshake gave `path` and
    /// `cookie_header`. A connection that brings no identifier gets a new
    /// random one.
    pub fn new(
        connection_id: u32,
        path: &str,
        cookie_header: Option<&[u8]>,
    ) -> (handler: ChatSocketHandler)
        ensures
            exists|fallback_user_id: Seq<char>|
                handler@ == (HandlerView {
                    connection_id,
                    session: #[trigger] resolved_session(
                        connection_id,
                        path@,
                        cookie_text(cookie_header),
                        fallback_user_id,
                    ),
                    phase: Phase::Connecting,
                }),
    {
        let fallback_user_id = fresh_id();
        Self::with_fallback(connection_id, path, cookie_header, fallback_user_id)
    }

    /// The outcome of an event as one value.
    pub open spec fn outcome(
        state: &ChatState,
        handler: &ChatSocketHandler,
        deliveries: &Vec<Delivery>,
    ) -> Outcome {
        Outcome { rooms: state@, handler: handler@, deliveries: delivery_views(deliveries@) }
    }

    /// The handshake is done, with the given identifiers and time for what
    /// the step may need.
    pub fn open_with(
        &mut self,
        state: &mut ChatState,
        path: &str,
        cookie_header: Option<&[u8]>,
        fallback_user_id: String,
        announcement_id: String,
        timestamp: String,
    ) -> (deliveries: Vec<Delivery>)
        requires
            old(state).wf(),
        ensures
            final(state).wf(),
            Self::outcome(final(state), final(self), &deliveries) == opened(
                old(state)@,
                old(self)@,
                path@,
                cookie_text(cookie_header),
                fallback_user_id@,
                announcement_id@,
                timestamp@,
            ),
    {
        match self.phase {
            Phase::Connecting => {
                self.session = resolve(self.connection_id, path, cookie_header, fallback_user_id);
                self.phase = Phase::Active;
                let room = state.get_or_create_room(self.session.room_id.as_str());
                room.open_connection(self.connection_id, &self.session, announcement_id, timestamp)
            },
            _ => {
                let deliveries: Vec<Delivery> = Vec::new();
                assert(delivery_views(deliveries@) =~= Seq::empty());
                deliveries
            },
        }
    }

    /// The handshake is done: the connection joins the room that its path
    /// names. The deliveries are the history for the new connection, then
    /// the announcement for everybody if a new user came in with it.
    pub fn on_open(
        &mut self,
        state: &mut ChatState,
        path: &str,
        cookie_header: Option<&[u8]>,
    ) -> (deliveries: Vec<Delivery>)
        requires
            old(state).wf(),
        ensures
            final(state).wf(),
            exists|fallback_user_id: Seq<char>, announcement_id: Seq<char>, timestamp: Seq<char>|
                Self::outcome(final(state), final(self), &deliveries) == #[trigger] opened(
                    old(state)@,
                    old(self)@,
                    path@,
                    cookie_text(cookie_header),
                    fallback_user_id,
                    announcement_id,
                    timestamp,
                ),
    {
        let fallback_user_id = fresh_id();
        let announcement_id = fresh_id();
        let timestamp = current_timestamp();
        self.open_with(state, path, cookie_header, fallback_user_id, announcement_id, timestamp)
    }

    /// Answers a directive. The one delivery goes to this connection.
    pub fn handle_command(&self, command: &str) -> (reply: Delivery)
        ensures
            reply@ == command_reply(self@, command@),
    {
        Delivery { connection_id: self.connection_id, payload: Command::parse(command).reply() }
    }

    /// A frame arrived whose text, if it has one, is `content`; the
    /// identifier and the time are for the message that it may become.
    pub fn on_content(
        &self,
        state: &mut ChatState,
        content: Option<&str>,
        message_id: String,
        timestamp: String,
    ) -> (deliveries: Vec<Delivery>)
        requires
            old(state).wf(),
        ensures
            final(state).wf(),
            Self::outcome(final(state), self, &deliveries) == received(
                old(state)@,
                self@,
                slice_text(content),
                message_id@,
                timestamp@,
            ),
    {
        let mut deliveries: Vec<Delivery> = Vec::new();
        assert(delivery_views(deliveries@) =~= Seq::empty());
        match content {
            Some(text) => {
                match self.phase {
                    Phase::Active => {
                        if begins_with(text, '/') {
                            let reply = self.handle_command(text);
                            deliveries.push(reply);
                            assert(delivery_views(deliveries@) =~= seq![
                                command_reply(self@, text@),
                            ]);
                            deliveries
                        } else {
                            let message = ChatMessage::from_user(
                                message_id,
                                self.session.room_id.as_str(),
                                self.session.nickname.as_str(),
                                text,
                                timestamp,
                            );
                            let room = state.get_or_create_room(self.session.room_id.as_str());
                            room.post_message(message)
                        }
                    },
                    _ => deliveries,
                }
            },
            None => deliveries,
        }
    }

    /// A frame arrived. Its text is the string under `content`, if the frame
    /// is a JSON object that has one; any other frame is dropped.
    pub fn on_message(&self, state: &mut ChatState, frame: &str) -> (deliveries: Vec<Delivery>)
        requires
            old(state).wf(),
        ensures
            final(state).wf(),
            exists|message_id: Seq<char>, timestamp: Seq<char>|
                Self::outcome(final(state), self, &deliveries) == #[trigger] received(
                    old(state)@,
                    self@,
                    json_string_member(frame@, "content"@),
                    message_id,
                    timestamp,
                ),
    {
        let content = frame_content(frame);
        let message_id = fresh_id();
        let timestamp = current_timestamp();
        match &content {
            Some(text) => self.on_content(state, Some(text.as_str()), message_id, timestamp),
            None => self.on_content(state, None, message_id, timestamp),
        }
    }

    /// The connection closes, with the identifier and the time for the
    /// announcement that the step may need.
    pub fn close_with(
        &mut self,
        state: &mut ChatState,
        announcement_id: String,
        timestamp: String,
    ) -> (deliveries: Vec<Delivery>)
        requires
            old(state).wf(),
        ensures
            final(state).wf(),
            Self::outcome(final(state), final(self), &deliveries) == closed(
                old(state)@,
                old(self)@,
                announcement_id@,
                timestamp@,
            ),
    {
        match self.phase {
            Phase::Active => {
                self.phase = Phase::Closed;
                let room = state.get_or_create_room(self.session.room_id.as_str());
                room.close_connection(self.connection_id, &self.session, announcement_id, timestamp)
            },
            _ => {
                self.phase = Phase::Closed;
                let deliveries: Vec<Delivery> = Vec::new();
                assert(delivery_views(deliveries@) =~= Seq::empty());
                deliveries
            },
        }
    }

    /// The connection closes: it leaves its room, and if it was the last of
    /// its user, the user leaves too and the room is told.
    pub fn on_close(&mut self, state: &mut ChatState) -> (deliveries: Vec<Delivery>)
        requires
            old(state).wf(),
        ensures
            final(state).wf(),
            exists|announcement_id: Seq<char>, timestamp: Seq<char>|
                Self::outcome(final(state), final(self), &deliveries) == #[trigger] closed(
                    old(state)@,
                    old(self)@,
                    announcement_id,
                    timestamp,
                ),
    {
        let announcement_id = fresh_id();
        let timestamp = current_timestamp();
        self.close_with(state, announcement_id, timestamp)
    }
}

} // verus!
