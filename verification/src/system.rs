//! The relay and all its connections as one state machine, and what holds
//! of every state that it can reach.
//!
//! The transport gives every connection a number of its own and reports
//! each event under that number. Nothing else is taken for granted: the
//! events themselves may come in any order and with any content.

use crate::handler::{closed, connecting, opened, received, HandlerView, Outcome, Phase};
use crate::laws::{
    lemma_close_confined, lemma_close_keeps_presence, lemma_open_keeps_presence,
    lemma_open_registers, reaches,
};
use crate::registry::room_or_empty;
use crate::room::{ConnectionView, RoomView};
use vstd::prelude::*;

verus! {

/// The rooms, and the handler of every connection that was heard of.
pub struct SystemView {
    pub rooms: Map<Seq<char>, RoomView>,
    pub handlers: Map<u32, HandlerView>,
}

/// Something that the transport reports of one connection, with the
/// identifiers and the time that the step may use.
pub enum Event {
    Open {
        connection_id: u32,
        path: Seq<char>,
        cookie_header: Option<Seq<char>>,
        fallback_user_id: Seq<char>,
        announcement_id: Seq<char>,
        timestamp: Seq<char>,
    },
    Frame {
        connection_id: u32,
        content: Option<Seq<char>>,
        message_id: Seq<char>,
        timestamp: Seq<char>,
    },
    Close { connection_id: u32, announcement_id: Seq<char>, timestamp: Seq<char> },
}

impl Event {
    /// The connection that the event is about.
    pub open spec fn connection(self) -> u32 {
        match self {
            Event::Open { connection_id, .. } => connection_id,
            Event::Frame { connection_id, .. } => connection_id,
            Event::Close { connection_id, .. } => connection_id,
        }
    }
}

impl SystemView {
    /// The relay before anything happened.
    pub open spec fn initial() -> SystemView {
        SystemView { rooms: Map::empty(), handlers: Map::empty() }
    }

    /// The handler of connection `c`; a connection that was not heard of is
    /// connecting.
    pub open spec fn handler_of(self, c: u32) -> HandlerView {
        if self.handlers.contains_key(c) {
            self.handlers[c]
        } else {
            connecting(c)
        }
    }

    /// What `event` leaves behind when the handler of its connection takes
    /// it.
    pub open spec fn outcome(self, event: Event) -> Outcome {
        let handler = self.handler_of(event.connection());
        match event {
            Event::Open {
                path,
                cookie_header,
                fallback_user_id,
                announcement_id,
                timestamp,
                ..
            } => opened(
                self.rooms,
                handler,
                path,
                cookie_header,
                fallback_user_id,
                announcement_id,
                timestamp,
            ),
            Event::Frame { content, message_id, timestamp, .. } => received(
                self.rooms,
                handler,
                content,
                message_id,
                timestamp,
            ),
            Event::Close { announcement_id, timestamp, .. } => closed(
                self.rooms,
                handler,
                announcement_id,
                timestamp,
            ),
        }
    }

    /// The relay after `event`.
    pub open spec fn step(self, event: Event) -> SystemView {
        SystemView {
            rooms: self.outcome(event).rooms,
            handlers: self.handlers.insert(event.connection(), self.outcome(event).handler),
        }
    }

    /// The relay after all of `events`, from the start.
    pub open spec fn run(events: Seq<Event>) -> SystemView
        decreases events.len(),
    {
        if events.len() == 0 {
            SystemView::initial()
        } else {
            SystemView::run(events.drop_last()).step(events.last())
        }
    }

    /// Connection `x` of room `room_id` has an active handler that is in
    /// that room for that user.
    pub open spec fn live(self, room_id: Seq<char>, x: ConnectionView) -> bool {
        &&& self.handlers.contains_key(x.id)
        &&& self.handlers[x.id].phase == Phase::Active
        &&& self.handlers[x.id].session.room_id == room_id
        &&& self.handlers[x.id].session.user_id == x.user_id
    }

    /// Every room is well formed, and a user is in it exactly while one of
    /// its connections is registered there.
    pub open spec fn rooms_sound(self) -> bool {
        forall|k: Seq<char>| #[trigger]
            self.rooms.contains_key(k) ==> self.rooms[k].wf() && self.rooms[k].presence_consistent()
    }

    /// Every handler is filed under the number of its connection.
    pub open spec fn handlers_keyed(self) -> bool {
        forall|c: u32| #[trigger]
            self.handlers.contains_key(c) ==> self.handlers[c].connection_id == c
    }

    /// The connection of every active handler is registered in the room of
    /// the handler, for the user of the handler.
    pub open spec fn active_are_registered(self) -> bool {
        forall|c: u32| #[trigger]
            self.handlers.contains_key(c) && self.handlers[c].phase == Phase::Active ==> {
                &&& self.rooms.contains_key(self.handlers[c].session.room_id)
                &&& registered_for(
                    self.rooms[self.handlers[c].session.room_id],
                    c,
                    self.handlers[c].session.user_id,
                )
            }
    }

    /// Every registered connection is live.
    pub open spec fn registered_are_active(self) -> bool {
        forall|k: Seq<char>, i: int|
            self.rooms.contains_key(k) && 0 <= i < self.rooms[k].connections.len() ==> self.live(
                k,
                #[trigger] self.rooms[k].connections[i],
            )
    }

    /// What holds of every state that the relay can reach.
    pub open spec fn sound(self) -> bool {
        &&& self.rooms_sound()
        &&& self.handlers_keyed()
        &&& self.active_are_registered()
        &&& self.registered_are_active()
    }
}

/// Connection `c` is registered in `room` for user `user_id`.
pub open spec fn registered_for(room: RoomView, c: u32, user_id: Seq<char>) -> bool {
    exists|i: int|
        0 <= i < room.connections.len() && #[trigger] room.connections[i] == (ConnectionView {
            id: c,
            user_id,
        })
}

/// The start is sound.
pub proof fn lemma_initial_is_sound()
    ensures
        SystemView::initial().sound(),
{
}

/// A handshake keeps the relay sound.
proof fn lemma_open_keeps_sound(sys: SystemView, event: Event)
    requires
        sys.sound(),
        event is Open,
    ensures
        sys.step(event).sound(),
{
    let c = event.connection();
    let handler = sys.handler_of(c);
    let after = sys.step(event);
    if handler.phase == Phase::Connecting {
        let session = after.handlers[c].session;
        let k = session.room_id;
        let room = room_or_empty(sys.rooms, k);
        let announcement_id = event->Open_announcement_id;
        let timestamp = event->Open_timestamp;
        lemma_open_keeps_presence(room, c, session, announcement_id, timestamp);
        lemma_open_registers(room, c, session, announcement_id, timestamp);
        let grown = after.rooms[k];
        assert forall|x: u32| #[trigger]
            after.handlers.contains_key(x) && after.handlers[x].phase
                == Phase::Active implies after.rooms.contains_key(
            after.handlers[x].session.room_id,
        ) && registered_for(
            after.rooms[after.handlers[x].session.room_id],
            x,
            after.handlers[x].session.user_id,
        ) by {
            if x != c {
                let kx = sys.handlers[x].session.room_id;
                let ux = sys.handlers[x].session.user_id;
                let i = choose|i: int|
                    0 <= i < sys.rooms[kx].connections.len()
                        && #[trigger] sys.rooms[kx].connections[i] == (ConnectionView {
                        id: x,
                        user_id: ux,
                    });
                if kx == k {
                    assert(grown.connections[i] == (ConnectionView { id: x, user_id: ux }));
                }
            }
        }
    }
}

/// A frame keeps the relay sound: it changes no handler and at most the
/// history of one room.
proof fn lemma_frame_keeps_sound(sys: SystemView, event: Event)
    requires
        sys.sound(),
        event is Frame,
    ensures
        sys.step(event).sound(),
{
}

/// A close keeps the relay sound.
proof fn lemma_close_keeps_sound(sys: SystemView, event: Event)
    requires
        sys.sound(),
        event is Close,
    ensures
        sys.step(event).sound(),
{
    let c = event.connection();
    let handler = sys.handler_of(c);
    let after = sys.step(event);
    if handler.phase == Phase::Active {
        let session = handler.session;
        let k = session.room_id;
        let room = sys.rooms[k];
        let announcement_id = event->Close_announcement_id;
        let timestamp = event->Close_timestamp;
        let at = choose|i: int|
            0 <= i < room.connections.len() && #[trigger] room.connections[i] == (ConnectionView {
                id: c,
                user_id: session.user_id,
            });
        lemma_close_keeps_presence(room, c, session, announcement_id, timestamp);
        room.lemma_remove_registered(c, at);
        let shrunk = after.rooms[k];
        assert forall|x: u32| #[trigger]
            after.handlers.contains_key(x) && after.handlers[x].phase
                == Phase::Active implies after.rooms.contains_key(
            after.handlers[x].session.room_id,
        ) && registered_for(
            after.rooms[after.handlers[x].session.room_id],
            x,
            after.handlers[x].session.user_id,
        ) by {
            let kx = sys.handlers[x].session.room_id;
            let ux = sys.handlers[x].session.user_id;
            let i = choose|i: int|
                0 <= i < sys.rooms[kx].connections.len() && #[trigger] sys.rooms[kx].connections[i]
                    == (ConnectionView { id: x, user_id: ux });
            if kx == k {
                if i < at {
                    assert(shrunk.connections[i] == (ConnectionView { id: x, user_id: ux }));
                } else {
                    assert(shrunk.connections[i - 1] == (ConnectionView { id: x, user_id: ux }));
                }
            }
        }
    }
}

/// Every event keeps the relay sound.
pub proof fn lemma_step_keeps_sound(sys: SystemView, event: Event)
    requires
        sys.sound(),
    ensures
        sys.step(event).sound(),
{
    match event {
        Event::Open { .. } => lemma_open_keeps_sound(sys, event),
        Event::Frame { .. } => lemma_frame_keeps_sound(sys, event),
        Event::Close { .. } => lemma_close_keeps_sound(sys, event),
    }
}

/// Whatever the events, the relay is sound after them.
pub proof fn lemma_every_run_is_sound(events: Seq<Event>)
    ensures
        SystemView::run(events).sound(),
    decreases events.len(),
{
    if events.len() > 0 {
        lemma_every_run_is_sound(events.drop_last());
        lemma_step_keeps_sound(SystemView::run(events.drop_last()), events.last());
    }
}

/// Presence, in every state that the relay can reach: a user is in a room
/// if and only if one of its connections is registered in that room.
pub proof fn lemma_presence_follows_connections(
    events: Seq<Event>,
    room_id: Seq<char>,
    user_id: Seq<char>,
)
    requires
        SystemView::run(events).rooms.contains_key(room_id),
    ensures
        SystemView::run(events).rooms[room_id].users.contains_key(user_id) <==> SystemView::run(
            events,
        ).rooms[room_id].user_connected(user_id),
{
    lemma_every_run_is_sound(events);
}

/// One room and one user, in every state that the relay can reach: a
/// connection is registered at most once in a room, and if it is registered
/// in two rooms or for two users, these are the same.
pub proof fn lemma_connection_has_one_room_and_user(
    events: Seq<Event>,
    k1: Seq<char>,
    i1: int,
    k2: Seq<char>,
    i2: int,
)
    requires
        SystemView::run(events).rooms.contains_key(k1),
        SystemView::run(events).rooms.contains_key(k2),
        0 <= i1 < SystemView::run(events).rooms[k1].connections.len(),
        0 <= i2 < SystemView::run(events).rooms[k2].connections.len(),
        SystemView::run(events).rooms[k1].connections[i1].id == SystemView::run(
            events,
        ).rooms[k2].connections[i2].id,
    ensures
        k1 == k2,
        i1 == i2,
{
    lemma_every_run_is_sound(events);
}

/// Room isolation, in every state that the relay can reach: whatever
/// happens on a connection of one room, no delivery is addressed to a
/// connection that is registered in another room, and the other room stays
/// as it is.
pub proof fn lemma_rooms_are_isolated(events: Seq<Event>, event: Event, room_id: Seq<char>, i: int)
    requires
        SystemView::run(events).rooms.contains_key(room_id),
        0 <= i < SystemView::run(events).rooms[room_id].connections.len(),
        SystemView::run(events).outcome(event).handler.session.room_id != room_id,
    ensures
        !reaches(
            SystemView::run(events).outcome(event).deliveries,
            SystemView::run(events).rooms[room_id].connections[i].id,
        ),
        SystemView::run(events).step(event).rooms.contains_key(room_id),
        SystemView::run(events).step(event).rooms[room_id] == SystemView::run(
            events,
        ).rooms[room_id],
{
    lemma_every_run_is_sound(events);
    let sys = SystemView::run(events);
    match event {
        Event::Close { connection_id, announcement_id, timestamp } => {
            lemma_close_confined(
                sys.rooms,
                sys.handler_of(connection_id),
                announcement_id,
                timestamp,
                sys.rooms[room_id].connections[i].id,
            );
        },
        _ => {},
    }
}

} // verus!
