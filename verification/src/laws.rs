//! What holds of the relay as a whole, stated over the values of rooms and
//! handlers and proved from the definitions of the steps.

use crate::handler::{closed, command_reply, opened, received, HandlerView, Phase};
use crate::message::{joined_text, left_text, system_message, MessageView};
use crate::registry::room_or_empty;
use crate::protocol::{user_of, RoomStep};
use crate::room::{other_than, ConnectionView, DeliveryView, RoomView};
use crate::session::{room_of_path, SessionView};
use crate::text::starts_with_char;
use crate::wire::{message_payload, notice_payload};
use vstd::prelude::*;

verus! {

/// Whether one of `deliveries` is addressed to connection `c`.
pub open spec fn reaches(deliveries: Seq<DeliveryView>, c: u32) -> bool {
    exists|i: int| 0 <= i < deliveries.len() && (#[trigger] deliveries[i]).connection_id == c
}

/// The rooms other than `room_id` are the same in `before` and `after`.
pub open spec fn other_rooms_untouched(
    before: Map<Seq<char>, RoomView>,
    after: Map<Seq<char>, RoomView>,
    room_id: Seq<char>,
) -> bool {
    forall|k: Seq<char>|
        k != room_id ==> (#[trigger] after.contains_key(k) <==> before.contains_key(k)) && (
        before.contains_key(k) ==> after[k] == before[k])
}

/// `c` is registered in the room only for user `user_id`, if at all.
pub open spec fn owned_by(room: RoomView, c: u32, user_id: Seq<char>) -> bool {
    forall|i: int|
        0 <= i < room.connections.len() && (#[trigger] room.connections[i]).id == c
            ==> room.connections[i].user_id == user_id
}

/// A broadcast addresses exactly the registered connections, each once and
/// in the order of registration.
pub proof fn lemma_broadcast_addresses(room: RoomView, payload: Seq<char>)
    ensures
        room.broadcast(payload).len() == room.connections.len(),
        forall|i: int|
            0 <= i < room.connections.len() ==> #[trigger] room.broadcast(payload)[i]
                == (DeliveryView { connection_id: room.connections[i].id, payload }),
        forall|c: u32| reaches(room.broadcast(payload), c) <==> room.has_connection(c),
{
    let plan = room.broadcast(payload);
    assert forall|c: u32| room.has_connection(c) implies reaches(plan, c) by {
        let i = choose|i: int|
            0 <= i < room.connections.len() && (#[trigger] room.connections[i]).id == c;
        assert(plan[i].connection_id == c);
    }
}

/// Room isolation. A frame that arrives on a connection of one room changes
/// no other room, and none of its deliveries is addressed to a connection
/// that is not registered in that room (the sender itself aside, which gets
/// the answers to its directives).
pub proof fn lemma_room_isolation(
    rooms: Map<Seq<char>, RoomView>,
    handler: HandlerView,
    content: Option<Seq<char>>,
    message_id: Seq<char>,
    timestamp: Seq<char>,
    c: u32,
)
    requires
        !room_or_empty(rooms, handler.session.room_id).has_connection(c),
        c != handler.connection_id,
    ensures
        !reaches(received(rooms, handler, content, message_id, timestamp).deliveries, c),
        other_rooms_untouched(
            rooms,
            received(rooms, handler, content, message_id, timestamp).rooms,
            handler.session.room_id,
        ),
{
}

/// The announcement of a leave stays in the room. When a connection closes,
/// no other room changes, and no delivery is addressed to a connection that
/// is not registered in its room.
pub proof fn lemma_close_confined(
    rooms: Map<Seq<char>, RoomView>,
    handler: HandlerView,
    announcement_id: Seq<char>,
    timestamp: Seq<char>,
    c: u32,
)
    requires
        !room_or_empty(rooms, handler.session.room_id).has_connection(c),
    ensures
        !reaches(closed(rooms, handler, announcement_id, timestamp).deliveries, c),
        other_rooms_untouched(
            rooms,
            closed(rooms, handler, announcement_id, timestamp).rooms,
            handler.session.room_id,
        ),
{
    let out = closed(rooms, handler, announcement_id, timestamp);
    let room = room_or_empty(rooms, handler.session.room_id);
    let d = room.remove_connection(handler.connection_id);
    if handler.phase == Phase::Active && reaches(out.deliveries, c) {
        let i = choose|i: int|
            0 <= i < out.deliveries.len() && (#[trigger] out.deliveries[i]).connection_id == c;
        room.connections.lemma_filter_contains_rev(
            other_than(handler.connection_id),
            d.connections[i],
        );
    }
}

/// History replay order. A connection that opens gets the whole history,
/// oldest message first, before anything else; what follows, if anything,
/// is the announcement of its own user.
pub proof fn lemma_history_replay_order(
    room: RoomView,
    c: u32,
    session: SessionView,
    announcement_id: Seq<char>,
    timestamp: Seq<char>,
)
    ensures
        ({
            let sent = room.open(c, session, announcement_id, timestamp).deliveries;
            &&& sent.len() >= room.messages.len()
            &&& forall|i: int|
                0 <= i < room.messages.len() ==> #[trigger] sent[i] == (DeliveryView {
                    connection_id: c,
                    payload: message_payload(room.messages[i]),
                })
            &&& forall|i: int|
                room.messages.len() <= i < sent.len() ==> (#[trigger] sent[i]).payload
                    == notice_payload(joined_text(session.nickname))
        }),
{
}

/// Command isolation. A directive on an active connection is answered by
/// one delivery, addressed to that connection, and the rooms stay as they
/// are: no other connection sees anything of it.
pub proof fn lemma_command_isolation(
    rooms: Map<Seq<char>, RoomView>,
    handler: HandlerView,
    text: Seq<char>,
    message_id: Seq<char>,
    timestamp: Seq<char>,
)
    requires
        handler.phase == Phase::Active,
        starts_with_char(text, '/'),
    ensures
        received(rooms, handler, Some(text), message_id, timestamp).rooms == rooms,
        received(rooms, handler, Some(text), message_id, timestamp).deliveries == seq![
            command_reply(handler, text),
        ],
        forall|c: u32|
            c != handler.connection_id ==> !reaches(
                received(rooms, handler, Some(text), message_id, timestamp).deliveries,
                c,
            ),
{
}

/// Broadcast completeness under partial failure. Whichever connection `f`
/// fails to take its frame, the deliveries for the others are there: every
/// registered connection other than `f` is addressed, by a delivery that
/// carries the payload and is not the one for `f`.
pub proof fn lemma_broadcast_survives_failure(room: RoomView, payload: Seq<char>, f: u32, c: u32)
    requires
        room.has_connection(c),
        c != f,
    ensures
        exists|i: int|
            0 <= i < room.broadcast(payload).len() && #[trigger] room.broadcast(payload)[i] == (
            DeliveryView { connection_id: c, payload }) && room.broadcast(
                payload,
            )[i].connection_id != f,
{
    let i = choose|i: int|
        0 <= i < room.connections.len() && (#[trigger] room.connections[i]).id == c;
    assert(room.broadcast(payload)[i] == (DeliveryView { connection_id: c, payload }));
}

/// What a connection gets when it opens stays in its room. No other room
/// changes, and no delivery is addressed to a connection that is neither
/// the new one nor registered in the room.
pub proof fn lemma_open_confined(
    rooms: Map<Seq<char>, RoomView>,
    handler: HandlerView,
    path: Seq<char>,
    cookie_header: Option<Seq<char>>,
    fallback_user_id: Seq<char>,
    announcement_id: Seq<char>,
    timestamp: Seq<char>,
    c: u32,
)
    requires
        c != handler.connection_id,
        !room_or_empty(rooms, room_of_path(path)).has_connection(c),
    ensures
        ({
            let out = opened(
                rooms,
                handler,
                path,
                cookie_header,
                fallback_user_id,
                announcement_id,
                timestamp,
            );
            &&& !reaches(out.deliveries, c)
            &&& other_rooms_untouched(rooms, out.rooms, room_of_path(path))
        }),
{
}

/// Every step keeps the history: what was appended stays, in its place.
pub proof fn lemma_history_is_kept(
    room: RoomView,
    c: u32,
    session: SessionView,
    message: MessageView,
    announcement_id: Seq<char>,
    timestamp: Seq<char>,
)
    ensures
        room.messages.is_prefix_of(
            room.open(c, session, announcement_id, timestamp).room.messages,
        ),
        room.messages.is_prefix_of(room.post(message).room.messages),
        room.messages.is_prefix_of(
            room.close(c, session, announcement_id, timestamp).room.messages,
        ),
        room.post(message).room.messages == room.messages.push(message),
{
}

/// Opening a connection that was not registered keeps a room well formed
/// and its presence consistent.
pub proof fn lemma_open_keeps_presence(
    room: RoomView,
    c: u32,
    session: SessionView,
    announcement_id: Seq<char>,
    timestamp: Seq<char>,
)
    requires
        room.wf(),
        room.presence_consistent(),
        !room.has_connection(c),
    ensures
        room.open(c, session, announcement_id, timestamp).room.wf(),
        room.open(c, session, announcement_id, timestamp).room.presence_consistent(),
{
    let after = room.open(c, session, announcement_id, timestamp).room;
    let n = room.connections.len() as int;
    let user_id = session.user_id;
    assert forall|k: Seq<char>| #[trigger] after.users.contains_key(k) implies after.user_connected(
        k,
    ) by {
        if k == user_id {
            assert(after.connections[n].user_id == k);
        } else {
            let i = choose|i: int|
                0 <= i < room.connections.len() && (#[trigger] room.connections[i]).user_id == k;
            assert(after.connections[i].user_id == k);
        }
    }
}

/// A posted message changes neither users nor connections.
pub proof fn lemma_post_keeps_presence(room: RoomView, message: MessageView)
    requires
        room.wf(),
        room.presence_consistent(),
    ensures
        room.post(message).room.wf(),
        room.post(message).room.presence_consistent(),
{
}

/// Closing a connection keeps a room well formed and its presence
/// consistent, provided the connection was registered for the user that
/// closes it, or not registered at all.
pub proof fn lemma_close_keeps_presence(
    room: RoomView,
    c: u32,
    session: SessionView,
    announcement_id: Seq<char>,
    timestamp: Seq<char>,
)
    requires
        room.wf(),
        room.presence_consistent(),
        owned_by(room, c, session.user_id),
    ensures
        room.close(c, session, announcement_id, timestamp).room.wf(),
        room.close(c, session, announcement_id, timestamp).room.presence_consistent(),
{
    let after = room.close(c, session, announcement_id, timestamp).room;
    let user_id = session.user_id;
    if room.has_connection(c) {
        let at = choose|i: int|
            0 <= i < room.connections.len() && (#[trigger] room.connections[i]).id == c;
        room.lemma_remove_registered(c, at);
        assert forall|k: Seq<char>|
            room.user_connected(k) && k != user_id implies after.user_connected(k) by {
            let i = choose|i: int|
                0 <= i < room.connections.len() && (#[trigger] room.connections[i]).user_id == k;
            if i < at {
                assert(after.connections[i].user_id == k);
            } else {
                assert(after.connections[i - 1].user_id == k);
            }
        }
    } else {
        room.lemma_remove_unregistered(c);
    }
}

/// Opening a connection that is new to the room registers it at the end.
pub proof fn lemma_open_registers(
    room: RoomView,
    c: u32,
    session: SessionView,
    announcement_id: Seq<char>,
    timestamp: Seq<char>,
)
    requires
        !room.has_connection(c),
    ensures
        room.open(c, session, announcement_id, timestamp).room.connections == room.connections.push(
            ConnectionView { id: c, user_id: session.user_id },
        ),
        forall|x: u32|
            room.open(c, session, announcement_id, timestamp).room.has_connection(x) <==> (x == c
                || room.has_connection(x)),
{
    let after = room.open(c, session, announcement_id, timestamp).room;
    let n = room.connections.len() as int;
    assert forall|x: u32| (x == c || room.has_connection(x)) implies after.has_connection(x) by {
        if x == c {
            assert(after.connections[n].id == x);
        } else {
            let i = choose|i: int|
                0 <= i < room.connections.len() && (#[trigger] room.connections[i]).id == x;
            assert(after.connections[i].id == x);
        }
    }
}

/// A connection that opens for a user who is not in the room brings the
/// user in, and the room is told exactly once: one announcement is appended,
/// and after the history for the new connection every connection gets it.
pub proof fn lemma_open_brings_user_in(
    room: RoomView,
    c: u32,
    session: SessionView,
    announcement_id: Seq<char>,
    timestamp: Seq<char>,
)
    requires
        !room.users.contains_key(session.user_id),
    ensures
        ({
            let after = room.open(c, session, announcement_id, timestamp);
            &&& after.room.users == room.users.insert(session.user_id, user_of(session))
            &&& after.room.messages == room.messages.push(
                system_message(
                    announcement_id,
                    session.room_id,
                    joined_text(session.nickname),
                    timestamp,
                ),
            )
            &&& after.deliveries == room.replay(c) + after.room.broadcast(
                notice_payload(joined_text(session.nickname)),
            )
        }),
{
}

/// A connection that opens for a user who is in the room is not announced:
/// users and history stay as they are, and the history for the new
/// connection is all that is sent.
pub proof fn lemma_open_again_is_silent(
    room: RoomView,
    c: u32,
    session: SessionView,
    announcement_id: Seq<char>,
    timestamp: Seq<char>,
)
    requires
        room.users.contains_key(session.user_id),
    ensures
        ({
            let after = room.open(c, session, announcement_id, timestamp);
            &&& after.room.users == room.users
            &&& after.room.messages == room.messages
            &&& after.deliveries == room.replay(c)
        }),
{
}

/// A connection that closes while another one of its user is registered is
/// not announced: users and history stay as they are, and nothing is sent.
pub proof fn lemma_close_with_another_open(
    room: RoomView,
    c: u32,
    other: u32,
    session: SessionView,
    announcement_id: Seq<char>,
    timestamp: Seq<char>,
)
    requires
        other != c,
        exists|i: int|
            0 <= i < room.connections.len() && (#[trigger] room.connections[i]) == (
            ConnectionView { id: other, user_id: session.user_id }),
    ensures
        ({
            let after = room.close(c, session, announcement_id, timestamp);
            &&& after.room.users == room.users
            &&& after.room.messages == room.messages
            &&& after.room.connections == room.remove_connection(c).connections
            &&& after.deliveries == Seq::<DeliveryView>::empty()
        }),
{
    let i = choose|i: int|
        0 <= i < room.connections.len() && (#[trigger] room.connections[i]) == (ConnectionView {
            id: other,
            user_id: session.user_id,
        });
    room.connections.lemma_filter_contains(other_than(c), i);
}

/// A connection that closes as the last one of a user who is in the room
/// takes the user out, and the room is told exactly once: one announcement
/// is appended, and every connection that is still registered gets it.
pub proof fn lemma_close_of_last_takes_user_out(
    room: RoomView,
    c: u32,
    session: SessionView,
    announcement_id: Seq<char>,
    timestamp: Seq<char>,
)
    requires
        room.users.contains_key(session.user_id),
        forall|i: int|
            0 <= i < room.connections.len() && (#[trigger] room.connections[i]).user_id
                == session.user_id ==> room.connections[i].id == c,
    ensures
        ({
            let after = room.close(c, session, announcement_id, timestamp);
            &&& after.room.users == room.users.remove(session.user_id)
            &&& after.room.messages == room.messages.push(
                system_message(
                    announcement_id,
                    session.room_id,
                    left_text(session.nickname),
                    timestamp,
                ),
            )
            &&& after.room.connections == room.remove_connection(c).connections
            &&& after.deliveries == room.remove_connection(c).broadcast(
                notice_payload(left_text(session.nickname)),
            )
        }),
{
    let d = room.remove_connection(c);
    if d.user_connected(session.user_id) {
        let j = choose|j: int|
            0 <= j < d.connections.len() && (#[trigger] d.connections[j]).user_id
                == session.user_id;
        room.connections.lemma_filter_contains_rev(other_than(c), d.connections[j]);
    }
}

/// Of two connections of one user at the end of the registrations, one
/// closes: the other stays, and nothing else changes or is sent.
proof fn lemma_close_first_of_two(
    room: RoomView,
    rest: Seq<ConnectionView>,
    ca: u32,
    cb: u32,
    session: SessionView,
    announcement_id: Seq<char>,
    timestamp: Seq<char>,
)
    requires
        room.wf(),
        ca != cb,
        room.connections == rest.push(ConnectionView { id: ca, user_id: session.user_id }).push(
            ConnectionView { id: cb, user_id: session.user_id },
        ) || room.connections == rest.push(
            ConnectionView { id: cb, user_id: session.user_id },
        ).push(ConnectionView { id: ca, user_id: session.user_id }),
    ensures
        room.close(ca, session, announcement_id, timestamp) == (RoomStep {
            room: RoomView {
                connections: rest.push(ConnectionView { id: cb, user_id: session.user_id }),
                ..room
            },
            deliveries: Seq::empty(),
        }),
{
    let user_id = session.user_id;
    let n = rest.len() as int;
    let ka = ConnectionView { id: ca, user_id };
    let kb = ConnectionView { id: cb, user_id };
    if room.connections == rest.push(ka).push(kb) {
        assert(room.connections[n + 1] == kb);
        room.lemma_remove_registered(ca, n);
        assert(room.connections.remove(n) =~= rest.push(kb));
    } else {
        assert(room.connections[n] == kb);
        room.lemma_remove_registered(ca, n + 1);
        assert(room.connections.remove(n + 1) =~= rest.push(kb));
    }
    lemma_close_with_another_open(room, ca, cb, session, announcement_id, timestamp);
}

/// The one connection of a user, at the end of the registrations, closes:
/// the user leaves, and those that remain are told.
proof fn lemma_close_last_of_two(
    room: RoomView,
    rest: Seq<ConnectionView>,
    cb: u32,
    session: SessionView,
    announcement_id: Seq<char>,
    timestamp: Seq<char>,
)
    requires
        room.wf(),
        room.users.contains_key(session.user_id),
        room.connections == rest.push(ConnectionView { id: cb, user_id: session.user_id }),
        forall|i: int| 0 <= i < rest.len() ==> (#[trigger] rest[i]).user_id != session.user_id,
    ensures
        ({
            let after = room.close(cb, session, announcement_id, timestamp);
            &&& after.room.users == room.users.remove(session.user_id)
            &&& after.room.connections == rest
            &&& after.room.messages == room.messages.push(
                system_message(
                    announcement_id,
                    session.room_id,
                    left_text(session.nickname),
                    timestamp,
                ),
            )
            &&& after.deliveries == after.room.broadcast(
                notice_payload(left_text(session.nickname)),
            )
        }),
{
    let n = rest.len() as int;
    room.lemma_remove_registered(cb, n);
}

/// Two connections of one user, and no other of that user, close one after
/// the other: the first to close changes neither the users nor the history
/// and sends nothing, the second takes the user out and is announced to
/// those that remain.
pub proof fn lemma_two_close_one_leaves(
    room: RoomView,
    rest: Seq<ConnectionView>,
    ca: u32,
    sa: SessionView,
    cb: u32,
    sb: SessionView,
    ids: Seq<Seq<char>>,
    times: Seq<Seq<char>>,
)
    requires
        room.wf(),
        ca != cb,
        sa.user_id == sb.user_id,
        room.users.contains_key(sa.user_id),
        room.connections == rest.push(ConnectionView { id: ca, user_id: sa.user_id }).push(
            ConnectionView { id: cb, user_id: sa.user_id },
        ) || room.connections == rest.push(ConnectionView { id: cb, user_id: sa.user_id }).push(
            ConnectionView { id: ca, user_id: sa.user_id },
        ),
        forall|i: int| 0 <= i < rest.len() ==> (#[trigger] rest[i]).user_id != sa.user_id,
        ids.len() == 2,
        times.len() == 2,
    ensures
        ({
            let three = room.close(ca, sa, ids[0], times[0]);
            let four = three.room.close(cb, sb, ids[1], times[1]);
            &&& three.room.users == room.users
            &&& three.room.messages == room.messages
            &&& three.deliveries == Seq::<DeliveryView>::empty()
            &&& four.room.users == room.users.remove(sa.user_id)
            &&& four.room.connections == rest
            &&& four.room.messages == room.messages.push(
                system_message(ids[1], sb.room_id, left_text(sb.nickname), times[1]),
            )
            &&& four.deliveries == four.room.broadcast(notice_payload(left_text(sb.nickname)))
        }),
{
    let kb = ConnectionView { id: cb, user_id: sa.user_id };
    let middle = RoomView { connections: rest.push(kb), ..room };
    lemma_close_first_of_two(room, rest, ca, cb, sa, ids[0], times[0]);
    assert(middle.wf()) by {
        let n = rest.len() as int;
        assert forall|i: int, j: int| 0 <= i < j < middle.connections.len() implies (
        #[trigger] middle.connections[i]).id != (#[trigger] middle.connections[j]).id by {
            if room.connections[n] == kb {
                assert(room.connections[i].id != room.connections[j].id);
            } else {
                if j < n {
                    assert(room.connections[i].id != room.connections[j].id);
                } else {
                    assert(room.connections[i].id != room.connections[n + 1].id);
                }
            }
        }
    }
    lemma_close_last_of_two(middle, rest, cb, sb, ids[1], times[1]);
}

/// Presence idempotence. Two connections open for one user in a room where
/// the user was not: the first brings the user in and is announced, the
/// second changes neither the users nor the history and gets the history
/// alone. Then both close, in either order: the first to close changes
/// neither the users nor the history and sends nothing, the second takes
/// the user out and is announced to those that remain.
pub proof fn lemma_presence_idempotence(
    room: RoomView,
    c1: u32,
    c2: u32,
    s1: SessionView,
    s2: SessionView,
    first_closes_first: bool,
    ids: Seq<Seq<char>>,
    times: Seq<Seq<char>>,
)
    requires
        room.wf(),
        room.presence_consistent(),
        !room.has_connection(c1),
        !room.has_connection(c2),
        c1 != c2,
        s1.user_id == s2.user_id,
        !room.users.contains_key(s1.user_id),
        ids.len() == 4,
        times.len() == 4,
    ensures
        ({
            let (ca, sa, cb, sb) = if first_closes_first {
                (c1, s1, c2, s2)
            } else {
                (c2, s2, c1, s1)
            };
            let one = room.open(c1, s1, ids[0], times[0]);
            let two = one.room.open(c2, s2, ids[1], times[1]);
            let three = two.room.close(ca, sa, ids[2], times[2]);
            let four = three.room.close(cb, sb, ids[3], times[3]);
            &&& one.room.users == room.users.insert(s1.user_id, user_of(s1))
            &&& one.room.messages == room.messages.push(
                system_message(ids[0], s1.room_id, joined_text(s1.nickname), times[0]),
            )
            &&& two.room.users == one.room.users
            &&& two.room.messages == one.room.messages
            &&& two.deliveries == one.room.replay(c2)
            &&& three.room.users == one.room.users
            &&& three.room.messages == one.room.messages
            &&& three.deliveries == Seq::<DeliveryView>::empty()
            &&& four.room.users == room.users
            &&& four.room.connections == room.connections
            &&& four.room.messages == one.room.messages.push(
                system_message(ids[3], sb.room_id, left_text(sb.nickname), times[3]),
            )
            &&& four.deliveries == room.broadcast(notice_payload(left_text(sb.nickname)))
        }),
{
    let (ca, sa, cb, sb) = if first_closes_first {
        (c1, s1, c2, s2)
    } else {
        (c2, s2, c1, s1)
    };
    let one = room.open(c1, s1, ids[0], times[0]);
    let two = one.room.open(c2, s2, ids[1], times[1]);
    lemma_two_close_one_leaves(
        two.room,
        room.connections,
        ca,
        sa,
        cb,
        sb,
        seq![ids[2], ids[3]],
        seq![times[2], times[3]],
    );
}

/// No room is ever lost: whatever the event, every room that was there is
/// still there.
pub proof fn lemma_rooms_are_kept(
    rooms: Map<Seq<char>, RoomView>,
    handler: HandlerView,
    path: Seq<char>,
    cookie_header: Option<Seq<char>>,
    content: Option<Seq<char>>,
    fallback_user_id: Seq<char>,
    message_id: Seq<char>,
    timestamp: Seq<char>,
    room_id: Seq<char>,
)
    requires
        rooms.contains_key(room_id),
    ensures
        opened(
            rooms,
            handler,
            path,
            cookie_header,
            fallback_user_id,
            message_id,
            timestamp,
        ).rooms.contains_key(room_id),
        received(rooms, handler, content, message_id, timestamp).rooms.contains_key(room_id),
        closed(rooms, handler, message_id, timestamp).rooms.contains_key(room_id),
{
}

/// Forgetting a connection twice is forgetting it once.
pub proof fn lemma_remove_connection_is_idempotent(room: RoomView, c: u32)
    ensures
        room.remove_connection(c).remove_connection(c) == room.remove_connection(c),
{
    let once = room.remove_connection(c);
    once.lemma_remove_unregistered(c);
}

} // verus!
