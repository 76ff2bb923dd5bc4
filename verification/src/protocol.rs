//! What a room does when a connection opens, speaks and closes.
//!
//! Each step is first a function on room values, then an operation on
//! [`RoomState`] that is proved to do exactly that. The identifier and the
//! timestamp of a message that a step may append are arguments: a step
//! decides nothing by chance.

use crate::message::{
    joined_notice, joined_text, left_notice, left_text, system_message, ChatMessage, MessageView,
    UserView,
};
use crate::room::{delivery_views, Delivery, DeliveryView, RoomState, RoomView};
use crate::session::{SessionView, UserSession};
use crate::wire::{encode_message, encode_notice, message_payload, notice_payload};
use vstd::prelude::*;

verus! {

/// The record of the user that `session` speaks for.
pub open spec fn user_of(session: SessionView) -> UserView {
    UserView { id: session.user_id, nickname: session.nickname, room_id: session.room_id }
}

/// What a step leaves behind: the room, and the deliveries to make, in the
/// order in which they are to be made.
pub struct RoomStep {
    pub room: RoomView,
    pub deliveries: Seq<DeliveryView>,
}

impl RoomView {
    /// Appends the announcement `message` and tells every connection of it.
    pub open spec fn announce(self, message: MessageView) -> RoomStep {
        let room = self.append_message(message);
        RoomStep { room, deliveries: room.broadcast(notice_payload(message.content)) }
    }

    /// Connection `c` opens for `session`: the connection is registered and
    /// gets the history; if the user was not in the room, it is now, and the
    /// room is told.
    pub open spec fn open(
        self,
        c: u32,
        session: SessionView,
        announcement_id: Seq<char>,
        timestamp: Seq<char>,
    ) -> RoomStep {
        let registered = self.add_connection(c, session.user_id);
        let history = registered.replay(c);
        if registered.users.contains_key(session.user_id) {
            RoomStep { room: registered, deliveries: history }
        } else {
            let told = registered.ensure_user_present(user_of(session)).announce(
                system_message(
                    announcement_id,
                    session.room_id,
                    joined_text(session.nickname),
                    timestamp,
                ),
            );
            RoomStep { room: told.room, deliveries: history + told.deliveries }
        }
    }

    /// A user message is appended and sent to every connection.
    pub open spec fn post(self, message: MessageView) -> RoomStep {
        let room = self.append_message(message);
        RoomStep { room, deliveries: room.broadcast(message_payload(message)) }
    }

    /// Whether closing connection `c` of user `user_id` takes the user out
    /// of the room: the user is there, and no other connection is its own.
    pub open spec fn last_connection(self, c: u32, user_id: Seq<char>) -> bool {
        let deregistered = self.remove_connection(c);
        deregistered.users.contains_key(user_id) && !deregistered.user_connected(user_id)
    }

    /// Connection `c` of `session` closes: the connection is forgotten; if
    /// it was the user's last, the user leaves, and the room is told.
    pub open spec fn close(
        self,
        c: u32,
        session: SessionView,
        announcement_id: Seq<char>,
        timestamp: Seq<char>,
    ) -> RoomStep {
        let deregistered = self.remove_connection(c);
        if self.last_connection(c, session.user_id) {
            deregistered.remove_user_if_no_connections(session.user_id).announce(
                system_message(
                    announcement_id,
                    session.room_id,
                    left_text(session.nickname),
                    timestamp,
                ),
            )
        } else {
            RoomStep { room: deregistered, deliveries: Seq::empty() }
        }
    }
}

impl RoomState {
    fn announce(&mut self, message: ChatMessage) -> (deliveries: Vec<Delivery>)
        requires
            old(self).wf(),
        ensures
            final(self).wf(),
            old(self)@.announce(message@) == (RoomStep {
                room: final(self)@,
                deliveries: delivery_views(deliveries@),
            }),
    {
        let frame = encode_notice(message.content.as_str());
        self.append_message(message);
        self.broadcast(frame.as_str())
    }

    /// Opens connection `connection_id` for `session`. The deliveries are
    /// the history, addressed to the new connection, and then, if the user
    /// has just come in, the announcement, addressed to every connection.
    pub fn open_connection(
        &mut self,
        connection_id: u32,
        session: &UserSession,
        announcement_id: String,
        timestamp: String,
    ) -> (deliveries: Vec<Delivery>)
        requires
            old(self).wf(),
        ensures
            final(self).wf(),
            old(self)@.open(connection_id, session@, announcement_id@, timestamp@) == (RoomStep {
                room: final(self)@,
                deliveries: delivery_views(deliveries@),
            }),
    {
        self.add_connection(connection_id, session.user_id.as_str());
        let mut deliveries = self.replay(connection_id);
        let created = self.ensure_user_present(
            session.user_id.as_str(),
            session.nickname.as_str(),
            session.room_id.as_str(),
        );
        if created {
            let text = joined_notice(session.nickname.as_str());
            let message = ChatMessage::system(
                announcement_id,
                session.room_id.as_str(),
                text,
                timestamp,
            );
            let ghost history = delivery_views(deliveries@);
            let mut fanout = self.announce(message);
            let ghost told = delivery_views(fanout@);
            deliveries.append(&mut fanout);
            assert(delivery_views(deliveries@) =~= history + told);
        }
        deliveries
    }

    /// Appends `message` and returns its frame for every connection.
    pub fn post_message(&mut self, message: ChatMessage) -> (deliveries: Vec<Delivery>)
        requires
            old(self).wf(),
        ensures
            final(self).wf(),
            old(self)@.post(message@) == (RoomStep {
                room: final(self)@,
                deliveries: delivery_views(deliveries@),
            }),
    {
        let frame = encode_message(&message);
        self.append_message(message);
        self.broadcast(frame.as_str())
    }

    /// Closes connection `connection_id` of `session`. There are deliveries
    /// only if the user left with it: the announcement, addressed to every
    /// connection that is still open.
    pub fn close_connection(
        &mut self,
        connection_id: u32,
        session: &UserSession,
        announcement_id: String,
        timestamp: String,
    ) -> (deliveries: Vec<Delivery>)
        requires
            old(self).wf(),
        ensures
            final(self).wf(),
            old(self)@.close(connection_id, session@, announcement_id@, timestamp@) == (RoomStep {
                room: final(self)@,
                deliveries: delivery_views(deliveries@),
            }),
    {
        self.remove_connection(connection_id);
        let removed = self.remove_user_if_no_connections(session.user_id.as_str());
        if removed {
            let text = left_notice(session.nickname.as_str());
            let message = ChatMessage::system(
                announcement_id,
                session.room_id.as_str(),
                text,
                timestamp,
            );
            self.announce(message)
        } else {
            let deliveries: Vec<Delivery> = Vec::new();
            assert(delivery_views(deliveries@) =~= Seq::empty());
            assert(self@ == old(self)@.remove_connection(connection_id)) by {
                let d = old(self)@.remove_connection(connection_id);
                if !d.user_connected(session@.user_id) {
                    assert(d.users.remove(session@.user_id) =~= d.users);
                }
            }
            deliveries
        }
    }
}

} // verus!
