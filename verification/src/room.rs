//! One room: who is in it, what was said, and which connections are open.

use crate::message::{message_views, ChatMessage, MessageView, User, UserView};
use crate::wire::{encode_message, message_payload};
use vstd::prelude::*;

verus! {

/// A registered connection and the user that opened it.
pub struct ConnectionView {
    pub id: u32,
    pub user_id: Seq<char>,
}

/// A frame and the connection it is addressed to.
pub struct DeliveryView {
    pub connection_id: u32,
    pub payload: Seq<char>,
}

/// The mathematical value of a room: its users by identifier, its history in
/// the order of appending, and its connections in the order of registration.
pub struct RoomView {
    pub users: Map<Seq<char>, UserView>,
    pub messages: Seq<MessageView>,
    pub connections: Seq<ConnectionView>,
}

/// The test that keeps every connection but `c`.
pub open spec fn other_than(c: u32) -> spec_fn(ConnectionView) -> bool {
    |x: ConnectionView| x.id != c
}

impl RoomView {
    /// The room that nobody has entered yet.
    pub open spec fn empty() -> RoomView {
        RoomView { users: Map::empty(), messages: Seq::empty(), connections: Seq::empty() }
    }

    /// Every user is filed under its own identifier, and no connection is
    /// registered twice.
    pub open spec fn wf(self) -> bool {
        &&& forall|k: Seq<char>| #[trigger] self.users.contains_key(k) ==> self.users[k].id == k
        &&& forall|i: int, j: int|
            0 <= i < j < self.connections.len() ==> (#[trigger] self.connections[i]).id != (
            #[trigger] self.connections[j]).id
    }

    /// Whether connection `c` is registered.
    pub open spec fn has_connection(self, c: u32) -> bool {
        exists|i: int| 0 <= i < self.connections.len() && (#[trigger] self.connections[i]).id == c
    }

    /// Whether some registered connection belongs to user `user_id`.
    pub open spec fn user_connected(self, user_id: Seq<char>) -> bool {
        exists|i: int|
            0 <= i < self.connections.len() && (#[trigger] self.connections[i]).user_id == user_id
    }

    /// Presence: a user is in the room exactly while one of its connections
    /// is registered.
    pub open spec fn presence_consistent(self) -> bool {
        forall|k: Seq<char>| #[trigger] self.users.contains_key(k) <==> self.user_connected(k)
    }

    /// Registers connection `c` for `user_id`; a connection that is already
    /// registered stays as it is.
    pub open spec fn add_connection(self, c: u32, user_id: Seq<char>) -> RoomView {
        if self.has_connection(c) {
            self
        } else {
            RoomView {
                connections: self.connections.push(ConnectionView { id: c, user_id }),
                ..self
            }
        }
    }

    /// Forgets connection `c`; the others keep their order.
    pub open spec fn remove_connection(self, c: u32) -> RoomView {
        RoomView {
            connections: self.connections.filter(other_than(c)),
            ..self
        }
    }

    /// Adds `user` unless a user with that identifier is present.
    pub open spec fn ensure_user_present(self, user: UserView) -> RoomView {
        if self.users.contains_key(user.id) {
            self
        } else {
            RoomView { users: self.users.insert(user.id, user), ..self }
        }
    }

    /// Removes user `user_id` unless one of its connections is registered.
    pub open spec fn remove_user_if_no_connections(self, user_id: Seq<char>) -> RoomView {
        if self.user_connected(user_id) {
            self
        } else {
            RoomView { users: self.users.remove(user_id), ..self }
        }
    }

    /// Appends `message` to the history.
    pub open spec fn append_message(self, message: MessageView) -> RoomView {
        RoomView { messages: self.messages.push(message), ..self }
    }

    /// One delivery of `payload` to each registered connection, in the order
    /// of registration.
    pub open spec fn broadcast(self, payload: Seq<char>) -> Seq<DeliveryView> {
        self.connections.map_values(
            |x: ConnectionView| DeliveryView { connection_id: x.id, payload },
        )
    }

    /// The history as frames for connection `c`, oldest first.
    pub open spec fn replay(self, c: u32) -> Seq<DeliveryView> {
        self.messages.map_values(
            |m: MessageView| DeliveryView { connection_id: c, payload: message_payload(m) },
        )
    }

    /// Whether a user of this room goes by `nickname` in room `room_id`.
    pub open spec fn nickname_taken(self, nickname: Seq<char>, room_id: Seq<char>) -> bool {
        exists|k: Seq<char>|
            #[trigger] self.users.contains_key(k) && self.users[k].nickname == nickname
                && self.users[k].room_id == room_id
    }
}

/// A registered connection: the transport's number for it and its owner.
struct Connection {
    id: u32,
    user_id: String,
}

impl View for Connection {
    type V = ConnectionView;

    closed spec fn view(&self) -> ConnectionView {
        ConnectionView { id: self.id, user_id: self.user_id@ }
    }
}

/// A frame to send, with the connection to send it on.
#[derive(Debug, Clone)]
pub struct Delivery {
    pub connection_id: u32,
    pub payload: String,
}

impl View for Delivery {
    type V = DeliveryView;

    open spec fn view(&self) -> DeliveryView {
        DeliveryView { connection_id: self.connection_id, payload: self.payload@ }
    }
}

/// The views of a sequence of deliveries, in the same order.
pub open spec fn delivery_views(deliveries: Seq<Delivery>) -> Seq<DeliveryView> {
    deliveries.map_values(|d: Delivery| d@)
}

spec fn connection_views(connections: Seq<Connection>) -> Seq<ConnectionView> {
    connections.map_values(|x: Connection| x@)
}

spec fn user_index(users: Seq<User>, k: Seq<char>) -> int {
    choose|i: int| 0 <= i < users.len() && (#[trigger] users[i]).id@ == k
}

spec fn users_map(users: Seq<User>) -> Map<Seq<char>, UserView> {
    Map::new(
        |k: Seq<char>| exists|i: int| 0 <= i < users.len() && (#[trigger] users[i]).id@ == k,
        |k: Seq<char>| users[user_index(users, k)]@,
    )
}

spec fn distinct_users(users: Seq<User>) -> bool {
    forall|i: int, j: int|
        0 <= i < j < users.len() ==> (#[trigger] users[i]).id@ != (#[trigger] users[j]).id@
}

spec fn distinct_connections(connections: Seq<Connection>) -> bool {
    forall|i: int, j: int|
        0 <= i < j < connections.len() ==> (#[trigger] connections[i]).id != (
        #[trigger] connections[j]).id
}

/// The state of one room.
pub struct RoomState {
    users: Vec<User>,
    messages: Vec<ChatMessage>,
    connections: Vec<Connection>,
}

impl View for RoomState {
    type V = RoomView;

    closed spec fn view(&self) -> RoomView {
        RoomView {
            users: users_map(self.users@),
            messages: message_views(self.messages@),
            connections: connection_views(self.connections@),
        }
    }
}

impl RoomState {
    /// No user and no connection is held twice.
    pub closed spec fn wf(&self) -> bool {
        &&& distinct_users(self.users@)
        &&& distinct_connections(self.connections@)
    }

    /// A well-formed room has a well-formed value.
    pub proof fn lemma_view_wf(&self)
        requires
            self.wf(),
        ensures
            self@.wf(),
    {
    }

    /// A room without users, history or connections.
    pub fn new() -> (room: RoomState)
        ensures
            room.wf(),
            room@ == RoomView::empty(),
    {
        let room = RoomState { users: Vec::new(), messages: Vec::new(), connections: Vec::new() };
        assert(room@.users =~= Map::empty());
        assert(room@.messages =~= Seq::empty());
        assert(room@.connections =~= Seq::empty());
        room
    }

    fn find_connection(&self, connection_id: u32) -> (found: Option<usize>)
        ensures
            match found {
                Some(i) => i < self.connections.len() && self.connections[i as int].id
                    == connection_id,
                None => !self@.has_connection(connection_id),
            },
    {
        let mut i: usize = 0;
        while i < self.connections.len()
            invariant
                i <= self.connections.len(),
                forall|j: int| 0 <= j < i ==> (#[trigger] self.connections[j]).id != connection_id,
            decreases self.connections.len() - i,
        {
            if self.connections[i].id == connection_id {
                return Some(i);
            }
            i += 1;
        }
        None
    }

    /// Tells whether connection `connection_id` is registered.
    pub fn has_connection(&self, connection_id: u32) -> (found: bool)
        ensures
            found == self@.has_connection(connection_id),
    {
        match self.find_connection(connection_id) {
            Some(i) => {
                assert(self@.connections[i as int].id == connection_id);
                true
            },
            None => false,
        }
    }

    /// Registers a connection for `user_id`. Registering a connection a
    /// second time changes nothing.
    pub fn add_connection(&mut self, connection_id: u32, user_id: &str)
        requires
            old(self).wf(),
        ensures
            final(self).wf(),
            final(self)@ == old(self)@.add_connection(connection_id, user_id@),
    {
        match self.find_connection(connection_id) {
            None => {
                let ghost before = self.connections@;
                self.connections.push(
                    Connection { id: connection_id, user_id: user_id.to_owned() },
                );
                assert(connection_views(self.connections@) =~= connection_views(before).push(
                    ConnectionView { id: connection_id, user_id: user_id@ },
                ));
                assert forall|j: int| 0 <= j < before.len() implies (#[trigger] before[j]).id
                    != connection_id by {
                    assert(old(self)@.connections[j].id == before[j].id);
                }
            },
            Some(i) => {
                assert(self@.connections[i as int].id == connection_id);
            },
        }
    }

    /// Forgets a connection. Forgetting one that is not registered changes
    /// nothing.
    pub fn remove_connection(&mut self, connection_id: u32)
        requires
            old(self).wf(),
        ensures
            final(self).wf(),
            final(self)@ == old(self)@.remove_connection(connection_id),
    {
        let ghost before = self.connections@;
        match self.find_connection(connection_id) {
            Some(i) => {
                self.connections.remove(i);
                proof {
                    lemma_filter_drops_one(connection_views(before), connection_id, i as int);
                    assert(connection_views(self.connections@) =~= connection_views(before).remove(
                        i as int,
                    ));
                }
            },
            None => {
                proof {
                    let views = connection_views(before);
                    assert forall|j: int| 0 <= j < views.len() implies (#[trigger] views[j]).id
                        != connection_id by {
                        assert(old(self)@.connections[j].id != connection_id);
                    }
                    lemma_filter_keeps_all(connection_views(before), connection_id);
                }
            },
        }
    }

    fn find_user(&self, user_id: &String) -> (found: Option<usize>)
        ensures
            match found {
                Some(i) => i < self.users.len() && self.users[i as int].id@ == user_id@,
                None => !self@.users.contains_key(user_id@),
            },
    {
        let mut i: usize = 0;
        while i < self.users.len()
            invariant
                i <= self.users.len(),
                forall|j: int| 0 <= j < i ==> (#[trigger] self.users[j]).id@ != user_id@,
            decreases self.users.len() - i,
        {
            if self.users[i].id == *user_id {
                return Some(i);
            }
            i += 1;
        }
        None
    }

    /// Tells whether user `user_id` is in the room.
    pub fn has_user(&self, user_id: &str) -> (present: bool)
        ensures
            present == self@.users.contains_key(user_id@),
    {
        let key = user_id.to_owned();
        self.find_user(&key).is_some()
    }

    /// The nickname under which user `user_id` is in the room.
    pub fn nickname_of(&self, user_id: &str) -> (nickname: Option<String>)
        requires
            self.wf(),
        ensures
            match nickname {
                Some(n) => self@.users.contains_key(user_id@) && n@
                    == self@.users[user_id@].nickname,
                None => !self@.users.contains_key(user_id@),
            },
    {
        let key = user_id.to_owned();
        match self.find_user(&key) {
            Some(i) => {
                Some(self.users[i].nickname.clone())
            },
            None => None,
        }
    }

    /// Makes sure that user `user_id` is in the room, and tells whether this
    /// call put it there. A user that is present keeps its record.
    pub fn ensure_user_present(
        &mut self,
        user_id: &str,
        nickname: &str,
        room_id: &str,
    ) -> (created: bool)
        requires
            old(self).wf(),
        ensures
            final(self).wf(),
            created == !old(self)@.users.contains_key(user_id@),
            final(self)@ == old(self)@.ensure_user_present(
                UserView { id: user_id@, nickname: nickname@, room_id: room_id@ },
            ),
    {
        let key = user_id.to_owned();
        match self.find_user(&key) {
            Some(_) => false,
            None => {
                let ghost before = self.users@;
                let user = User {
                    id: key,
                    nickname: nickname.to_owned(),
                    room_id: room_id.to_owned(),
                };
                self.users.push(user);
                proof {
                    let after = self.users@;
                    let last = before.len() as int;
                    assert(after[last].id@ == user_id@);
                    assert forall|k: Seq<char>|
                        users_map(before).insert(user_id@, user@).contains_key(
                            k,
                        ) implies #[trigger] users_map(after).contains_key(k) by {
                        if k != user_id@ {
                            let j = user_index(before, k);
                            assert(after[j].id@ == k);
                        }
                    }
                    assert(users_map(after) =~= users_map(before).insert(user_id@, user@));
                }
                true
            },
        }
    }

    fn user_connected(&self, user_id: &String) -> (connected: bool)
        ensures
            connected == self@.user_connected(user_id@),
    {
        let mut i: usize = 0;
        while i < self.connections.len()
            invariant
                i <= self.connections.len(),
                forall|j: int| 0 <= j < i ==> (#[trigger] self.connections[j]).user_id@ != user_id@,
            decreases self.connections.len() - i,
        {
            if self.connections[i].user_id == *user_id {
                assert(self@.connections[i as int].user_id == user_id@);
                return true;
            }
            i += 1;
        }
        false
    }

    /// Removes user `user_id` if none of the registered connections belongs
    /// to it, and tells whether a user was removed.
    pub fn remove_user_if_no_connections(&mut self, user_id: &str) -> (removed: bool)
        requires
            old(self).wf(),
        ensures
            final(self).wf(),
            removed == (old(self)@.users.contains_key(user_id@) && !old(self)@.user_connected(
                user_id@,
            )),
            final(self)@ == old(self)@.remove_user_if_no_connections(user_id@),
    {
        let key = user_id.to_owned();
        if self.user_connected(&key) {
            return false;
        }
        match self.find_user(&key) {
            None => {
                assert(self@.users.remove(user_id@) =~= self@.users);
                false
            },
            Some(i) => {
                let ghost before = self.users@;
                self.users.remove(i);
                proof {
                    let after = self.users@;
                    assert forall|k: Seq<char>| #[trigger]
                        users_map(before).remove(user_id@).contains_key(k) implies users_map(
                        after,
                    ).contains_key(k) by {
                        let j = user_index(before, k);
                        if j < i {
                            assert(after[j].id@ == k);
                        } else {
                            assert(after[j - 1].id@ == k);
                        }
                    }
                    assert(users_map(after) =~= users_map(before).remove(user_id@));
                }
                true
            },
        }
    }

    /// Appends `message` to the history. Earlier messages keep their place.
    pub fn append_message(&mut self, message: ChatMessage)
        requires
            old(self).wf(),
        ensures
            final(self).wf(),
            final(self)@ == old(self)@.append_message(message@),
    {
        let ghost before = self.messages@;
        self.messages.push(message);
        assert(message_views(self.messages@) =~= message_views(before).push(message@));
    }

    /// The deliveries that carry `payload` to every registered connection.
    pub fn broadcast(&self, payload: &str) -> (deliveries: Vec<Delivery>)
        ensures
            delivery_views(deliveries@) == self@.broadcast(payload@),
    {
        let mut deliveries: Vec<Delivery> = Vec::new();
        let mut i: usize = 0;
        while i < self.connections.len()
            invariant
                i <= self.connections.len(),
                deliveries.len() == i,
                forall|j: int|
                    0 <= j < i ==> (#[trigger] deliveries[j])@ == (DeliveryView {
                        connection_id: self.connections[j].id,
                        payload: payload@,
                    }),
            decreases self.connections.len() - i,
        {
            deliveries.push(
                Delivery { connection_id: self.connections[i].id, payload: payload.to_owned() },
            );
            i += 1;
        }
        deliveries
    }

    /// A copy of the history, oldest message first.
    pub fn history_snapshot(&self) -> (history: Vec<ChatMessage>)
        ensures
            message_views(history@) == self@.messages,
    {
        let mut history: Vec<ChatMessage> = Vec::new();
        let mut i: usize = 0;
        while i < self.messages.len()
            invariant
                i <= self.messages.len(),
                history.len() == i,
                forall|j: int| 0 <= j < i ==> (#[trigger] history[j])@ == self.messages[j]@,
            decreases self.messages.len() - i,
        {
            history.push(self.messages[i].duplicate());
            i += 1;
        }
        history
    }

    /// The history as frames addressed to `connection_id`, oldest first.
    pub fn replay(&self, connection_id: u32) -> (deliveries: Vec<Delivery>)
        ensures
            delivery_views(deliveries@) == self@.replay(connection_id),
    {
        let mut deliveries: Vec<Delivery> = Vec::new();
        let mut i: usize = 0;
        while i < self.messages.len()
            invariant
                i <= self.messages.len(),
                deliveries.len() == i,
                forall|j: int|
                    0 <= j < i ==> (#[trigger] deliveries[j])@ == (DeliveryView {
                        connection_id,
                        payload: message_payload(self.messages[j]@),
                    }),
            decreases self.messages.len() - i,
        {
            deliveries.push(
                Delivery { connection_id, payload: encode_message(&self.messages[i]) },
            );
            i += 1;
        }
        deliveries
    }

    /// The number of users in the room.
    pub fn user_count(&self) -> (count: usize)
        requires
            self.wf(),
        ensures
            self@.users.dom().finite(),
            count == self@.users.len(),
    {
        proof {
            lemma_users_map_len(self.users@);
        }
        self.users.len()
    }

    /// The number of messages in the history.
    pub fn message_count(&self) -> (count: usize)
        ensures
            count == self@.messages.len(),
    {
        self.messages.len()
    }

    /// The number of registered connections.
    pub fn connection_count(&self) -> (count: usize)
        ensures
            count == self@.connections.len(),
    {
        self.connections.len()
    }

    /// The user for whom connection `connection_id` is registered.
    pub fn owner_of(&self, connection_id: u32) -> (owner: Option<String>)
        ensures
            match owner {
                Some(user_id) => exists|i: int|
                    0 <= i < self@.connections.len() && #[trigger] self@.connections[i] == (
                    ConnectionView { id: connection_id, user_id: user_id@ }),
                None => !self@.has_connection(connection_id),
            },
    {
        match self.find_connection(connection_id) {
            Some(i) => {
                let user_id = self.connections[i].user_id.clone();
                assert(self@.connections[i as int] == (ConnectionView {
                    id: connection_id,
                    user_id: user_id@,
                }));
                Some(user_id)
            },
            None => None,
        }
    }

    /// Tells whether some user of the room has this nickname and room
    /// identifier.
    pub fn nickname_taken(&self, nickname: &str, room_id: &str) -> (taken: bool)
        requires
            self.wf(),
        ensures
            taken == self@.nickname_taken(nickname@, room_id@),
    {
        let wanted = nickname.to_owned();
        let room = room_id.to_owned();
        let mut i: usize = 0;
        while i < self.users.len()
            invariant
                i <= self.users.len(),
                wanted@ == nickname@,
                room@ == room_id@,
                self.wf(),
                forall|j: int|
                    0 <= j < i ==> !((#[trigger] self.users[j]).nickname@ == nickname@
                        && self.users[j].room_id@ == room_id@),
            decreases self.users.len() - i,
        {
            if self.users[i].nickname == wanted && self.users[i].room_id == room {
                proof {
                    let k = self.users[i as int].id@;
                    assert(self@.users.contains_key(k));
                }
                return true;
            }
            i += 1;
        }
        false
    }
}

/// Distinct users are as many as their identifiers.
proof fn lemma_users_map_len(users: Seq<User>)
    requires
        distinct_users(users),
    ensures
        users_map(users).dom().finite(),
        users_map(users).dom().len() == users.len(),
    decreases users.len(),
{
    if users.len() == 0 {
        assert(users_map(users).dom() =~= Set::empty());
    } else {
        let front = users.drop_last();
        let last = users.last();
        let n = front.len() as int;
        lemma_users_map_len(front);
        assert forall|k: Seq<char>| #[trigger]
            users_map(users).dom().contains(k) implies users_map(front).dom().insert(
            last.id@,
        ).contains(k) by {
            let i = user_index(users, k);
            if i < n {
                assert(front[i].id@ == k);
            }
        }
        assert(users_map(users).dom() =~= users_map(front).dom().insert(last.id@));
    }
}

/// Filtering out a connection that is not there changes nothing.
proof fn lemma_filter_keeps_all(s: Seq<ConnectionView>, c: u32)
    requires
        forall|j: int| 0 <= j < s.len() ==> (#[trigger] s[j]).id != c,
    ensures
        s.filter(other_than(c)) == s,
    decreases s.len(),
{
    reveal(Seq::filter);
    if s.len() > 0 {
        lemma_filter_keeps_all(s.drop_last(), c);
    }
}

/// Filtering out the one connection `c`, registered at `i`, removes the
/// element at `i`.
proof fn lemma_filter_drops_one(s: Seq<ConnectionView>, c: u32, i: int)
    requires
        0 <= i < s.len(),
        s[i].id == c,
        forall|a: int, b: int|
            0 <= a < b < s.len() ==> (#[trigger] s[a]).id != (#[trigger] s[b]).id,
    ensures
        s.filter(other_than(c)) == s.remove(i),
    decreases s.len(),
{
    reveal(Seq::filter);
    let front = s.drop_last();
    if i == s.len() - 1 {
        lemma_filter_keeps_all(front, c);
    } else {
        lemma_filter_drops_one(front, c, i);
    }
}

impl RoomView {
    /// Forgetting the connection registered at `i` takes the element at `i`
    /// out of the sequence.
    pub proof fn lemma_remove_registered(self, c: u32, i: int)
        requires
            self.wf(),
            0 <= i < self.connections.len(),
            self.connections[i].id == c,
        ensures
            self.remove_connection(c).connections == self.connections.remove(i),
    {
        lemma_filter_drops_one(self.connections, c, i);
    }

    /// Forgetting a connection that is not registered changes nothing.
    pub proof fn lemma_remove_unregistered(self, c: u32)
        requires
            !self.has_connection(c),
        ensures
            self.remove_connection(c) == self,
    {
        lemma_filter_keeps_all(self.connections, c);
    }
}

} // verus!
