//! All rooms of the relay, by identifier.

use crate::room::{RoomState, RoomView};
use vstd::prelude::*;

verus! {

/// The room filed under `room_id`, or the empty room if there is none yet.
pub open spec fn room_or_empty(rooms: Map<Seq<char>, RoomView>, room_id: Seq<char>) -> RoomView {
    if rooms.contains_key(room_id) {
        rooms[room_id]
    } else {
        RoomView::empty()
    }
}

struct RoomEntry {
    id: String,
    room: RoomState,
}

spec fn entry_index(rooms: Seq<RoomEntry>, k: Seq<char>) -> int {
    choose|i: int| 0 <= i < rooms.len() && (#[trigger] rooms[i]).id@ == k
}

spec fn rooms_map(rooms: Seq<RoomEntry>) -> Map<Seq<char>, RoomView> {
    Map::new(
        |k: Seq<char>| exists|i: int| 0 <= i < rooms.len() && (#[trigger] rooms[i]).id@ == k,
        |k: Seq<char>| rooms[entry_index(rooms, k)].room@,
    )
}

/// The registry of rooms. A room comes into being when its identifier is
/// first asked for, and stays for good.
pub struct ChatState {
    rooms: Vec<RoomEntry>,
}

impl View for ChatState {
    type V = Map<Seq<char>, RoomView>;

    closed spec fn view(&self) -> Map<Seq<char>, RoomView> {
        rooms_map(self.rooms@)
    }
}

impl ChatState {
    /// No identifier is filed twice, and every room is well formed.
    pub closed spec fn wf(&self) -> bool {
        &&& distinct_ids(self.rooms@)
        &&& forall|i: int| 0 <= i < self.rooms.len() ==> (#[trigger] self.rooms[i]).room.wf()
    }

    /// Every room of a well-formed registry has a well-formed value.
    pub proof fn lemma_view_wf(&self)
        requires
            self.wf(),
        ensures
            forall|k: Seq<char>| #[trigger] self@.contains_key(k) ==> self@[k].wf(),
    {
        assert forall|k: Seq<char>| #[trigger] self@.contains_key(k) implies self@[k].wf() by {
            let i = entry_index(self.rooms@, k);
            self.rooms@[i].room.lemma_view_wf();
        }
    }

    /// A registry without rooms.
    pub fn new() -> (state: ChatState)
        ensures
            state.wf(),
            state@ == Map::<Seq<char>, RoomView>::empty(),
    {
        let state = ChatState { rooms: Vec::new() };
        state
    }

    fn find_room(&self, room_id: &String) -> (found: Option<usize>)
        requires
            self.wf(),
        ensures
            match found {
                Some(i) => i < self.rooms.len() && self.rooms[i as int].id@ == room_id@
                    && self@.contains_key(room_id@) && self@[room_id@]
                    == self.rooms[i as int].room@,
                None => !self@.contains_key(room_id@),
            },
    {
        let mut i: usize = 0;
        while i < self.rooms.len()
            invariant
                i <= self.rooms.len(),
                self.wf(),
                forall|j: int| 0 <= j < i ==> (#[trigger] self.rooms[j]).id@ != room_id@,
            decreases self.rooms.len() - i,
        {
            if self.rooms[i].id == *room_id {
                return Some(i);
            }
            i += 1;
        }
        None
    }

    /// Tells whether a room is filed under `room_id`.
    pub fn has_room(&self, room_id: &str) -> (present: bool)
        requires
            self.wf(),
        ensures
            present == self@.contains_key(room_id@),
    {
        let key = room_id.to_owned();
        self.find_room(&key).is_some()
    }

    /// The room filed under `room_id`, if there is one.
    pub fn room(&self, room_id: &str) -> (found: Option<&RoomState>)
        requires
            self.wf(),
        ensures
            match found {
                Some(room) => self@.contains_key(room_id@) && room@ == self@[room_id@] && room.wf(),
                None => !self@.contains_key(room_id@),
            },
    {
        let key = room_id.to_owned();
        match self.find_room(&key) {
            Some(i) => Some(&self.rooms[i].room),
            None => None,
        }
    }

    /// The room filed under `room_id`, created empty if this is the first
    /// time the identifier is asked for. Whatever the caller then does to
    /// the room is what the registry holds under `room_id`; no other room
    /// changes.
    pub fn get_or_create_room(&mut self, room_id: &str) -> (room: &mut RoomState)
        requires
            old(self).wf(),
        ensures
            room.wf(),
            room@ == room_or_empty(old(self)@, room_id@),
            final(self)@ == old(self)@.insert(room_id@, final(room)@),
            final(room).wf() ==> final(self).wf(),
    {
        let key = room_id.to_owned();
        let idx: usize = match self.find_room(&key) {
            Some(i) => i,
            None => {
                self.rooms.push(RoomEntry { id: key, room: RoomState::new() });
                self.rooms.len() - 1
            },
        };
        let ghost now = self.rooms@;
        proof {
            assert(rooms_map(now) =~= old(self)@.insert(room_id@, now[idx as int].room@)) by {
                assert forall|k: Seq<char>| #[trigger] old(self)@.contains_key(k) implies rooms_map(
                    now,
                ).contains_key(k) by {
                    let j = entry_index(old(self).rooms@, k);
                    assert(now[j].id@ == k);
                }
            }
            assert forall|after: Seq<RoomEntry>|
                same_but_room(now, after, idx as int) implies #[trigger] rooms_map(after)
                == rooms_map(now).insert(room_id@, after[idx as int].room@) by {
                lemma_rooms_map_update(now, after, idx as int);
            }
        }
        &mut self.rooms[idx].room
    }
}

spec fn distinct_ids(rooms: Seq<RoomEntry>) -> bool {
    forall|i: int, j: int|
        0 <= i < j < rooms.len() ==> (#[trigger] rooms[i]).id@ != (#[trigger] rooms[j]).id@
}

/// `after` is `before` but for the room of the entry at `idx`.
spec fn same_but_room(before: Seq<RoomEntry>, after: Seq<RoomEntry>, idx: int) -> bool {
    &&& after.len() == before.len()
    &&& forall|j: int| 0 <= j < before.len() ==> (#[trigger] after[j]).id == before[j].id
    &&& forall|j: int|
        0 <= j < before.len() && j != idx ==> (#[trigger] after[j]).room == before[j].room
}

/// Replacing the room of one entry replaces what the registry holds under
/// that entry's identifier, and nothing else.
proof fn lemma_rooms_map_update(before: Seq<RoomEntry>, after: Seq<RoomEntry>, idx: int)
    requires
        0 <= idx < before.len(),
        distinct_ids(before),
        same_but_room(before, after, idx),
    ensures
        rooms_map(after) == rooms_map(before).insert(before[idx].id@, after[idx].room@),
        distinct_ids(after),
{
    let key = before[idx].id@;
    assert forall|k: Seq<char>| #[trigger]
        rooms_map(before).insert(key, after[idx].room@).contains_key(k) implies rooms_map(
        after,
    ).contains_key(k) by {
        if k != key {
            let j = entry_index(before, k);
            assert(after[j].id@ == k);
        }
    }
}

} // verus!
