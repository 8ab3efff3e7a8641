//! The store as contracts see it: a map from room keys to versioned documents,
//! and what each operation makes of that map.

use vstd::prelude::*;

verus! {

/// What a room holds: the version counter and the text of its document.
pub struct RoomView {
    pub version: nat,
    pub data: Seq<char>,
}

/// The rooms of a store, by key.
pub type Rooms = Map<Seq<char>, RoomView>;

/// What a reader's version check yields.
pub enum Outcome {
    /// The store has no room of that key.
    NotFound,
    /// The room differs from what the reader knows; this is its current state.
    Changed(RoomView),
    /// The room is at the version the reader knows: the reader has to wait.
    Unchanged,
    /// The reader's wait ran out of time.
    TimedOut,
}

/// How a reader's wait ended.
#[derive(Clone, Copy, Debug, PartialEq, Eq)]
pub enum Wake {
    /// The room's signal fired.
    Fired,
    /// The time allowed for the wait ran out first.
    Expired,
}

/// No room is at version 0.
pub open spec fn versions_valid(rooms: Rooms) -> bool {
    forall|room: Seq<char>| #[trigger] rooms.contains_key(room) ==> rooms[room].version >= 1
}

/// A write is accepted when the room exists and is at the version the writer
/// last saw.
pub open spec fn write_accepted(rooms: Rooms, room: Seq<char>, expected: nat) -> bool {
    rooms.contains_key(room) && rooms[room].version == expected
}

/// The rooms after an accepted write: the document is replaced and the
/// version goes up by one.
pub open spec fn written(rooms: Rooms, room: Seq<char>, data: Seq<char>) -> Rooms {
    rooms.insert(room, RoomView { version: rooms[room].version + 1, data })
}

/// The rooms after a write attempt, accepted or not.
pub open spec fn after_write(
    rooms: Rooms,
    room: Seq<char>,
    expected: nat,
    data: Seq<char>,
) -> Rooms {
    if write_accepted(rooms, room, expected) {
        written(rooms, room, data)
    } else {
        rooms
    }
}

/// The rooms after a room was created under a key.
pub open spec fn created(rooms: Rooms, key: Seq<char>, data: Seq<char>) -> Rooms {
    rooms.insert(key, RoomView { version: 1, data })
}

/// The version check of a reader that knows version `known` of a room.
pub open spec fn poll(rooms: Rooms, room: Seq<char>, known: nat) -> Outcome {
    if !rooms.contains_key(room) {
        Outcome::NotFound
    } else if rooms[room].version != known {
        Outcome::Changed(rooms[room])
    } else {
        Outcome::Unchanged
    }
}

/// What a waiting reader does next: it gives up when its time ran out, and
/// checks the room again when the signal woke it.
pub open spec fn resumed(rooms: Rooms, room: Seq<char>, known: nat, wake: Wake) -> Outcome {
    match wake {
        Wake::Expired => Outcome::TimedOut,
        Wake::Fired => poll(rooms, room, known),
    }
}

/// One write attempt: the version the writer has seen, and the new document.
pub struct Write {
    pub expected: nat,
    pub data: Seq<char>,
}

/// The rooms after a run of write attempts on one room, made one after
/// another.
pub open spec fn after_writes(rooms: Rooms, room: Seq<char>, writes: Seq<Write>) -> Rooms
    decreases writes.len(),
{
    if writes.len() == 0 {
        rooms
    } else {
        after_write(
            after_writes(rooms, room, writes.drop_last()),
            room,
            writes.last().expected,
            writes.last().data,
        )
    }
}

/// Whether write `k` of a run was accepted when its turn came.
pub open spec fn accepted_at(rooms: Rooms, room: Seq<char>, writes: Seq<Write>, k: int) -> bool {
    write_accepted(after_writes(rooms, room, writes.take(k)), room, writes[k].expected)
}

/// How many writes of a run were accepted.
pub open spec fn accepted_count(rooms: Rooms, room: Seq<char>, writes: Seq<Write>) -> nat
    decreases writes.len(),
{
    if writes.len() == 0 {
        0
    } else {
        let before = accepted_count(rooms, room, writes.drop_last());
        if accepted_at(rooms, room, writes, writes.len() - 1) {
            before + 1
        } else {
            before
        }
    }
}

/// The document of the room after a run of writes: that of the last write
/// that was accepted, or the one the room had where none was.
pub open spec fn last_written(rooms: Rooms, room: Seq<char>, writes: Seq<Write>) -> Seq<char>
    decreases writes.len(),
{
    if writes.len() == 0 {
        rooms[room].data
    } else if accepted_at(rooms, room, writes, writes.len() - 1) {
        writes.last().data
    } else {
        last_written(rooms, room, writes.drop_last())
    }
}

/// One change that a client asks of the store.
pub enum Change {
    /// A write attempt on a room.
    Write { room: Seq<char>, expected: nat, data: Seq<char> },
    /// The creation of a room under a key, which happens only if the key is
    /// free.
    Create { key: Seq<char>, data: Seq<char> },
}

/// The rooms after one change.
pub open spec fn after_change(rooms: Rooms, change: Change) -> Rooms {
    match change {
        Change::Write { room, expected, data } => after_write(rooms, room, expected, data),
        Change::Create { key, data } => if rooms.contains_key(key) {
            rooms
        } else {
            created(rooms, key, data)
        },
    }
}

/// The rooms after a run of changes, made one after another.
pub open spec fn after_changes(rooms: Rooms, changes: Seq<Change>) -> Rooms
    decreases changes.len(),
{
    if changes.len() == 0 {
        rooms
    } else {
        after_change(after_changes(rooms, changes.drop_last()), changes.last())
    }
}

} // verus!
