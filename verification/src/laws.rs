//! What holds of the store's operations taken together.

use vstd::prelude::*;
use crate::model::{
    accepted_at, accepted_count, after_changes, after_write, after_writes, created,
    last_written, poll, resumed, versions_valid, write_accepted, written, Change, Outcome,
    RoomView, Rooms, Wake, Write,
};
use crate::persist::{
    distinct_rooms, lemma_restored_distinct, lemma_restored_rooms, loadable, mentions, restored,
    RoomRecord,
};

verus! {

/// An accepted write raises the room's version by exactly one and leaves the
/// written document in the room; it touches no other room and adds none.
pub proof fn lemma_accepted_write(rooms: Rooms, room: Seq<char>, expected: nat, data: Seq<char>)
    requires
        write_accepted(rooms, room, expected),
    ensures
        after_write(rooms, room, expected, data)[room] == (RoomView {
            version: expected + 1,
            data,
        }),
        after_write(rooms, room, expected, data).dom() == rooms.dom(),
        forall|other: Seq<char>|
            other != room ==> after_write(rooms, room, expected, data)[other] == rooms[other],
{
    assert(after_write(rooms, room, expected, data).dom() =~= rooms.dom());
}

/// A write whose expected version is not the room's current version, or
/// whose room is unknown, is refused and leaves every room as it was.
pub proof fn lemma_stale_write(rooms: Rooms, room: Seq<char>, expected: nat, data: Seq<char>)
    requires
        !rooms.contains_key(room) || rooms[room].version != expected,
    ensures
        !write_accepted(rooms, room, expected),
        after_write(rooms, room, expected, data) == rooms,
{
}

/// The same write is not accepted twice: once it is in, the room has moved
/// past the version that the writer had seen.
pub proof fn lemma_write_once(rooms: Rooms, room: Seq<char>, expected: nat, data: Seq<char>)
    requires
        write_accepted(rooms, room, expected),
    ensures
        !write_accepted(written(rooms, room, data), room, expected),
{
}

/// In a run of writes on one room, each accepted write raises the version by
/// one and leaves its document, and each refused write changes nothing.
pub proof fn lemma_write_step(rooms: Rooms, room: Seq<char>, writes: Seq<Write>, k: int)
    requires
        0 <= k < writes.len(),
    ensures
        ({
            let before = after_writes(rooms, room, writes.take(k));
            let after = after_writes(rooms, room, writes.take(k + 1));
            if accepted_at(rooms, room, writes, k) {
                &&& after[room].version == before[room].version + 1
                &&& after[room].data == writes[k].data
            } else {
                after == before
            }
        }),
{
    assert(writes.take(k + 1).drop_last() =~= writes.take(k));
    assert(writes.take(k + 1).last() == writes[k]);
}

/// After a run of writes on a room, the room's version is the one it had
/// plus the number of accepted writes, and its document is the one that was
/// accepted last. The other rooms are as they were, and the store has the
/// same keys.
pub proof fn lemma_write_run(rooms: Rooms, room: Seq<char>, writes: Seq<Write>)
    requires
        rooms.contains_key(room),
    ensures
        after_writes(rooms, room, writes).dom() == rooms.dom(),
        after_writes(rooms, room, writes)[room].version == rooms[room].version + accepted_count(
            rooms,
            room,
            writes,
        ),
        after_writes(rooms, room, writes)[room].data == last_written(rooms, room, writes),
        forall|other: Seq<char>|
            other != room ==> after_writes(rooms, room, writes)[other] == rooms[other],
    decreases writes.len(),
{
    if writes.len() > 0 {
        let front = writes.drop_last();
        lemma_write_run(rooms, room, front);
        assert(writes.take(writes.len() - 1) =~= front);
        let before = after_writes(rooms, room, front);
        assert(after_writes(rooms, room, writes).dom() =~= before.dom());
    }
}

/// Through any run of writes and creations, a room that exists stays, and
/// its version never falls.
pub proof fn lemma_rooms_stay(rooms: Rooms, changes: Seq<Change>, key: Seq<char>)
    requires
        rooms.contains_key(key),
    ensures
        after_changes(rooms, changes).contains_key(key),
        after_changes(rooms, changes)[key].version >= rooms[key].version,
    decreases changes.len(),
{
    if changes.len() > 0 {
        lemma_rooms_stay(rooms, changes.drop_last(), key);
    }
}

/// Through any run of writes and creations, no room comes to be at
/// version 0.
pub proof fn lemma_versions_stay_valid(rooms: Rooms, changes: Seq<Change>)
    requires
        versions_valid(rooms),
    ensures
        versions_valid(after_changes(rooms, changes)),
    decreases changes.len(),
{
    if changes.len() > 0 {
        lemma_versions_stay_valid(rooms, changes.drop_last());
    }
}

/// A reader that knows another version than the room's current one gets the
/// room's current state at once, without waiting.
pub proof fn lemma_changed_room_answers(rooms: Rooms, room: Seq<char>, known: nat)
    requires
        rooms.contains_key(room),
        rooms[room].version != known,
    ensures
        poll(rooms, room, known) == Outcome::Changed(rooms[room]),
        resumed(rooms, room, known, Wake::Fired) == Outcome::Changed(rooms[room]),
{
}

/// A reader that asks with version 0 never waits on a room that exists.
pub proof fn lemma_version_zero_answers(rooms: Rooms, room: Seq<char>)
    requires
        versions_valid(rooms),
        rooms.contains_key(room),
    ensures
        poll(rooms, room, 0) == Outcome::Changed(rooms[room]),
{
}

/// A reader that knows the room's current version has to wait; when nothing
/// is written before its time runs out, it gets the time-out, neither the
/// room's state nor "not found".
pub proof fn lemma_unchanged_room_times_out(rooms: Rooms, room: Seq<char>, known: nat)
    requires
        rooms.contains_key(room),
        rooms[room].version == known,
    ensures
        poll(rooms, room, known) == Outcome::Unchanged,
        resumed(rooms, room, known, Wake::Expired) == Outcome::TimedOut,
{
}

/// A time-out changes nothing and tells nothing of the room: it comes
/// whatever the store holds.
pub proof fn lemma_time_out_always(rooms: Rooms, room: Seq<char>, known: nat)
    ensures
        resumed(rooms, room, known, Wake::Expired) == Outcome::TimedOut,
{
}

/// A reader that waits on a room and is woken by a write sees what that
/// write left: the version after the one it knew, and the written document.
pub proof fn lemma_woken_reader_sees_write(
    rooms: Rooms,
    room: Seq<char>,
    known: nat,
    expected: nat,
    data: Seq<char>,
)
    requires
        poll(rooms, room, known) == Outcome::Unchanged,
        write_accepted(rooms, room, expected),
    ensures
        expected == known,
        resumed(after_write(rooms, room, expected, data), room, known, Wake::Fired)
            == Outcome::Changed(RoomView { version: known + 1, data }),
{
}

/// A reader woken by a write to its room never has to wait again for the
/// same version, whatever was written to the room since.
pub proof fn lemma_woken_reader_answers(
    rooms: Rooms,
    room: Seq<char>,
    known: nat,
    writes: Seq<Write>,
)
    requires
        poll(rooms, room, known) == Outcome::Unchanged,
        accepted_count(rooms, room, writes) > 0,
    ensures
        resumed(after_writes(rooms, room, writes), room, known, Wake::Fired) == Outcome::Changed(
            after_writes(rooms, room, writes)[room],
        ),
{
    lemma_write_run(rooms, room, writes);
}

/// Two creations never give the same key: the key of the first is taken when
/// the second picks a free one, whatever was written or created in between.
pub proof fn lemma_created_keys_differ(
    rooms: Rooms,
    first: Seq<char>,
    first_data: Seq<char>,
    between: Seq<Change>,
    second: Seq<char>,
)
    requires
        !after_changes(created(rooms, first, first_data), between).contains_key(second),
    ensures
        second != first,
{
    lemma_rooms_stay(created(rooms, first, first_data), between, first);
}

/// A new room is at version 1, holds the document it was created with, and
/// leaves the rooms that were there as they were.
pub proof fn lemma_created_room(rooms: Rooms, key: Seq<char>, data: Seq<char>)
    requires
        !rooms.contains_key(key),
    ensures
        created(rooms, key, data)[key] == (RoomView { version: 1, data }),
        forall|other: Seq<char>|
            rooms.contains_key(other) ==> created(rooms, key, data)[other] == rooms[other],
        poll(created(rooms, key, data), key, 0) == Outcome::Changed(RoomView { version: 1, data }),
{
}

/// Records that were dumped from valid rooms can be loaded again, and
/// describe the rooms they were dumped from: the same keys, with the same
/// version and document each.
pub proof fn lemma_dump_then_load(rooms: Rooms, records: Seq<RoomRecord>)
    requires
        versions_valid(rooms),
        distinct_rooms(records),
        restored(records) == rooms,
    ensures
        loadable(records),
        forall|i: int|
            0 <= i < records.len() ==> rooms.contains_key((#[trigger] records[i]).room@)
                && rooms[records[i].room@] == records[i].state(),
        forall|key: Seq<char>| rooms.contains_key(key) ==> mentions(records, key),
{
    lemma_restored_distinct(records);
    lemma_restored_rooms(records);
    assert forall|i: int| 0 <= i < records.len() implies rooms.contains_key(
        (#[trigger] records[i]).room@,
    ) && rooms[records[i].room@] == records[i].state() && records[i].version != 0 by {
        assert(mentions(records, records[i].room@));
    }
}

} // verus!
