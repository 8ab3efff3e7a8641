//! The store as records, for writing it out and reading it back.

use vstd::prelude::*;
use crate::model::{RoomView, Rooms};
use crate::store::{names, Store};

verus! {

/// One room as it is written out: its key, its version and its document.
#[derive(Debug, PartialEq, Eq)]
pub struct RoomRecord {
    pub room: String,
    pub version: u32,
    pub data: String,
}

/// Why a list of records was refused: the room of this key is at version 0,
/// which no room ever has.
#[derive(Debug, PartialEq, Eq)]
pub struct ZeroVersion {
    pub room: String,
}

impl Clone for RoomRecord {
    fn clone(&self) -> (copy: RoomRecord)
        ensures
            copy == *self,
    {
        RoomRecord { room: self.room.clone(), version: self.version, data: self.data.clone() }
    }
}

impl RoomRecord {
    /// What the record says of its room.
    pub open spec fn state(self) -> RoomView {
        RoomView { version: self.version as nat, data: self.data@ }
    }
}

/// The rooms that a list of records describes. Where a key has several
/// records, the last of them counts.
pub open spec fn restored(records: Seq<RoomRecord>) -> Rooms
    decreases records.len(),
{
    if records.len() == 0 {
        Map::empty()
    } else {
        restored(records.drop_last()).insert(records.last().room@, records.last().state())
    }
}

/// Whether no two records have the same key.
pub open spec fn distinct_rooms(records: Seq<RoomRecord>) -> bool {
    forall|i: int, j: int|
        0 <= i < j < records.len() ==> (#[trigger] records[i]).room@
            != (#[trigger] records[j]).room@
}

/// Whether records can be loaded: none of them is at version 0.
pub open spec fn loadable(records: Seq<RoomRecord>) -> bool {
    forall|i: int| 0 <= i < records.len() ==> (#[trigger] records[i]).version != 0
}

/// Whether record `i` is the first that is at version 0.
pub open spec fn first_zero(records: Seq<RoomRecord>, i: int) -> bool {
    &&& 0 <= i < records.len()
    &&& records[i].version == 0
    &&& forall|j: int| 0 <= j < i ==> (#[trigger] records[j]).version != 0
}

impl Store {
    /// The rooms of the store as records: one record for each room, with
    /// the room's key, version and document. The order of the records is
    /// left open.
    pub fn dump_state(&self) -> (records: Vec<RoomRecord>)
        requires
            self.wf(),
        ensures
            distinct_rooms(records@),
            restored(records@) == self@,
    {
        let mut records: Vec<RoomRecord> = Vec::new();
        let mut i: usize = 0;
        while i < self.keys.len()
            invariant
                self.wf(),
                0 <= i <= self.keys@.len(),
                records@.len() == i,
                forall|k: int| 0 <= k < i ==> (#[trigger] records@[k]).room@ == self.keys@[k]@,
                forall|k: int|
                    0 <= k < i ==> (#[trigger] records@[k]).state() == self.rooms@[self.keys@[k]@]@,
            decreases self.keys@.len() - i,
        {
            let key = &self.keys[i];
            assert(self.rooms@.contains_key(names(self.keys@)[i as int]));
            match self.rooms.get(key.as_str()) {
                Some(found) => {
                    records.push(
                        RoomRecord {
                            room: key.clone(),
                            version: found.version,
                            data: found.data.clone(),
                        },
                    );
                },
                None => {
                    assert(false);
                },
            }
            i = i + 1;
        }
        proof {
            self.lemma_dump(records@);
        }
        records
    }

    /// The store that a list of records describes.
    ///
    /// Every room gets a fresh wait handle. Where a key has several records,
    /// the last of them counts. A record at version 0 is refused, the first
    /// of them by name, since rooms start at version 1.
    pub fn load_state(records: Vec<RoomRecord>) -> (loaded: Result<Store, ZeroVersion>)
        ensures
            loaded is Ok <==> loadable(records@),
            match loaded {
                Ok(store) => store.wf() && store@ == restored(records@),
                Err(refused) => exists|i: int|
                    first_zero(records@, i) && refused.room@ == (#[trigger] records@[i]).room@,
            },
    {
        let mut store = Store::new();
        for record in it: records
            invariant
                store.wf(),
                store@ == restored(it.seq().take(it.index() as int)),
                forall|i: int| 0 <= i < it.index() ==> (#[trigger] it.seq()[i]).version != 0,
                it.seq() == records@,
        {
            proof {
                let done = it.seq().take(it.index() + 1);
                assert(done.drop_last() =~= it.seq().take(it.index() as int));
                assert(done.last() == record);
            }
            if record.version == 0 {
                return Err(ZeroVersion { room: record.room });
            }
            store.put(record.room, record.version, record.data);
        }
        assert(records@.take(records@.len() as int) =~= records@);
        Ok(store)
    }

    /// Records that list the rooms in the order of creation describe the
    /// store.
    proof fn lemma_dump(&self, records: Seq<RoomRecord>)
        requires
            self.wf(),
            records.len() == self.keys@.len(),
            forall|k: int|
                0 <= k < records.len() ==> (#[trigger] records[k]).room@ == self.keys@[k]@,
            forall|k: int|
                0 <= k < records.len() ==> (#[trigger] records[k]).state()
                    == self.rooms@[self.keys@[k]@]@,
        ensures
            distinct_rooms(records),
            restored(records) == self@,
    {
        let keys = names(self.keys@);
        assert forall|i: int, j: int| 0 <= i < j < records.len() implies (
        #[trigger] records[i]).room@ != (#[trigger] records[j]).room@ by {
            assert(keys[i] != keys[j]);
        }
        lemma_restored_distinct(records);
        lemma_restored_rooms(records);
        assert forall|key: Seq<char>| self@.contains_key(key) implies restored(
            records,
        ).contains_key(key) by {
            assert(keys.contains(key));
            let i = choose|i: int| 0 <= i < keys.len() && keys[i] == key;
            assert(records[i].room@ == key);
            assert(mentions(records, key));
        }
        assert forall|key: Seq<char>|
            restored(records).contains_key(key) implies self@.contains_key(key) && self@[key]
            == restored(records)[key] by {
            assert(mentions(records, key));
            let i = choose|i: int| 0 <= i < records.len() && (#[trigger] records[i]).room@ == key;
            assert(keys[i] == key);
        }
        assert(restored(records) =~= self@);
    }
}

/// Whether some record has the key.
pub open spec fn mentions(records: Seq<RoomRecord>, key: Seq<char>) -> bool {
    exists|i: int| 0 <= i < records.len() && (#[trigger] records[i]).room@ == key
}

/// The rooms that records describe are the rooms that the records mention.
pub proof fn lemma_restored_rooms(records: Seq<RoomRecord>)
    ensures
        forall|key: Seq<char>| #[trigger]
            restored(records).contains_key(key) <==> mentions(records, key),
    decreases records.len(),
{
    if records.len() > 0 {
        let front = records.drop_last();
        lemma_restored_rooms(front);
        assert forall|key: Seq<char>| #[trigger]
            restored(records).contains_key(key) implies mentions(records, key) by {
            if key == records.last().room@ {
                assert(records[records.len() - 1].room@ == key);
            } else {
                assert(restored(front).contains_key(key));
                let i = choose|i: int| 0 <= i < front.len() && (#[trigger] front[i]).room@ == key;
                assert(records[i].room@ == key);
            }
        }
        assert forall|key: Seq<char>| mentions(records, key) implies #[trigger] restored(
            records,
        ).contains_key(key) by {
            let i = choose|i: int| 0 <= i < records.len() && (#[trigger] records[i]).room@ == key;
            if i < front.len() {
                assert(front[i].room@ == key);
                assert(restored(front).contains_key(key));
            }
        }
    }
}

/// Records with distinct keys describe each of their rooms as its record
/// states it.
pub proof fn lemma_restored_distinct(records: Seq<RoomRecord>)
    requires
        distinct_rooms(records),
    ensures
        forall|i: int|
            0 <= i < records.len() ==> restored(records)[(#[trigger] records[i]).room@]
                == records[i].state(),
    decreases records.len(),
{
    if records.len() > 0 {
        let front = records.drop_last();
        assert forall|i: int, j: int| 0 <= i < j < front.len() implies (#[trigger] front[i]).room@
            != (#[trigger] front[j]).room@ by {
            assert(front[i] == records[i] && front[j] == records[j]);
        }
        lemma_restored_distinct(front);
        assert forall|i: int| 0 <= i < records.len() implies restored(records)[(
        #[trigger] records[i]).room@] == records[i].state() by {
            if i < front.len() {
                assert(front[i] == records[i]);
                assert(records[i].room@ != records[records.len() - 1].room@);
            }
        }
    }
}

} // verus!
