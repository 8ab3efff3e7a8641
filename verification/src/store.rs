//! The room store: version checks for readers, conditional writes, and the
//! creation of rooms.

use vstd::prelude::*;
use vstd::hash_map::StringHashMap;
use crate::event::{fire, new_event, share, WaitHandle};
use crate::model::{
    after_write, created, poll, resumed, versions_valid, write_accepted, Outcome, RoomView, Rooms,
    Wake,
};
use crate::names::{draw_word, is_room_key, key_of, key_taken, room_key};

verus! {

/// One room: its version, its document and the signal of its next write.
pub(crate) struct Room {
    pub(crate) version: u32,
    pub(crate) data: String,
    pub(crate) event: WaitHandle,
}

impl View for Room {
    type V = RoomView;

    open(crate) spec fn view(&self) -> RoomView {
        RoomView { version: self.version as nat, data: self.data@ }
    }
}

/// The rooms of one process, by key.
pub struct Store {
    pub(crate) rooms: StringHashMap<Room>,
    /// Every key of `rooms`, once, in the order of creation.
    pub(crate) keys: Vec<String>,
}

/// The current state of a room, as a reader gets it.
#[derive(Clone, Copy, Debug, PartialEq, Eq)]
pub struct ListReply<'a> {
    pub version: u32,
    pub data: &'a str,
}

/// What a reader does after a version check.
pub enum ListStep<'a> {
    /// The room is unknown.
    NotFound,
    /// The room has changed: here is its state.
    Reply(ListReply<'a>),
    /// The room has not changed: wait on this handle, then `resume`.
    Wait(WaitHandle),
    /// The wait ran out of time; the reader may ask again.
    TimedOut,
}

impl<'a> ListStep<'a> {
    /// The step without its handle.
    pub open spec fn outcome(self) -> Outcome {
        match self {
            ListStep::NotFound => Outcome::NotFound,
            ListStep::Reply(reply) => Outcome::Changed(
                RoomView { version: reply.version as nat, data: reply.data@ },
            ),
            ListStep::Wait(_) => Outcome::Unchanged,
            ListStep::TimedOut => Outcome::TimedOut,
        }
    }
}

/// The texts of a list of keys.
pub(crate) open spec fn names(keys: Seq<String>) -> Seq<Seq<char>> {
    Seq::new(keys.len(), |i: int| keys[i]@)
}

impl View for Store {
    type V = Rooms;

    open(crate) spec fn view(&self) -> Rooms {
        Map::new(|key: Seq<char>| self.rooms@.contains_key(key), |key: Seq<char>| self.rooms@[key]@)
    }
}

impl Default for Store {
    fn default() -> (store: Store)
        ensures
            store.wf(),
            store@ == Map::<Seq<char>, RoomView>::empty(),
    {
        Store::new()
    }
}

impl Store {
    /// The store's invariant: the creation order lists exactly the keys of
    /// the rooms, each once, and no room is at version 0.
    pub open(crate) spec fn wf(&self) -> bool {
        &&& names(self.keys@).no_duplicates()
        &&& forall|i: int|
            0 <= i < self.keys@.len() ==> self.rooms@.contains_key(
                #[trigger] names(self.keys@)[i],
            )
        &&& forall|key: Seq<char>| #[trigger]
            self.rooms@.contains_key(key) ==> names(self.keys@).contains(key)
        &&& forall|key: Seq<char>| #[trigger]
            self.rooms@.contains_key(key) ==> self.rooms@[key].version >= 1
    }

    /// The handle on which the readers of a room currently wait.
    pub closed spec fn event_of(&self, room: Seq<char>) -> WaitHandle {
        self.rooms@[room].event
    }

    /// In a well-formed store no room is at version 0.
    pub proof fn lemma_versions_valid(&self)
        requires
            self.wf(),
        ensures
            versions_valid(self@),
    {
    }

    /// A store without rooms.
    pub fn new() -> (store: Store)
        ensures
            store.wf(),
            store@ == Map::<Seq<char>, RoomView>::empty(),
    {
        let store = Store { rooms: StringHashMap::new(), keys: Vec::new() };
        assert(store@ =~= Map::<Seq<char>, RoomView>::empty());
        store
    }

    /// Checks a room against the version a reader knows.
    ///
    /// An unknown room gives `NotFound`. A room at another version gives its
    /// current state at once. A room at the known version gives the handle of
    /// its next write, for the reader to wait on.
    pub fn list<'a>(&'a self, room: &str, version: u32) -> (step: ListStep<'a>)
        ensures
            step.outcome() == poll(self@, room@, version as nat),
            step matches ListStep::Wait(event) ==> event == self.event_of(room@),
    {
        match self.rooms.get(room) {
            None => ListStep::NotFound,
            Some(found) => {
                if found.version != version {
                    ListStep::Reply(ListReply { version: found.version, data: found.data.as_str() })
                } else {
                    ListStep::Wait(share(&found.event))
                }
            },
        }
    }

    /// Goes on after a wait: a reader whose time ran out gets `TimedOut`, a
    /// reader that was woken checks the room again.
    pub fn resume<'a>(&'a self, room: &str, version: u32, wake: Wake) -> (step: ListStep<'a>)
        ensures
            step.outcome() == resumed(self@, room@, version as nat, wake),
            step matches ListStep::Wait(event) ==> event == self.event_of(room@),
    {
        match wake {
            Wake::Expired => ListStep::TimedOut,
            Wake::Fired => self.list(room, version),
        }
    }

    /// Writes a document to a room, if the writer has seen the room's current
    /// version.
    ///
    /// The write is accepted when the room exists and is at version
    /// `version`: the document is replaced, the version goes up by one, the
    /// readers waiting on the room are woken, and the room gets a fresh
    /// handle. Otherwise the store stays as it is.
    ///
    /// The version counter has 32 bits. The caller rules out a write that
    /// would be accepted at the largest version, for which there is no next
    /// version; `version_of` tells where a room stands.
    pub fn commit(&mut self, room: &str, version: u32, data: String) -> (success: bool)
        requires
            old(self).wf(),
            write_accepted(old(self)@, room@, version as nat) ==> version < u32::MAX,
        ensures
            final(self).wf(),
            success == write_accepted(old(self)@, room@, version as nat),
            final(self)@ == after_write(old(self)@, room@, version as nat, data@),
            forall|other: Seq<char>|
                !success || other != room@ ==> final(self).event_of(other) == old(self).event_of(
                    other,
                ),
    {
        match self.rooms.get(room) {
            None => {
                return false;
            },
            Some(found) => {
                if found.version != version {
                    return false;
                }
                fire(&found.event);
            },
        }
        let next = Room { version: version + 1, data, event: new_event() };
        self.rooms.insert(room.to_owned(), next);
        assert(self@ =~= after_write(old(self)@, room@, version as nat, data@));
        true
    }

    /// Creates a room under the key that two words make, unless that key is
    /// taken.
    ///
    /// A free key gets a room at version 1 with the document `data`, and is
    /// returned. On a taken key the store stays as it is and the document
    /// comes back.
    pub fn create_named(&mut self, first: &str, second: &str, data: String) -> (made: Result<
        String,
        String,
    >)
        requires
            old(self).wf(),
        ensures
            final(self).wf(),
            match made {
                Ok(key) => {
                    &&& key@ == key_of(first@, second@)
                    &&& !old(self)@.contains_key(key@)
                    &&& final(self)@ == created(old(self)@, key@, data@)
                },
                Err(back) => {
                    &&& back@ == data@
                    &&& old(self)@.contains_key(key_of(first@, second@))
                    &&& final(self)@ == old(self)@
                },
            },
            forall|other: Seq<char>|
                old(self)@.contains_key(other) ==> final(self).event_of(other) == old(
                    self,
                ).event_of(other),
    {
        let key = room_key(first, second);
        if self.rooms.contains_key(key.as_str()) {
            return Err(data);
        }
        self.put(key.clone(), 1, data);
        Ok(key)
    }

    /// Creates a room under a key that no room has, made of two words drawn
    /// at random from `words`.
    ///
    /// A draw that gives a taken key is made again, `attempts` draws at most.
    /// The key of the new room is returned. When no draw gave a free key the
    /// store stays as it is and the document comes back: the caller may try
    /// again. The first draw succeeds wherever no key of the list is taken.
    pub fn make_room(&mut self, words: &[&str], data: String, attempts: u32) -> (made: Result<
        String,
        String,
    >)
        requires
            old(self).wf(),
        ensures
            final(self).wf(),
            match made {
                Ok(key) => {
                    &&& is_room_key(words@, key@)
                    &&& !old(self)@.contains_key(key@)
                    &&& final(self)@ == created(old(self)@, key@, data@)
                },
                Err(back) => {
                    &&& back@ == data@
                    &&& final(self)@ == old(self)@
                },
            },
            attempts > 0 && words@.len() > 0 && !key_taken(old(self)@, words@) ==> made is Ok,
            forall|other: Seq<char>|
                old(self)@.contains_key(other) ==> final(self).event_of(other) == old(
                    self,
                ).event_of(other),
    {
        let mut document = data;
        let mut left = attempts;
        while left > 0
            invariant
                self.wf(),
                self@ == old(self)@,
                document@ == data@,
                left <= attempts,
                left < attempts ==> key_taken(old(self)@, words@),
                forall|other: Seq<char>|
                    old(self)@.contains_key(other) ==> self.event_of(other) == old(self).event_of(
                        other,
                    ),
            decreases left,
        {
            let first = match draw_word(words) {
                Some(word) => word,
                None => {
                    return Err(document);
                },
            };
            let second = match draw_word(words) {
                Some(word) => word,
                None => {
                    return Err(document);
                },
            };
            proof {
                let i = choose|i: int| 0 <= i < words@.len() && words@[i] == first;
                let j = choose|j: int| 0 <= j < words@.len() && words@[j] == second;
                assert(key_of(first@, second@) == key_of(words@[i]@, words@[j]@));
                assert(is_room_key(words@, key_of(first@, second@)));
            }
            match self.create_named(first, second, document) {
                Ok(key) => {
                    return Ok(key);
                },
                Err(back) => {
                    document = back;
                },
            }
            left = left - 1;
        }
        Err(document)
    }

    /// The version of a room, if the store has it.
    pub fn version_of(&self, room: &str) -> (version: Option<u32>)
        ensures
            version is Some <==> self@.contains_key(room@),
            version matches Some(current) ==> self@[room@].version == current,
    {
        match self.rooms.get(room) {
            None => None,
            Some(found) => Some(found.version),
        }
    }

    /// Puts a room at a given version under a key, in place of the room that
    /// the key may have had.
    pub(crate) fn put(&mut self, key: String, version: u32, data: String)
        requires
            old(self).wf(),
            version >= 1,
        ensures
            final(self).wf(),
            final(self)@ == old(self)@.insert(
                key@,
                RoomView { version: version as nat, data: data@ },
            ),
            forall|other: Seq<char>|
                other != key@ ==> final(self).event_of(other) == old(self).event_of(other),
    {
        let known = self.rooms.contains_key(key.as_str());
        if !known {
            self.keys.push(key.clone());
        }
        let room = Room { version, data, event: new_event() };
        self.rooms.insert(key, room);
        proof {
            let before = names(old(self).keys@);
            let after = names(self.keys@);
            if known {
                assert(after =~= before);
            } else {
                assert(after =~= before.push(key@));
                assert(!before.contains(key@));
            }
            assert forall|name: Seq<char>| #[trigger]
                self.rooms@.contains_key(name) implies after.contains(name) by {
                if name == key@ && !known {
                    assert(after[before.len() as int] == name);
                } else {
                    let i = choose|i: int| 0 <= i < before.len() && before[i] == name;
                    assert(after[i] == name);
                }
            }
            assert(self@ =~= old(self)@.insert(
                key@,
                RoomView { version: version as nat, data: data@ },
            ));
        }
    }
}

} // verus!
