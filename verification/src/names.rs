//! Room keys: two words from a word list, joined by a dot.

use rand::seq::SliceRandom;
use vstd::prelude::*;
use vstd::string::StringExecFns;
use crate::model::Rooms;

verus! {

/// The key that two words make: the first word, a dot, the second word.
pub open spec fn key_of(first: Seq<char>, second: Seq<char>) -> Seq<char> {
    first + seq!['.'] + second
}

/// Joins two words into a room key.
pub fn room_key(first: &str, second: &str) -> (key: String)
    ensures
        key@ == key_of(first@, second@),
{
    let mut key = String::from_str(first);
    proof {
        reveal_strlit(".");
        assert("."@ =~= seq!['.']);
    }
    key.append(".");
    key.append(second);
    key
}

/// Whether a key is made of two words of the list.
pub open spec fn is_room_key(words: Seq<&str>, key: Seq<char>) -> bool {
    exists|i: int, j: int|
        0 <= i < words.len() && 0 <= j < words.len() && key == #[trigger] key_of(
            words[i]@,
            words[j]@,
        )
}

/// Whether some key made of two words of the list has a room.
pub open spec fn key_taken(rooms: Rooms, words: Seq<&str>) -> bool {
    exists|key: Seq<char>| is_room_key(words, key) && #[trigger] rooms.contains_key(key)
}

/// Draws one word of the list at random.
///
/// Calls `SliceRandom::choose` on the slice, with the generator of
/// `rand::thread_rng`: it returns `None` for an empty slice and otherwise a
/// reference to the element at an index that it draws below the slice's
/// length. Which element comes is left open.
#[verifier::external_body]
pub(crate) fn draw_word<'a>(words: &[&'a str]) -> (word: Option<&'a str>)
    ensures
        word is Some <==> words@.len() > 0,
        word matches Some(drawn) ==> words@.contains(drawn),
{
    words.choose(&mut rand::thread_rng()).copied()
}

} // verus!
