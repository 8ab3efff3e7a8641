use globby::names::room_key;
use globby::store::{ListStep, Store};

const WORDS: [&str; 5] = ["apple", "fig", "kiwi", "pear", "plum"];

fn is_key_of(words: &[&str], key: &str) -> bool {
    words.iter().any(|first| words.iter().any(|second| key == format!("{}.{}", first, second)))
}

#[test]
fn room_key_joins_with_a_dot() {
    assert_eq!(room_key("pear", "plum"), "pear.plum");
    assert_eq!(room_key("plum", "pear"), "plum.pear");
    assert_eq!(room_key("", ""), ".");
    assert_eq!(room_key("a.b", "c"), "a.b.c");
    assert_eq!(room_key("\u{e9}t\u{e9}", "\u{4e2d}"), "\u{e9}t\u{e9}.\u{4e2d}");
}

#[test]
fn create_named_makes_a_room_at_version_one() {
    let mut store = Store::new();
    let made = store.create_named("pear", "plum", "{\"x\":1}".to_string());
    assert_eq!(made, Ok("pear.plum".to_string()));
    assert_eq!(store.version_of("pear.plum"), Some(1));
    match store.list("pear.plum", 0) {
        ListStep::Reply(reply) => {
            assert_eq!(reply.version, 1);
            assert_eq!(reply.data, "{\"x\":1}");
        },
        _ => panic!("the room exists at version 1"),
    }
}

#[test]
fn create_named_on_a_taken_key_hands_the_data_back() {
    let mut store = Store::new();
    assert!(store.create_named("pear", "plum", "1".to_string()).is_ok());
    assert!(store.commit("pear.plum", 1, "2".to_string()));
    let again = store.create_named("pear", "plum", "3".to_string());
    assert_eq!(again, Err("3".to_string()));
    assert_eq!(store.version_of("pear.plum"), Some(2));
    assert_eq!(store.dump_state().len(), 1);
    assert_eq!(store.create_named("plum", "pear", "3".to_string()), Ok("plum.pear".to_string()));
    assert_eq!(store.dump_state().len(), 2);
}

#[test]
fn make_room_draws_both_words_from_the_list() {
    let mut store = Store::new();
    for _ in 0..10 {
        let key = store.make_room(&WORDS, "{}".to_string(), 1000).unwrap();
        assert!(is_key_of(&WORDS, &key));
        assert_eq!(store.version_of(&key), Some(1));
    }
}

#[test]
fn make_room_with_one_word() {
    let mut store = Store::new();
    assert_eq!(store.make_room(&["pear"], "1".to_string(), 1), Ok("pear.pear".to_string()));
    assert_eq!(store.make_room(&["pear"], "2".to_string(), 50), Err("2".to_string()));
    assert_eq!(store.version_of("pear.pear"), Some(1));
    assert_eq!(store.dump_state().len(), 1);
}

#[test]
fn make_room_never_gives_a_key_twice() {
    let mut store = Store::new();
    let mut keys: Vec<String> = Vec::new();
    for n in 0..25 {
        let mut data = format!("{}", n);
        let key = loop {
            match store.make_room(&WORDS, data, 1000) {
                Ok(key) => break key,
                Err(back) => data = back,
            }
        };
        assert!(!keys.contains(&key));
        keys.push(key);
    }
    assert_eq!(store.dump_state().len(), 25);
    assert_eq!(store.make_room(&WORDS, "full".to_string(), 200), Err("full".to_string()));
    assert_eq!(store.dump_state().len(), 25);
}

#[test]
fn make_room_keeps_the_rooms_that_were_there() {
    let mut store = Store::new();
    let first = store.make_room(&WORDS, "first".to_string(), 1000).unwrap();
    assert!(store.commit(&first, 1, "written".to_string()));
    let second = store.make_room(&WORDS, "second".to_string(), 1000).unwrap();
    assert_ne!(first, second);
    assert_eq!(store.version_of(&first), Some(2));
    assert_eq!(store.version_of(&second), Some(1));
}

#[test]
fn make_room_without_attempts_or_words() {
    let mut store = Store::new();
    assert_eq!(store.make_room(&WORDS, "{}".to_string(), 0), Err("{}".to_string()));
    assert_eq!(store.make_room(&[], "{}".to_string(), 10), Err("{}".to_string()));
    assert!(store.dump_state().is_empty());
}

#[test]
fn make_room_succeeds_at_once_where_no_key_is_taken() {
    let mut store = Store::new();
    assert!(store.create_named("other", "names", "{}".to_string()).is_ok());
    let key = store.make_room(&WORDS, "{}".to_string(), 1).unwrap();
    assert!(is_key_of(&WORDS, &key));
}

#[test]
fn make_room_draws_more_than_one_key() {
    let mut seen: Vec<String> = Vec::new();
    for _ in 0..200 {
        let mut store = Store::new();
        let key = store.make_room(&WORDS, "{}".to_string(), 1).unwrap();
        if !seen.contains(&key) {
            seen.push(key);
        }
    }
    assert!(seen.len() > 1);
}
