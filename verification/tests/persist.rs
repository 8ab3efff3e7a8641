use globby::persist::{RoomRecord, ZeroVersion};
use globby::store::{ListStep, Store};

fn record(room: &str, version: u32, data: &str) -> RoomRecord {
    RoomRecord { room: room.to_string(), version, data: data.to_string() }
}

fn sorted(mut records: Vec<RoomRecord>) -> Vec<RoomRecord> {
    records.sort_by(|a, b| a.room.cmp(&b.room));
    records
}

#[test]
fn dump_lists_every_room_once() {
    let mut store = Store::new();
    store.create_named("pear", "plum", "1".to_string()).unwrap();
    store.create_named("fig", "lime", "2".to_string()).unwrap();
    store.create_named("kiwi", "date", "3".to_string()).unwrap();
    assert!(store.commit("fig.lime", 1, "two".to_string()));
    assert!(store.commit("fig.lime", 2, "zwei".to_string()));
    let records = sorted(store.dump_state());
    assert_eq!(
        records,
        vec![
            record("fig.lime", 3, "zwei"),
            record("kiwi.date", 1, "3"),
            record("pear.plum", 1, "1"),
        ]
    );
}

#[test]
fn dump_then_load_gives_the_same_rooms() {
    let mut store = Store::new();
    store.create_named("pear", "plum", "{\"x\":1}".to_string()).unwrap();
    store.create_named("fig", "lime", "[]".to_string()).unwrap();
    assert!(store.commit("pear.plum", 1, "{\"x\":2}".to_string()));
    let records = store.dump_state();
    let loaded = Store::load_state(records.clone()).unwrap();
    assert_eq!(sorted(loaded.dump_state()), sorted(records));
    assert_eq!(loaded.version_of("pear.plum"), Some(2));
    assert_eq!(loaded.version_of("fig.lime"), Some(1));
    assert_eq!(loaded.version_of("lime.fig"), None);
    match loaded.list("pear.plum", 0) {
        ListStep::Reply(reply) => assert_eq!(reply.data, "{\"x\":2}"),
        _ => panic!("the room was dumped"),
    }
}

#[test]
fn loaded_rooms_can_be_written_to() {
    let mut loaded = Store::load_state(vec![record("pear.plum", 9, "{}")]).unwrap();
    assert!(matches!(loaded.list("pear.plum", 9), ListStep::Wait(_)));
    assert!(loaded.commit("pear.plum", 9, "[]".to_string()));
    assert_eq!(loaded.dump_state(), vec![record("pear.plum", 10, "[]")]);
}

#[test]
fn load_of_nothing_is_the_empty_store() {
    let loaded = Store::load_state(Vec::new()).unwrap();
    assert!(loaded.dump_state().is_empty());
}

#[test]
fn load_refuses_version_zero() {
    let records = vec![
        record("pear.plum", 2, "{}"),
        record("fig.lime", 0, "{}"),
        record("kiwi.date", 0, "{}"),
    ];
    match Store::load_state(records) {
        Err(refused) => assert_eq!(refused, ZeroVersion { room: "fig.lime".to_string() }),
        Ok(_) => panic!("a record is at version 0"),
    }
    assert!(Store::load_state(vec![record("a.b", 0, "1"), record("a.b", 1, "2")]).is_err());
}

#[test]
fn load_takes_the_last_record_of_a_key() {
    let records = vec![
        record("pear.plum", 2, "first"),
        record("fig.lime", 5, "other"),
        record("pear.plum", 7, "last"),
    ];
    let loaded = Store::load_state(records).unwrap();
    assert_eq!(
        sorted(loaded.dump_state()),
        vec![record("fig.lime", 5, "other"), record("pear.plum", 7, "last")]
    );
}

#[test]
fn load_keeps_keys_of_any_shape() {
    let records = vec![record("", 1, ""), record("no dot", u32::MAX, " ")];
    let loaded = Store::load_state(records).unwrap();
    assert_eq!(loaded.version_of(""), Some(1));
    assert_eq!(loaded.version_of("no dot"), Some(u32::MAX));
}
