use cqrs_es::backend::{CommitStore, MemStore};
use cqrs_es::commit::{Commit, CommitError, Timestamp};
use cqrs_es::counter::{Counter, Op};
use cqrs_es::model::{EntityId, Event};
use cqrs_es::store::{Store, StoreMsg, StoreReply};

fn counts_store() -> Store<Counter, MemStore<Counter>> {
    Store::new("test-counts".to_string(), MemStore::new())
}

fn tell(store: &mut Store<Counter, MemStore<Counter>>, event: Event<Counter>) {
    match store.receive(StoreMsg::Commit(Commit::new(event, None, None))) {
        StoreReply::Committed(_) => {}
        _ => panic!("commit refused"),
    }
}

fn ask_one(store: &mut Store<Counter, MemStore<Counter>>, id: EntityId) -> Option<Counter> {
    match store.receive(StoreMsg::Snapshot(id, Timestamp::now())) {
        StoreReply::Snapshot(m) => m,
        _ => panic!("wrong reply"),
    }
}

fn ask_all(store: &mut Store<Counter, MemStore<Counter>>) -> Vec<Counter> {
    match store.receive(StoreMsg::SnapshotList(Timestamp::now())) {
        StoreReply::SnapshotList(l) => l.expect("list entities"),
        _ => panic!("wrong reply"),
    }
}

#[test]
fn load_snapshot() {
    let mut store = counts_store();
    let test = Counter::new(EntityId::new(1), 0);
    let id = test.id;
    tell(&mut store, Event::Create(test));
    tell(&mut store, Event::Change(id, Op::Add(15)));
    tell(&mut store, Event::Change(id, Op::Add(5)));
    tell(&mut store, Event::Change(id, Op::Sub(9)));
    tell(&mut store, Event::Change(id, Op::Add(31)));

    let result = ask_one(&mut store, id);
    assert_eq!(result.unwrap().count, 42);
}

#[test]
fn non_existing_entity() {
    let mut store = counts_store();
    let result = ask_one(&mut store, EntityId::new(123));
    assert!(result.is_none());
}

#[test]
fn load_list_of_snapshots() {
    let mut store = counts_store();
    let some_counter = Counter::new(EntityId::new(123), 42);
    tell(&mut store, Event::Create(some_counter));
    tell(&mut store, Event::Create(Counter::new(EntityId::new(1), 0)));
    tell(&mut store, Event::Create(Counter::new(EntityId::new(2), 0)));
    tell(&mut store, Event::Change(EntityId::new(123), Op::Add(8)));

    let result = ask_all(&mut store);
    assert_eq!(result.len(), 3);
    let some_counter_snapshot = result.iter().find(|s| s.id == EntityId::new(123)).unwrap();
    assert_eq!(some_counter_snapshot.count, 50);
}

#[test]
fn broadcast_event() {
    let store_name = "test-counts";
    let mut store: Store<Counter, MemStore<Counter>> = Store::with_bus(store_name.to_string(), MemStore::new());
    let reply = store.receive(StoreMsg::Commit(Commit::new(Event::Create(Counter::new(EntityId::new(7), 0)), None, None)));
    let result = match reply {
        StoreReply::Committed(p) => p,
        _ => None,
    };
    assert!(result.is_some());
    let publish = result.unwrap();
    assert_eq!(publish.topic, format!("{}-events", store_name));
    match publish.event {
        Event::Create(m) => assert_eq!(m.id, EntityId::new(7)),
        Event::Change(_, _) => panic!("wrong event"),
    }
}

#[test]
fn no_publication_without_bus() {
    let mut store = counts_store();
    let reply = store.receive(StoreMsg::Commit(Commit::new(Event::Create(Counter::new(EntityId::new(7), 0)), None, None)));
    assert!(matches!(reply, StoreReply::Committed(None)));
}

#[test]
fn changes_stay_with_their_instance() {
    let mut store = counts_store();
    let a = EntityId::new(1);
    let b = EntityId::new(2);
    tell(&mut store, Event::Create(Counter::new(a, 10)));
    tell(&mut store, Event::Create(Counter::new(b, 20)));
    tell(&mut store, Event::Change(a, Op::Add(1)));
    tell(&mut store, Event::Change(b, Op::Sub(5)));
    tell(&mut store, Event::Change(a, Op::Add(2)));
    assert_eq!(ask_one(&mut store, a).unwrap().count, 13);
    assert_eq!(ask_one(&mut store, b).unwrap().count, 15);
}

#[test]
fn change_without_create_is_not_found() {
    let mut store = counts_store();
    let id = EntityId::new(5);
    tell(&mut store, Event::Change(id, Op::Add(1)));
    assert!(ask_one(&mut store, id).is_none());
    match store.receive(StoreMsg::SnapshotList(Timestamp::now())) {
        StoreReply::SnapshotList(l) => assert_eq!(l.err(), Some(CommitError::NotFound)),
        _ => panic!("wrong reply"),
    }
}

#[test]
fn second_create_is_malformed() {
    let mut store = counts_store();
    let id = EntityId::new(5);
    tell(&mut store, Event::Create(Counter::new(id, 1)));
    tell(&mut store, Event::Create(Counter::new(id, 2)));
    assert!(ask_one(&mut store, id).is_none());
    match store.receive(StoreMsg::SnapshotList(Timestamp::now())) {
        StoreReply::SnapshotList(l) => assert_eq!(l.err(), Some(CommitError::Malformed)),
        _ => panic!("wrong reply"),
    }
}

#[test]
fn snapshot_at_a_past_moment() {
    let mut store = counts_store();
    let id = EntityId::new(9);
    let commits = vec![
        Commit::at(Event::Create(Counter::new(id, 0)), Timestamp::from_micros(100)),
        Commit::at(Event::Change(id, Op::Add(15)), Timestamp::from_micros(200)),
        Commit::at(Event::Change(id, Op::Add(5)), Timestamp::from_micros(300)),
    ];
    for c in commits {
        assert!(matches!(store.receive(StoreMsg::Commit(c)), StoreReply::Committed(None)));
    }
    assert_eq!(store.snapshot(id, Timestamp::from_micros(50)).map(|m| m.count), None);
    assert_eq!(store.snapshot(id, Timestamp::from_micros(100)).map(|m| m.count), Some(0));
    assert_eq!(store.snapshot(id, Timestamp::from_micros(250)).map(|m| m.count), Some(15));
    assert_eq!(store.snapshot(id, Timestamp::from_micros(300)).map(|m| m.count), Some(20));
    let list = store.snapshot_list(Timestamp::from_micros(50)).unwrap();
    assert_eq!(list.len(), 0);
}

#[test]
fn subscribe_is_unsupported() {
    let mut store = counts_store();
    assert!(matches!(store.receive(StoreMsg::Subscribe(EntityId::new(1))), StoreReply::Unsupported));
}

#[test]
fn backend_keys_and_change_list() {
    let mut mem: MemStore<Counter> = MemStore::new();
    let a = EntityId::new(1);
    let b = EntityId::new(2);
    mem.commit(Commit::new(Event::Create(Counter::new(a, 0)), Some("ann".to_string()), Some("start".to_string()))).unwrap();
    mem.commit(Commit::new(Event::Create(Counter::new(b, 0)), None, None)).unwrap();
    mem.commit(Commit::new(Event::Change(a, Op::Add(3)), None, None)).unwrap();
    let keys = mem.keys().unwrap();
    assert_eq!(keys, vec![a, b]);
    let list = mem.change_list(a).unwrap();
    assert_eq!(list.len(), 2);
    assert_eq!(list[0].who, Some("ann".to_string()));
    assert_eq!(list[0].why, Some("start".to_string()));
    assert!(matches!(list[1].event, Event::Change(_, Op::Add(3))));
    assert_eq!(mem.change_list(EntityId::new(3)).unwrap().len(), 0);
}

#[test]
fn counter_wraps() {
    let mut store = counts_store();
    let id = EntityId::new(1);
    tell(&mut store, Event::Create(Counter::new(id, i16::MAX)));
    tell(&mut store, Event::Change(id, Op::Add(1)));
    assert_eq!(ask_one(&mut store, id).unwrap().count, i16::MIN);
}

#[test]
fn clock_reads_the_present() {
    let t = Timestamp::now();
    // 2020-01-01T00:00:00Z
    assert!(t.micros > 1_577_836_800_000_000);
    let c: Commit<Counter> = Commit::new(Event::Create(Counter::new(EntityId::new(1), 0)), None, None);
    assert!(c.when.micros >= t.micros);
}

#[test]
fn error_messages() {
    assert_eq!(CommitError::NotFound.message(), "Didn't find commit for entity");
    assert_eq!(CommitError::CantChange.message(), "Cant change non existing entity");
}
