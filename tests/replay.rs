use cqrs_es::backend::{entities, get, snapshot, snapshot_list, CommitStore, MemStore};
use cqrs_es::commit::{Commit, CommitError, Timestamp};
use cqrs_es::counter::{Counter, Op};
use cqrs_es::model::{EntityId, Event, Model};
use cqrs_es::replay::TimeTraveler;

fn at(event: Event<Counter>, micros: i64) -> Commit<Counter> {
    Commit::at(event, Timestamp::from_micros(micros))
}

#[test]
fn travel_to_folds_changes_in_order() {
    let id = EntityId::new(4);
    let t = TimeTraveler {
        model: Counter::new(id, 0),
        born: Timestamp::from_micros(1),
        changes: vec![
            at(Event::Change(id, Op::Add(15)), 2),
            at(Event::Change(id, Op::Add(5)), 3),
            at(Event::Change(id, Op::Sub(9)), 4),
            at(Event::Change(id, Op::Add(31)), 5),
        ],
    };
    assert_eq!(t.travel_to(Timestamp::from_micros(5)).unwrap().count, 42);
}

#[test]
fn travel_to_skips_later_changes() {
    let id = EntityId::new(4);
    let t = TimeTraveler {
        model: Counter::new(id, 1),
        born: Timestamp::from_micros(1),
        changes: vec![at(Event::Change(id, Op::Add(2)), 2), at(Event::Change(id, Op::Add(4)), 9)],
    };
    assert_eq!(t.travel_to(Timestamp::from_micros(3)).unwrap().count, 3);
}

#[test]
fn travel_before_creation_is_not_found() {
    let id = EntityId::new(4);
    let t = TimeTraveler { model: Counter::new(id, 1), born: Timestamp::from_micros(10), changes: vec![] };
    assert_eq!(t.travel_to(Timestamp::from_micros(9)).err(), Some(CommitError::NotFound));
}

#[test]
fn create_in_the_changes_fails_the_fold() {
    let id = EntityId::new(4);
    let t = TimeTraveler {
        model: Counter::new(id, 1),
        born: Timestamp::from_micros(1),
        changes: vec![at(Event::Change(id, Op::Add(2)), 2), at(Event::Create(Counter::new(id, 0)), 3)],
    };
    assert_eq!(t.travel_to(Timestamp::from_micros(3)).err(), Some(CommitError::Malformed));
}

#[test]
fn to_present_applies_everything_made_so_far() {
    let id = EntityId::new(4);
    let t = TimeTraveler {
        model: Counter::new(id, 1),
        born: Timestamp::from_micros(1),
        changes: vec![at(Event::Change(id, Op::Add(2)), 2), at(Event::Change(id, Op::Sub(10)), 3)],
    };
    assert_eq!(t.to_present().unwrap().count, -7);
}

#[test]
fn get_splits_creation_from_changes() {
    let mut mem: MemStore<Counter> = MemStore::new();
    let id = EntityId::new(8);
    mem.commit(at(Event::Create(Counter::new(id, 5)), 10)).unwrap();
    mem.commit(at(Event::Change(EntityId::new(9), Op::Add(1)), 11)).unwrap();
    mem.commit(at(Event::Change(id, Op::Add(2)), 12)).unwrap();
    let t = get(&mem, id).unwrap();
    assert_eq!(t.model.count, 5);
    assert_eq!(t.born, Timestamp::from_micros(10));
    assert_eq!(t.changes.len(), 1);
    assert_eq!(get(&mem, EntityId::new(9)).err(), Some(CommitError::NotFound));
    assert_eq!(get(&mem, EntityId::new(10)).err(), Some(CommitError::NotFound));
}

#[test]
fn entities_and_lists_follow_keys() {
    let mut mem: MemStore<Counter> = MemStore::new();
    mem.commit(at(Event::Create(Counter::new(EntityId::new(1), 1)), 10)).unwrap();
    mem.commit(at(Event::Create(Counter::new(EntityId::new(2), 2)), 20)).unwrap();
    mem.commit(at(Event::Change(EntityId::new(1), Op::Add(10)), 30)).unwrap();
    let ts = entities(&mem).unwrap();
    assert_eq!(ts.len(), 2);
    let list = snapshot_list(&mem, Timestamp::from_micros(30)).unwrap();
    assert_eq!(list.iter().map(|m| m.count).collect::<Vec<_>>(), vec![11, 2]);
    let early = snapshot_list(&mem, Timestamp::from_micros(15)).unwrap();
    assert_eq!(early.iter().map(|m| m.count).collect::<Vec<_>>(), vec![1]);
    assert_eq!(snapshot(&mem, EntityId::new(1), Timestamp::from_micros(29)).unwrap().count, 1);
}

#[test]
fn event_accessors() {
    let id = EntityId::new(3);
    let create: Event<Counter> = Event::Create(Counter::new(id, 7));
    let change: Event<Counter> = Event::Change(id, Op::Sub(1));
    assert_eq!(create.entity_id(), id);
    assert_eq!(change.entity_id(), id);
    assert_eq!(create.entity().map(|m| m.count), Some(7));
    assert!(create.change().is_none());
    assert_eq!(change.change(), Some(Op::Sub(1)));
    assert!(change.entity().is_none());
    let c = Commit::new(change, Some("bob".to_string()), None);
    assert_eq!(c.entity_id(), id);
    assert_eq!(c.who, Some("bob".to_string()));
}

#[test]
fn counter_changes() {
    let mut m = Counter::new(EntityId::new(1), 10);
    m.apply_change(&Op::Add(5));
    m.apply_change(&Op::Sub(20));
    assert_eq!(m.count, -5);
    assert_eq!(m.id(), EntityId::new(1));
}

#[test]
fn timestamps_compare() {
    let a = Timestamp::from_micros(5);
    let b = Timestamp::from_micros(6);
    assert!(a.le(&b));
    assert!(a.le(&a));
    assert!(!b.le(&a));
}
