use vstd::prelude::*;
use crate::model::{EntityId, Model};

verus! {

/// A model that keeps one count.
#[derive(Clone, Copy, Debug, PartialEq, Eq, Structural)]
pub struct Counter {
    pub id: EntityId,
    pub count: i16,
}

/// A change to a count; the arithmetic wraps.
#[derive(Clone, Copy, Debug, PartialEq, Eq, Structural)]
pub enum Op {
    Add(i16),
    Sub(i16),
}

impl Counter {
    pub fn new(id: EntityId, count: i16) -> (r: Counter)
        ensures
            r.id == id,
            r.count == count,
    {
        Counter { id, count }
    }
}

impl Model for Counter {
    type Change = Op;

    open spec fn key(&self) -> EntityId {
        self.id
    }

    open spec fn changed(self, change: Op) -> Counter {
        match change {
            Op::Add(n) => Counter { id: self.id, count: self.count.wrapping_add(n) },
            Op::Sub(n) => Counter { id: self.id, count: self.count.wrapping_sub(n) },
        }
    }

    fn id(&self) -> (r: EntityId) {
        self.id
    }

    fn apply_change(&mut self, change: &Op) {
        match change {
            Op::Add(n) => self.count = self.count.wrapping_add(*n),
            Op::Sub(n) => self.count = self.count.wrapping_sub(*n),
        }
    }

    fn duplicate(&self) -> (r: Counter) {
        Counter { id: self.id, count: self.count }
    }

    fn duplicate_change(change: &Op) -> (r: Op) {
        *change
    }
}

} // verus!
